use narrative_surgeon::error::{AppError, ErrorSeverity};

#[test]
fn error_test_error_creation() {
    let error = AppError::database("Connection failed");
    assert!(matches!(error, AppError::Database { .. }));
    assert_eq!(error.user_message(), "There was a problem accessing the database. Please try again.");
}

#[test]
fn test_error_retryable() {
    let network_error = AppError::network_with_status("Server error", 500);
    assert!(network_error.is_retryable());

    let validation_error = AppError::validation("Invalid input");
    assert!(!validation_error.is_retryable());
}

#[test]
fn db_tests_test_error_creation() {
    let error = AppError::database("Test error");
    match error {
        AppError::Database { message, .. } => {
            assert_eq!(message, "Test error");
        },
        _ => panic!("Expected Database error"),
    }
}

#[test]
fn test_error_user_messages() {
    let db_error = AppError::database("Connection failed");
    assert_eq!(db_error.user_message(), "There was a problem accessing the database. Please try again.");

    let validation_error = AppError::validation_field("Invalid input", "title", "");
    assert_eq!(validation_error.user_message(), "Please check the title field and try again.");

    let not_found_error = AppError::not_found("Manuscript");
    assert_eq!(not_found_error.user_message(), "The Manuscript could not be found.");
}

#[test]
fn test_error_retryability() {
    let network_error = AppError::network("Connection failed");
    assert!(network_error.is_retryable());

    let validation_error = AppError::validation("Invalid input");
    assert!(!validation_error.is_retryable());

    let timeout_error = AppError::timeout("Operation timed out", 5000, "query");
    assert!(timeout_error.is_retryable());
}

#[test]
fn test_error_severity() {
    let internal_error = AppError::internal("Critical failure");
    assert_eq!(internal_error.severity(), ErrorSeverity::Critical);

    let database_error = AppError::database("Connection failed");
    assert_eq!(database_error.severity(), ErrorSeverity::High);

    let validation_error = AppError::validation("Invalid input");
    assert_eq!(validation_error.severity(), ErrorSeverity::Low);
}

#[test]
fn test_error_propagation_workflow() {
    let db_error = AppError::database("Connection failed");
    assert_eq!(db_error.user_message(), "There was a problem accessing the database. Please try again.");
    assert!(db_error.is_retryable());

    let fs_error = AppError::file_system("Permission denied", "write");
    assert!(fs_error.user_message().contains("Unable to write"));
    assert!(!fs_error.is_retryable());

    let validation_error = AppError::validation_field("Invalid title", "title", "");
    assert!(validation_error.user_message().contains("title"));
    assert!(!validation_error.is_retryable());
}

#[test]
fn validation_field_message_and_retry() {
    let e = AppError::validation_field("Title cannot be empty", "title", "");
    assert_eq!(e.user_message(), "Please check the title field and try again.");
    assert!(!e.is_retryable());
    match e {
        AppError::Validation { message, field, value, .. } => {
            assert_eq!(message, "Title cannot be empty");
            assert_eq!(field.as_deref(), Some("title"));
            assert_eq!(value.as_deref(), Some(""));
        },
        _ => panic!("expected a validation error"),
    }
}

#[test]
fn user_messages_of_every_kind() {
    assert_eq!(
        AppError::file_system("denied", "read").user_message(),
        "Unable to read the file. Please check file permissions and try again."
    );
    assert_eq!(
        AppError::network("down").user_message(),
        "Network connection problem. Please check your internet connection."
    );
    assert_eq!(AppError::validation("bad").user_message(), "Please check your input and try again.");
    assert_eq!(
        AppError::export("failed", "PDF").user_message(),
        "Unable to export as PDF. Please try a different format."
    );
    assert_eq!(
        AppError::timeout("slow", 10, "save").user_message(),
        "The save operation timed out. Please try again."
    );
    assert_eq!(
        AppError::internal("boom").user_message(),
        "An unexpected error occurred. Please try again."
    );
    let rate = AppError::RateLimit { message: "slow down".to_string(), retry_after: None, timestamp: 0 };
    assert_eq!(rate.user_message(), "Too many requests. Please wait a moment and try again.");
    let perm = AppError::Permission {
        message: "no".to_string(),
        required_permission: "write".to_string(),
        timestamp: 0,
    };
    assert_eq!(perm.user_message(), "Permission required: write. Please check your access rights.");
}

#[test]
fn network_status_decides_retry() {
    assert!(AppError::network_with_status("busy", 429).is_retryable());
    assert!(AppError::network_with_status("server", 503).is_retryable());
    assert!(!AppError::network_with_status("client", 404).is_retryable());
    assert!(!AppError::file_system("gone", "open").is_retryable());
    assert!(!AppError::internal("bug").is_retryable());
    assert!(!AppError::not_found("Scene").is_retryable());
}

#[test]
fn retry_delay_hints() {
    let rate = AppError::RateLimit { message: "m".to_string(), retry_after: Some(7), timestamp: 0 };
    assert_eq!(rate.retry_delay_ms(), Some(7));
    let rate_default = AppError::RateLimit { message: "m".to_string(), retry_after: None, timestamp: 0 };
    assert_eq!(rate_default.retry_delay_ms(), Some(1000));
    assert_eq!(AppError::network("x").retry_delay_ms(), Some(1000));
    assert_eq!(AppError::database("x").retry_delay_ms(), Some(500));
    assert_eq!(AppError::timeout("x", 1, "op").retry_delay_ms(), Some(2000));
    assert_eq!(AppError::validation("x").retry_delay_ms(), None);
}

#[test]
fn severities_by_kind() {
    assert_eq!(AppError::file_system("x", "y").severity(), ErrorSeverity::High);
    assert_eq!(AppError::network("x").severity(), ErrorSeverity::Medium);
    assert_eq!(AppError::not_found("x").severity(), ErrorSeverity::Low);
    assert_eq!(AppError::export("x", "PDF").severity(), ErrorSeverity::Medium);
    assert_eq!(AppError::timeout("x", 1, "y").severity(), ErrorSeverity::Medium);
}

#[test]
fn constructors_keep_context() {
    match AppError::database_with_query("failed", "SELECT 1") {
        AppError::Database { message, query, code, .. } => {
            assert_eq!(message, "failed");
            assert_eq!(query.as_deref(), Some("SELECT 1"));
            assert!(code.is_none());
        },
        _ => panic!("expected a database error"),
    }
    match AppError::not_found_with_id("Scene", "42") {
        AppError::NotFound { resource, id, .. } => {
            assert_eq!(resource, "Scene");
            assert_eq!(id.as_deref(), Some("42"));
        },
        _ => panic!("expected a not-found error"),
    }
    match AppError::file_system_with_path("denied", "write", "/tmp/x") {
        AppError::FileSystem { operation, path, .. } => {
            assert_eq!(operation, "write");
            assert_eq!(path.as_deref(), Some("/tmp/x"));
        },
        _ => panic!("expected a file-system error"),
    }
}
