use narrative_surgeon::error::AppError;
use narrative_surgeon::records::{Manuscript, Scene};
use narrative_surgeon::validate::{
    check_identifier, validate_manuscript, validate_manuscript_id, validate_manuscript_title,
    validate_scene, validate_scene_id, validate_title,
};

fn field_error(r: Result<(), AppError>) -> (String, Option<String>, Option<String>) {
    match r {
        Err(AppError::Validation { message, field, value, .. }) => (message, field, value),
        _ => panic!("expected a validation error"),
    }
}

#[test]
fn test_manuscript_validation() {
    assert!(validate_manuscript_id("550e8400-e29b-41d4-a716-446655440000").is_ok());
    assert!(validate_manuscript_id("").is_err());
    assert!(validate_manuscript_id("invalid-uuid").is_err());
}

#[test]
fn test_scene_validation() {
    assert!(validate_scene_id("550e8400-e29b-41d4-a716-446655440001").is_ok());
    assert!(validate_scene_id("").is_err());
    assert!(validate_scene_id("not-a-uuid").is_err());
}

#[test]
fn test_manuscript_title_validation() {
    assert!(validate_manuscript_title("Valid Title").is_ok());
    assert!(validate_manuscript_title("").is_err());
    let long_title = "a".repeat(300);
    assert!(validate_manuscript_title(&long_title).is_err());
}

#[test]
fn test_edge_cases() {
    assert!(validate_manuscript_title("").is_err());
    assert!(validate_manuscript_id("").is_err());
    assert!(validate_scene_id("").is_err());

    let long_title = "a".repeat(1000);
    assert!(validate_manuscript_title(&long_title).is_err());

    assert!(validate_manuscript_id("not-a-uuid").is_err());
    assert!(validate_scene_id("invalid-uuid-format").is_err());

    let exactly_255_chars = "a".repeat(255);
    assert!(validate_manuscript_title(&exactly_255_chars).is_ok());

    let exactly_256_chars = "a".repeat(256);
    assert!(validate_manuscript_title(&exactly_256_chars).is_err());
}

#[test]
fn identifier_errors_name_the_field() {
    let (m, f, v) = field_error(validate_manuscript_id(""));
    assert_eq!(m, "Manuscript ID cannot be empty");
    assert_eq!(f.as_deref(), Some("manuscript_id"));
    assert_eq!(v.as_deref(), Some(""));
    let (m, f, v) = field_error(validate_scene_id("nope"));
    assert_eq!(m, "Invalid scene ID format");
    assert_eq!(f.as_deref(), Some("scene_id"));
    assert_eq!(v.as_deref(), Some("nope"));
    assert!(validate_scene_id("{550e8400-e29b-41d4-a716-446655440001}").is_ok());
    assert!(check_identifier("x", true, "f", "empty", "bad").is_ok());
    let (m, _, _) = field_error(check_identifier("x", false, "f", "empty", "bad"));
    assert_eq!(m, "bad");
}

#[test]
fn title_errors_record_length() {
    let (m, f, v) = field_error(validate_title(""));
    assert_eq!(m, "Title cannot be empty");
    assert_eq!(f.as_deref(), Some("title"));
    assert_eq!(v.as_deref(), Some(""));
    let (m, _, v) = field_error(validate_title(&"b".repeat(300)));
    assert_eq!(m, "Title cannot be longer than 255 characters");
    assert_eq!(v.as_deref(), Some("300 chars"));
    // The limit is on bytes: 128 two-byte characters are 256 bytes.
    let (_, _, v) = field_error(validate_title(&"é".repeat(128)));
    assert_eq!(v.as_deref(), Some("256 chars"));
}

fn manuscript(title: &str) -> Manuscript {
    Manuscript {
        id: "m".to_string(),
        title: title.to_string(),
        author: None,
        genre: None,
        target_audience: None,
        comp_titles: None,
        created_at: 0,
        updated_at: 0,
        total_word_count: 0,
        opening_strength_score: None,
        hook_effectiveness: None,
    }
}

fn scene(text: &str) -> Scene {
    Scene {
        id: "s".to_string(),
        manuscript_id: "m".to_string(),
        chapter_number: None,
        scene_number_in_chapter: None,
        index_in_manuscript: 0,
        title: None,
        raw_text: text.to_string(),
        word_count: 0,
        is_opening: false,
        is_chapter_end: false,
        opens_with_hook: false,
        ends_with_hook: false,
        pov_character: None,
        location: None,
        time_marker: None,
        created_at: 0,
        updated_at: 0,
    }
}

#[test]
fn manuscript_record_checks() {
    assert!(validate_manuscript(&manuscript("A Title")).is_ok());
    let (m, _, v) = field_error(validate_manuscript(&manuscript(" \t\u{3000}")));
    assert_eq!(m, "Manuscript title cannot be empty");
    assert_eq!(v.as_deref(), Some(" \t\u{3000}"));
    let (m, _, _) = field_error(validate_manuscript(&manuscript(&"x".repeat(501))));
    assert_eq!(m, "Manuscript title too long (max 500 characters)");
    assert!(validate_manuscript(&manuscript(&"x".repeat(500))).is_ok());
}

#[test]
fn scene_record_checks() {
    assert!(validate_scene(&scene("Once upon a time")).is_ok());
    let (m, f, v) = field_error(validate_scene(&scene("\n\n  ")));
    assert_eq!(m, "Scene content cannot be empty");
    assert_eq!(f.as_deref(), Some("raw_text"));
    assert_eq!(v.as_deref(), Some("empty"));
    let (m, _, v) = field_error(validate_scene(&scene(&"y".repeat(100_001))));
    assert_eq!(m, "Scene content too long (max 100,000 characters)");
    assert_eq!(v.as_deref(), Some("too_long"));
}

use narrative_surgeon::commands::{
    create_manuscript_statements, create_scene_statements, delete_manuscript_statements, delete_scene_statements,
    get_manuscripts_statement, get_scenes_statement, update_manuscript_statements, update_scene_statements,
};

const MID: &str = "550e8400-e29b-41d4-a716-446655440000";
const SID: &str = "550e8400-e29b-41d4-a716-446655440001";

#[test]
fn create_manuscript_builds_two_inserts() {
    let r = create_manuscript_statements("My Book", "It was a dark night.", MID, SID, 1700000000000).unwrap();
    assert_eq!(r.len(), 2);
    assert!(r[0].sql.starts_with("INSERT INTO manuscripts"));
    assert_eq!(r[0].params, vec![MID, "My Book", "1700000000000", "1700000000000", "5"]);
    assert!(r[1].sql.starts_with("INSERT INTO scenes"));
    assert_eq!(
        r[1].params,
        vec![SID, MID, "0", "Opening Scene", "It was a dark night.", "5", "1700000000000", "1700000000000"]
    );
}

#[test]
fn create_manuscript_checks_title_then_size() {
    let (m, f, _) = field_error(create_manuscript_statements("", "x", MID, SID, 0).map(|_| ()));
    assert_eq!(m, "Title cannot be empty");
    assert_eq!(f.as_deref(), Some("title"));
    let big = "w ".repeat(500_001);
    let (m, f, v) = field_error(create_manuscript_statements("T", &big, MID, SID, 0).map(|_| ()));
    assert_eq!(m, "Text content too large (max 1MB)");
    assert_eq!(f.as_deref(), Some("text"));
    assert_eq!(v.as_deref(), Some("1000002 chars"));
}

#[test]
fn update_scene_builds_only_what_is_given() {
    let r = update_scene_statements(SID, Some("New"), Some("two words"), -5).unwrap();
    assert_eq!(r.len(), 2);
    assert_eq!(r[0].sql, "UPDATE scenes SET raw_text = ?, word_count = ?, updated_at = ? WHERE id = ?");
    assert_eq!(r[0].params, vec!["two words", "2", "-5", SID]);
    assert_eq!(r[1].sql, "UPDATE scenes SET title = ?, updated_at = ? WHERE id = ?");
    assert_eq!(r[1].params, vec!["New", "-5", SID]);
    assert!(update_scene_statements(SID, None, None, 0).unwrap().is_empty());
    let (m, _, _) = field_error(update_scene_statements("bad", None, None, 0).map(|_| ()));
    assert_eq!(m, "Invalid scene ID format");
    let (m, f, _) = field_error(update_scene_statements(SID, None, Some(&"z".repeat(500_001)), 0).map(|_| ()));
    assert_eq!(m, "Scene text too large (max 500KB)");
    assert_eq!(f.as_deref(), Some("raw_text"));
}

#[test]
fn deletes_and_reads() {
    let r = delete_manuscript_statements(MID).unwrap();
    assert_eq!(r[0].sql, "DELETE FROM scenes WHERE manuscript_id = ?");
    assert_eq!(r[1].sql, "DELETE FROM manuscripts WHERE id = ?");
    assert_eq!(r[1].params, vec![MID]);
    assert!(delete_manuscript_statements("").is_err());
    let r = delete_scene_statements(SID).unwrap();
    assert_eq!(r[0].params, vec![SID]);
    assert!(delete_scene_statements("x").is_err());
    assert!(get_manuscripts_statement().params.is_empty());
    let s = get_scenes_statement(MID).unwrap();
    assert_eq!(s.params, vec![MID]);
    assert!(get_scenes_statement("nope").is_err());
}

#[test]
fn update_manuscript_fills_missing_fields() {
    let r = update_manuscript_statements("Title", None, Some("Noir"), 12).unwrap();
    assert_eq!(r[0].params, vec!["Title", "", "Noir", "12"]);
    assert!(update_manuscript_statements(&"t".repeat(256), None, None, 0).is_err());
}

#[test]
fn create_scene_reads_index_then_inserts() {
    let r = create_scene_statements("S", "one two three", Some(-2), None, SID, 9).unwrap();
    assert_eq!(r.len(), 2);
    assert!(r[0].sql.starts_with("SELECT COALESCE"));
    assert!(r[0].params.is_empty());
    assert_eq!(r[1].params, vec![SID, "0", "S", "one two three", "3", "-2", "", "9", "9"]);
    let (m, f, v) = field_error(create_scene_statements("S", &"c".repeat(500_001), None, None, SID, 0).map(|_| ()));
    assert_eq!(m, "Scene content too large (max 500KB)");
    assert_eq!(f.as_deref(), Some("content"));
    assert_eq!(v.as_deref(), Some("500001 chars"));
}

#[test]
fn test_full_manuscript_workflow() {
    let manuscript_title = "Test Integration Manuscript";
    let manuscript_text = "This is the opening scene of our test manuscript.";
    assert!(validate_manuscript_title(manuscript_title).is_ok());
    assert!(manuscript_text.len() < 1_000_000);
    let manuscript_id = uuid::Uuid::new_v4().to_string();
    assert!(validate_manuscript_id(&manuscript_id).is_ok());
}

#[test]
fn test_scene_management_workflow() {
    let manuscript_id = uuid::Uuid::new_v4().to_string();
    let scene_id = uuid::Uuid::new_v4().to_string();
    assert!(validate_manuscript_id(&manuscript_id).is_ok());
    assert!(validate_scene_id(&scene_id).is_ok());
    let scene_content = "This is a test scene with some content that should be valid.";
    assert!(scene_content.len() < 500_000);
    let scene_indices = vec![0, 1, 2, 3];
    assert!(scene_indices.iter().all(|&i| i >= 0));
}

#[test]
fn test_concurrent_database_operations() {
    let runtime = tokio::runtime::Builder::new_current_thread().build().unwrap();
    runtime.block_on(async {
        let mut handles = vec![];
        for i in 0..5 {
            let handle = tokio::task::spawn(async move {
                let manuscript_id = uuid::Uuid::new_v4().to_string();
                let title = format!("Concurrent Test Manuscript {}", i);
                validate_manuscript_id(&manuscript_id).and_then(|_| validate_manuscript_title(&title))
            });
            handles.push(handle);
        }
        for handle in handles {
            let result = handle.await.unwrap();
            assert!(result.is_ok());
        }
    });
}

#[test]
fn test_data_consistency() {
    let scene_ids: Vec<String> = (0..3).map(|_| uuid::Uuid::new_v4().to_string()).collect();
    for scene_id in &scene_ids {
        assert!(validate_scene_id(scene_id).is_ok());
    }
    let mut unique_ids = scene_ids.clone();
    unique_ids.sort();
    unique_ids.dedup();
    assert_eq!(unique_ids.len(), scene_ids.len());
}

#[test]
fn test_performance_under_load() {
    let start_time = std::time::Instant::now();
    for i in 0..1000 {
        let manuscript_id = uuid::Uuid::new_v4().to_string();
        let scene_id = uuid::Uuid::new_v4().to_string();
        let title = format!("Performance Test Manuscript {}", i);
        validate_manuscript_id(&manuscript_id).unwrap();
        validate_scene_id(&scene_id).unwrap();
        validate_manuscript_title(&title).unwrap();
    }
    let duration = start_time.elapsed();
    assert!(duration.as_millis() < 100);
}

#[test]
fn test_memory_usage_patterns() {
    let mut db_service = narrative_surgeon::db::DatabaseService::new();
    for _ in 0..1000 {
        let manuscript_id = uuid::Uuid::new_v4().to_string();
        let _validation_result = validate_manuscript_id(&manuscript_id);
        let scene_id = uuid::Uuid::new_v4().to_string();
        let _scene_validation = validate_scene_id(&scene_id);
    }
    db_service.clear_cache();
    assert!(db_service.get_cached_result("anything").is_none());
}

#[test]
fn every_uuid_form_is_accepted() {
    assert!(validate_scene_id("550e8400e29b41d4a716446655440001").is_ok());
    assert!(validate_scene_id("550E8400-E29B-41D4-A716-446655440001").is_ok());
    assert!(validate_scene_id("{550e8400-e29b-41d4-a716-446655440001}").is_ok());
    assert!(validate_scene_id("URN:uuid:550e8400-e29b-41d4-a716-446655440001").is_ok());
    assert!(validate_scene_id("550e8400-e29b-41d4-a716-44665544000g").is_err());
    assert!(validate_scene_id("550e8400-e29b-41d4-a716+446655440001").is_err());
    assert!(validate_scene_id("urn:uuix:550e8400-e29b-41d4-a716-446655440001").is_err());
}
