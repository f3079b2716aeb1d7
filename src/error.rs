//! The error taxonomy: kinds, retry classification, messages for users,
//! severities, and the error log's entries.

use vstd::prelude::*;
use vstd::string::*;
use crate::clock::now_millis;

verus! {

/// A failure, tagged by kind. Every kind carries a human message (or the name
/// of the missing resource), context fields of its own and the time it was
/// created, in milliseconds since the Unix epoch.
#[derive(Debug, Clone)]
pub enum AppError {
    Database { message: String, code: Option<String>, query: Option<String>, timestamp: i64 },
    FileSystem { message: String, path: Option<String>, operation: String, timestamp: i64 },
    Network { message: String, url: Option<String>, status_code: Option<u16>, timestamp: i64 },
    Validation { message: String, field: Option<String>, value: Option<String>, timestamp: i64 },
    Export { message: String, format: String, path: Option<String>, timestamp: i64 },
    Window { message: String, window_label: Option<String>, timestamp: i64 },
    Permission { message: String, required_permission: String, timestamp: i64 },
    Configuration { message: String, setting: Option<String>, timestamp: i64 },
    NotFound { resource: String, id: Option<String>, timestamp: i64 },
    Conflict { message: String, resource: String, existing_id: Option<String>, timestamp: i64 },
    RateLimit { message: String, retry_after: Option<u64>, timestamp: i64 },
    Timeout { message: String, timeout_ms: u64, operation: String, timestamp: i64 },
    Internal { message: String, error_code: Option<String>, timestamp: i64 },
}

/// How much attention a failure calls for.
#[derive(Debug, Clone, Copy, PartialEq, Eq, Structural)]
pub enum ErrorSeverity {
    Low,
    Medium,
    High,
    Critical,
}

/// The text to hand to the user for an error: fixed per kind, naming only the
/// operation, field, format, resource or permission that the error carries.
pub open spec fn user_message_text(e: AppError) -> Seq<char> {
    match e {
        AppError::Database { .. } => "There was a problem accessing the database. Please try again."@,
        AppError::FileSystem { operation, .. } => "Unable to "@ + operation@
            + " the file. Please check file permissions and try again."@,
        AppError::Network { .. } => "Network connection problem. Please check your internet connection."@,
        AppError::Validation { field, .. } => match field {
            Some(f) => "Please check the "@ + f@ + " field and try again."@,
            None => "Please check your input and try again."@,
        },
        AppError::Export { format, .. } => "Unable to export as "@ + format@
            + ". Please try a different format."@,
        AppError::NotFound { resource, .. } => "The "@ + resource@ + " could not be found."@,
        AppError::Permission { required_permission, .. } => "Permission required: "@
            + required_permission@ + ". Please check your access rights."@,
        AppError::Timeout { operation, .. } => "The "@ + operation@
            + " operation timed out. Please try again."@,
        AppError::RateLimit { .. } => "Too many requests. Please wait a moment and try again."@,
        _ => "An unexpected error occurred. Please try again."@,
    }
}

impl AppError {
    /// Whether the failure is likely transient: connectivity and server-side
    /// network failures, database failures, timeouts and rate limits.
    pub open spec fn retryable(self) -> bool {
        match self {
            AppError::Network { status_code, .. } => match status_code {
                Some(code) => code >= 500 || code == 429,
                None => true,
            },
            AppError::Database { .. } => true,
            AppError::Timeout { .. } => true,
            AppError::RateLimit { .. } => true,
            _ => false,
        }
    }

    /// The pause, in milliseconds, that the kind itself suggests before a retry.
    pub open spec fn delay_hint(self) -> Option<u64> {
        match self {
            AppError::RateLimit { retry_after, .. } => match retry_after {
                Some(ms) => Some(ms),
                None => Some(1000),
            },
            AppError::Network { .. } => Some(1000),
            AppError::Database { .. } => Some(500),
            AppError::Timeout { .. } => Some(2000),
            _ => None,
        }
    }

    pub open spec fn severity_level(self) -> ErrorSeverity {
        match self {
            AppError::Internal { .. } => ErrorSeverity::Critical,
            AppError::Database { .. } => ErrorSeverity::High,
            AppError::FileSystem { .. } => ErrorSeverity::High,
            AppError::Permission { .. } => ErrorSeverity::High,
            AppError::Network { .. } => ErrorSeverity::Medium,
            AppError::Validation { .. } => ErrorSeverity::Low,
            AppError::NotFound { .. } => ErrorSeverity::Low,
            AppError::RateLimit { .. } => ErrorSeverity::Low,
            _ => ErrorSeverity::Medium,
        }
    }

    /// A database failure with no code and no query text.
    pub fn database(message: &str) -> (e: AppError)
        ensures
            e matches AppError::Database { message: m, code, query, .. }
                && m@ == message@ && code is None && query is None,
    {
        AppError::Database {
            message: String::from_str(message),
            code: None,
            query: None,
            timestamp: now_millis(),
        }
    }

    /// A database failure that records the statement that failed.
    pub fn database_with_query(message: &str, query: &str) -> (e: AppError)
        ensures
            e matches AppError::Database { message: m, code, query: q, .. }
                && m@ == message@ && code is None && q is Some && q->0@ == query@,
    {
        AppError::Database {
            message: String::from_str(message),
            code: None,
            query: Some(String::from_str(query)),
            timestamp: now_millis(),
        }
    }

    pub fn file_system(message: &str, operation: &str) -> (e: AppError)
        ensures
            e matches AppError::FileSystem { message: m, path, operation: o, .. }
                && m@ == message@ && path is None && o@ == operation@,
    {
        AppError::FileSystem {
            message: String::from_str(message),
            path: None,
            operation: String::from_str(operation),
            timestamp: now_millis(),
        }
    }

    pub fn file_system_with_path(message: &str, operation: &str, path: &str) -> (e: AppError)
        ensures
            e matches AppError::FileSystem { message: m, path: p, operation: o, .. }
                && m@ == message@ && o@ == operation@ && p is Some && p->0@ == path@,
    {
        AppError::FileSystem {
            message: String::from_str(message),
            path: Some(String::from_str(path)),
            operation: String::from_str(operation),
            timestamp: now_millis(),
        }
    }

    /// A connectivity failure: no URL and no status code.
    pub fn network(message: &str) -> (e: AppError)
        ensures
            e matches AppError::Network { message: m, url, status_code, .. }
                && m@ == message@ && url is None && status_code is None,
    {
        AppError::Network {
            message: String::from_str(message),
            url: None,
            status_code: None,
            timestamp: now_millis(),
        }
    }

    pub fn network_with_status(message: &str, status_code: u16) -> (e: AppError)
        ensures
            e matches AppError::Network { message: m, url, status_code: c, .. }
                && m@ == message@ && url is None && c == Some(status_code),
    {
        AppError::Network {
            message: String::from_str(message),
            url: None,
            status_code: Some(status_code),
            timestamp: now_millis(),
        }
    }

    pub fn validation(message: &str) -> (e: AppError)
        ensures
            e matches AppError::Validation { message: m, field, value, .. }
                && m@ == message@ && field is None && value is None,
    {
        AppError::Validation {
            message: String::from_str(message),
            field: None,
            value: None,
            timestamp: now_millis(),
        }
    }

    /// A validation failure that names the offending field and its value.
    pub fn validation_field(message: &str, field: &str, value: &str) -> (e: AppError)
        ensures
            e matches AppError::Validation { message: m, field: f, value: v, .. }
                && m@ == message@ && f is Some && f->0@ == field@
                && v is Some && v->0@ == value@,
    {
        AppError::Validation {
            message: String::from_str(message),
            field: Some(String::from_str(field)),
            value: Some(String::from_str(value)),
            timestamp: now_millis(),
        }
    }

    pub fn export(message: &str, format: &str) -> (e: AppError)
        ensures
            e matches AppError::Export { message: m, format: f, path, .. }
                && m@ == message@ && f@ == format@ && path is None,
    {
        AppError::Export {
            message: String::from_str(message),
            format: String::from_str(format),
            path: None,
            timestamp: now_millis(),
        }
    }

    pub fn not_found(resource: &str) -> (e: AppError)
        ensures
            e matches AppError::NotFound { resource: r, id, .. } && r@ == resource@ && id is None,
    {
        AppError::NotFound { resource: String::from_str(resource), id: None, timestamp: now_millis() }
    }

    pub fn not_found_with_id(resource: &str, id: &str) -> (e: AppError)
        ensures
            e matches AppError::NotFound { resource: r, id: i, .. }
                && r@ == resource@ && i is Some && i->0@ == id@,
    {
        AppError::NotFound {
            resource: String::from_str(resource),
            id: Some(String::from_str(id)),
            timestamp: now_millis(),
        }
    }

    pub fn internal(message: &str) -> (e: AppError)
        ensures
            e matches AppError::Internal { message: m, error_code, .. }
                && m@ == message@ && error_code is None,
    {
        AppError::Internal {
            message: String::from_str(message),
            error_code: None,
            timestamp: now_millis(),
        }
    }

    pub fn timeout(message: &str, timeout_ms: u64, operation: &str) -> (e: AppError)
        ensures
            e matches AppError::Timeout { message: m, timeout_ms: t, operation: o, .. }
                && m@ == message@ && t == timeout_ms && o@ == operation@,
    {
        AppError::Timeout {
            message: String::from_str(message),
            timeout_ms,
            operation: String::from_str(operation),
            timestamp: now_millis(),
        }
    }

    /// Whether retrying the failed operation may succeed.
    pub fn is_retryable(&self) -> (r: bool)
        ensures
            r == self.retryable(),
    {
        match self {
            AppError::Network { status_code, .. } => match status_code {
                Some(code) => *code >= 500 || *code == 429,
                None => true,
            },
            AppError::Database { .. } => true,
            AppError::FileSystem { .. } => false,
            AppError::Timeout { .. } => true,
            AppError::RateLimit { .. } => true,
            AppError::Internal { .. } => false,
            _ => false,
        }
    }

    /// The suggested pause before a retry, in milliseconds, where the kind has one.
    pub fn retry_delay_ms(&self) -> (r: Option<u64>)
        ensures
            r == self.delay_hint(),
    {
        match self {
            AppError::RateLimit { retry_after, .. } => match retry_after {
                Some(ms) => Some(*ms),
                None => Some(1000),
            },
            AppError::Network { .. } => Some(1000),
            AppError::Database { .. } => Some(500),
            AppError::Timeout { .. } => Some(2000),
            _ => None,
        }
    }

    /// A message fit for display, free of technical detail.
    pub fn user_message(&self) -> (r: String)
        ensures
            r@ == user_message_text(*self),
    {
        match self {
            AppError::Database { .. } => String::from_str(
                "There was a problem accessing the database. Please try again.",
            ),
            AppError::FileSystem { operation, .. } => {
                let mut s = String::from_str("Unable to ");
                s.append(operation.as_str());
                s.append(" the file. Please check file permissions and try again.");
                s
            },
            AppError::Network { .. } => String::from_str(
                "Network connection problem. Please check your internet connection.",
            ),
            AppError::Validation { field, .. } => match field {
                Some(f) => {
                    let mut s = String::from_str("Please check the ");
                    s.append(f.as_str());
                    s.append(" field and try again.");
                    s
                },
                None => String::from_str("Please check your input and try again."),
            },
            AppError::Export { format, .. } => {
                let mut s = String::from_str("Unable to export as ");
                s.append(format.as_str());
                s.append(". Please try a different format.");
                s
            },
            AppError::NotFound { resource, .. } => {
                let mut s = String::from_str("The ");
                s.append(resource.as_str());
                s.append(" could not be found.");
                s
            },
            AppError::Permission { required_permission, .. } => {
                let mut s = String::from_str("Permission required: ");
                s.append(required_permission.as_str());
                s.append(". Please check your access rights.");
                s
            },
            AppError::Timeout { operation, .. } => {
                let mut s = String::from_str("The ");
                s.append(operation.as_str());
                s.append(" operation timed out. Please try again.");
                s
            },
            AppError::RateLimit { .. } => String::from_str(
                "Too many requests. Please wait a moment and try again.",
            ),
            _ => String::from_str("An unexpected error occurred. Please try again."),
        }
    }

    pub fn severity(&self) -> (r: ErrorSeverity)
        ensures
            r == self.severity_level(),
    {
        match self {
            AppError::Internal { .. } => ErrorSeverity::Critical,
            AppError::Database { .. } => ErrorSeverity::High,
            AppError::FileSystem { .. } => ErrorSeverity::High,
            AppError::Permission { .. } => ErrorSeverity::High,
            AppError::Network { .. } => ErrorSeverity::Medium,
            AppError::Validation { .. } => ErrorSeverity::Low,
            AppError::NotFound { .. } => ErrorSeverity::Low,
            AppError::RateLimit { .. } => ErrorSeverity::Low,
            _ => ErrorSeverity::Medium,
        }
    }
}

/// One line of the error log: when it was written (milliseconds since the
/// Unix epoch), the error, what was being done, and the error's severity.
#[derive(Debug, Clone)]
pub struct ErrorLogEntry {
    pub timestamp: i64,
    pub error: AppError,
    pub context: Option<String>,
    pub severity: ErrorSeverity,
}

impl ErrorLogEntry {
    /// The entry for `error` logged at `timestamp`; the severity is the error's own.
    pub fn new(error: AppError, context: Option<&str>, timestamp: i64) -> (r: ErrorLogEntry)
        ensures
            r.timestamp == timestamp,
            r.error == error,
            r.severity == error.severity_level(),
            context is None ==> r.context is None,
            context is Some ==> r.context is Some && r.context->0@ == context->0@,
    {
        let severity = error.severity();
        let context = match context {
            Some(c) => Some(String::from_str(c)),
            None => None,
        };
        ErrorLogEntry { timestamp, error, context, severity }
    }
}

/// Where the error log is kept. Writing and reading the file is left to the
/// caller; the log is a file of one JSON entry per line.
#[derive(Debug, Clone)]
pub struct ErrorLogger {
    pub log_path: String,
}

impl ErrorLogger {
    pub fn with_path(log_path: String) -> (r: ErrorLogger)
        ensures
            r.log_path == log_path,
    {
        ErrorLogger { log_path }
    }
}

/// The values of the entries that are present, in order.
pub open spec fn present<T>(s: Seq<Option<T>>) -> Seq<T>
    decreases s.len(),
{
    if s.len() == 0 {
        Seq::empty()
    } else {
        let rest = present(s.drop_last());
        match s.last() {
            Some(v) => rest.push(v),
            None => rest,
        }
    }
}

/// The elements of `v` in reverse order.
fn reversed<T>(v: Vec<T>) -> (r: Vec<T>)
    ensures
        r@ == v@.reverse(),
{
    let ghost s = v@;
    let mut v = v;
    let mut r: Vec<T> = Vec::new();
    while v.len() > 0
        invariant
            v@ == s.take(v@.len() as int),
            v@.len() <= s.len(),
            r@ == s.skip(v@.len() as int).reverse(),
        decreases v@.len(),
    {
        let ghost m = v@.len() as int;
        let x = v.pop().unwrap();
        r.push(x);
        proof {
            assert(v@ =~= s.take(m - 1));
            assert(r@ =~= s.skip(m - 1).reverse());
        }
    }
    assert(s.skip(0) =~= s);
    r
}

/// The log entries to report from a log whose lines, oldest first, read as
/// `lines` (`None` for a line that is not a valid entry): the valid ones among
/// the last `limit` lines, newest first.
pub fn recent_entries<T>(lines: Vec<Option<T>>, limit: usize) -> (r: Vec<T>)
    ensures
        r@ == present(lines@.skip(lines@.len() - (if limit < lines@.len() { limit as int } else { lines@.len() as int }))).reverse(),
{
    let mut lines = lines;
    let n = lines.len();
    let keep = if limit < n { limit } else { n };
    let tail = lines.split_off(n - keep);
    let ghost t = tail@;
    let mut r: Vec<T> = Vec::new();
    for item in it: tail
        invariant
            it.seq() == t,
            r@ == present(t.take(it.index() as int)),
    {
        proof {
            assert(t.take(it.index() + 1).drop_last() =~= t.take(it.index() as int));
        }
        match item {
            Some(v) => r.push(v),
            None => {},
        }
    }
    proof {
        assert(t.take(t.len() as int) =~= t);
    }
    reversed(r)
}

} // verus!
