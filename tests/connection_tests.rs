use narrative_surgeon::connection::{session_statement, Acquire, ConnectionManager, ConnectionState};
use narrative_surgeon::error::AppError;

#[test]
fn cold_start_has_one_initialiser() {
    let mut m: ConnectionManager<u32> = ConnectionManager::new();
    assert_eq!(m.acquire(), Acquire::Open);
    for _ in 0..10 {
        assert_eq!(m.acquire(), Acquire::Wait);
    }
    m.opened(7);
    assert_eq!(m.acquire(), Acquire::Wait);
    let mut applied = Vec::new();
    while let Some(stmt) = m.next_statement() {
        applied.push(stmt.to_string());
        let done = m.statement_applied(Ok(())).unwrap();
        assert_eq!(done, applied.len() == 4);
    }
    assert_eq!(
        applied,
        vec![
            "PRAGMA journal_mode = WAL",
            "PRAGMA synchronous = NORMAL",
            "PRAGMA cache_size = 10000",
            "PRAGMA foreign_keys = ON",
        ]
    );
    for _ in 0..10 {
        assert_eq!(m.acquire(), Acquire::Ready);
        assert_eq!(m.handle(), Some(&7));
    }
}

#[test]
fn failed_third_statement_leaves_uninitialized() {
    let mut m: ConnectionManager<u32> = ConnectionManager::new();
    assert_eq!(m.acquire(), Acquire::Open);
    m.opened(1);
    assert_eq!(m.statement_applied(Ok(())).unwrap(), false);
    assert_eq!(m.statement_applied(Ok(())).unwrap(), false);
    match m.statement_applied(Err("disk I/O error".to_string())) {
        Err(AppError::Database { message, query, .. }) => {
            assert_eq!(message, "disk I/O error");
            assert_eq!(query.as_deref(), Some(session_statement(2)));
        },
        _ => panic!("expected a database error"),
    }
    assert!(matches!(m.state(), ConnectionState::Uninitialized));
    assert_eq!(m.handle(), None);
    // The next caller starts over.
    assert_eq!(m.acquire(), Acquire::Open);
}

#[test]
fn failed_open_starts_over() {
    let mut m: ConnectionManager<u32> = ConnectionManager::new();
    assert_eq!(m.acquire(), Acquire::Open);
    let e = m.open_failed("unable to open database file");
    assert!(matches!(e, AppError::Database { .. }));
    assert!(e.is_retryable());
    assert!(matches!(m.state(), ConnectionState::Uninitialized));
    assert_eq!(m.next_statement(), None);
    assert_eq!(m.acquire(), Acquire::Open);
}
