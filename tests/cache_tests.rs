use narrative_surgeon::commands::update_scene_statements;
use narrative_surgeon::cache::QueryCache;
use narrative_surgeon::db::{is_read_only, DatabaseService};
use narrative_surgeon::error::AppError;
use narrative_surgeon::key::cache_key;

fn params(ps: &[&str]) -> Vec<String> {
    ps.iter().map(|p| p.to_string()).collect()
}

#[test]
fn put_then_get_within_ttl() {
    let mut c = QueryCache::new();
    c.put(b"k", "value", 1000);
    assert_eq!(c.get(b"k", 1000), Some("value".to_string()));
    assert_eq!(c.get(b"k", 1299), Some("value".to_string()));
    assert_eq!(c.get(b"k", 1300), None);
    assert_eq!(c.get(b"other", 1000), None);
}

#[test]
fn put_overwrites() {
    let mut c = QueryCache::new();
    c.put(b"k", "old", 0);
    c.put(b"k", "new", 10);
    assert_eq!(c.len(), 1);
    assert_eq!(c.get(b"k", 305), Some("new".to_string()));
}

#[test]
fn sweep_above_capacity_drops_only_expired() {
    let mut c = QueryCache::new();
    for i in 0..5 {
        c.put(format!("old{}", i).as_bytes(), "stale", 0);
    }
    for i in 0..996 {
        c.put(format!("new{}", i).as_bytes(), "fresh", 200);
    }
    // Everything was fresh when the 1001st entry came in, so nothing left.
    assert_eq!(c.len(), 1001);
    c.put(b"latest", "x", 400);
    assert_eq!(c.len(), 997);
    for i in 0..5 {
        assert_eq!(c.get(format!("old{}", i).as_bytes(), 0), None);
    }
    assert_eq!(c.get(b"new0", 400), Some("fresh".to_string()));
    assert_eq!(c.get(b"new995", 400), Some("fresh".to_string()));
    assert_eq!(c.get(b"latest", 400), Some("x".to_string()));
}

#[test]
fn no_sweep_at_capacity() {
    let mut c = QueryCache::new();
    for i in 0..1000 {
        c.put(format!("k{}", i).as_bytes(), "v", 0);
    }
    assert_eq!(c.len(), 1000);
    c.put(b"k0", "w", 1000);
    assert_eq!(c.len(), 1000);
}

#[test]
fn invalidate_by_pattern() {
    let mut c = QueryCache::new();
    c.put(b"SELECT * FROM scenes", "a", 0);
    c.put(b"SELECT * FROM manuscripts", "b", 0);
    c.invalidate(b"scenes");
    assert_eq!(c.len(), 1);
    assert_eq!(c.get(b"SELECT * FROM scenes", 0), None);
    assert_eq!(c.get(b"SELECT * FROM manuscripts", 0), Some("b".to_string()));
    c.invalidate(b"");
    assert_eq!(c.len(), 0);
}

#[test]
fn clear_empties() {
    let mut c = QueryCache::new();
    c.put(b"a", "1", 0);
    c.clear();
    assert_eq!(c.len(), 0);
    assert_eq!(c.get(b"a", 0), None);
}

#[test]
fn keys_separate_statement_and_parameters() {
    let a = cache_key("SELECT ?", &params(&["a|b"]));
    let b = cache_key("SELECT ?", &params(&["a", "b"]));
    let c = cache_key("SELECT ?|a", &params(&["b"]));
    assert_ne!(a, b);
    assert_ne!(a, c);
    assert_ne!(b, c);
    assert_eq!(cache_key("SELECT ?", &params(&["x", "y"])), cache_key("SELECT ?", &params(&["x", "y"])));
    assert_ne!(cache_key("SELECT ?", &params(&["x", "y"])), cache_key("SELECT ?", &params(&["y", "x"])));
    assert_eq!(cache_key("S", &params(&["a|\\"])), b"S|a\\|\\\\|".to_vec());
}

#[test]
fn read_statements_are_recognised() {
    assert!(is_read_only("SELECT * FROM manuscripts"));
    assert!(is_read_only("  select id from scenes"));
    assert!(is_read_only("\n\tSeLeCt 1"));
    assert!(!is_read_only("INSERT INTO scenes VALUES (?)"));
    assert!(!is_read_only("UPDATE scenes SET title = ?"));
    assert!(!is_read_only("DELETE FROM scenes"));
    assert!(!is_read_only("PRAGMA foreign_keys = ON"));
    assert!(!is_read_only("SELEC"));
    assert!(!is_read_only(""));
}

#[test]
fn repeated_read_is_served_from_cache() {
    let mut service = DatabaseService::new();
    let sql = "SELECT * FROM manuscripts";
    let none: Vec<String> = Vec::new();
    assert_eq!(service.lookup_query(sql, &none, 100), None);
    let rows = "[{\"id\":\"1\"}]".to_string();
    let first = service.record_outcome(sql, &none, Ok(rows.clone()), 100).unwrap();
    assert_eq!(first, rows);
    assert_eq!(service.lookup_query(sql, &none, 101), Some(rows.clone()));
    assert_eq!(service.lookup_query(sql, &none, 399), Some(rows));
}

#[test]
fn expired_read_goes_to_the_store() {
    let mut service = DatabaseService::new();
    let sql = "SELECT * FROM scenes WHERE id = ?";
    let p = params(&["s1"]);
    service.record_outcome(sql, &p, Ok("[]".to_string()), 0).unwrap();
    assert_eq!(service.lookup_query(sql, &p, 299), Some("[]".to_string()));
    assert_eq!(service.lookup_query(sql, &p, 300), None);
    assert_eq!(service.lookup_query(sql, &params(&["s2"]), 1), None);
}

#[test]
fn writes_bypass_the_cache() {
    let mut service = DatabaseService::new();
    let sql = "UPDATE scenes SET title = ? WHERE id = ?";
    let p = params(&["t", "1"]);
    let key = String::from_utf8(cache_key(sql, &p)).unwrap();
    service.cache_result_at(&key, "planted", 0);
    assert_eq!(service.lookup_query(sql, &p, 1), None);
    let out = service.record_outcome(sql, &p, Ok("done".to_string()), 1).unwrap();
    assert_eq!(out, "done");
    assert_eq!(service.get_cached_result_at(&key, 1), Some("planted".to_string()));
    let insert = "INSERT INTO scenes (id) VALUES (?)";
    service.record_outcome(insert, &params(&["9"]), Ok("ok".to_string()), 2).unwrap();
    let insert_key = String::from_utf8(cache_key(insert, &params(&["9"]))).unwrap();
    assert_eq!(service.get_cached_result_at(&insert_key, 2), None);
}

#[test]
fn store_failure_becomes_database_error() {
    let mut service = DatabaseService::new();
    let sql = "SELECT * FROM scenes";
    let none: Vec<String> = Vec::new();
    match service.record_outcome(sql, &none, Err("database is locked".to_string()), 0) {
        Err(AppError::Database { message, query, .. }) => {
            assert_eq!(message, "database is locked");
            assert_eq!(query.as_deref(), Some(sql));
        },
        _ => panic!("expected a database error"),
    }
    assert_eq!(service.lookup_query(sql, &none, 0), None);
}

#[test]
fn test_database_service_creation() {
    let service = DatabaseService::new();
    assert_eq!(service.get_database_url(), "sqlite:narrative_surgeon.db");
    assert_eq!(service.get_cached_result("anything"), None);
}

#[test]
fn service_cache_by_key() {
    let mut service = DatabaseService::new();
    service.cache_result_at("manuscripts:all", "[1]", 50);
    assert_eq!(service.get_cached_result_at("manuscripts:all", 60), Some("[1]".to_string()));
    service.cache_result("scenes:all", "[2]");
    assert_eq!(service.get_cached_result("scenes:all"), Some("[2]".to_string()));
    service.invalidate_cache("manuscripts");
    assert_eq!(service.get_cached_result_at("manuscripts:all", 60), None);
    service.clear_cache();
    assert_eq!(service.get_cached_result("scenes:all"), None);
}

fn scene_update_leaves_cache(title: Option<&str>, raw_text: Option<&str>, expected: usize) {
    let scene = "550e8400-e29b-41d4-a716-446655440001";
    let mut service = DatabaseService::new();
    let read = "SELECT * FROM scenes WHERE id = ?";
    let p = params(&[scene]);
    service.record_outcome(read, &p, Ok("[\"old\"]".to_string()), 0).unwrap();
    let statements = update_scene_statements(scene, title, raw_text, 5).unwrap();
    assert_eq!(statements.len(), expected);
    for s in &statements {
        assert_eq!(service.lookup_query(&s.sql, &s.params, 5), None);
        let out = service.record_outcome(&s.sql, &s.params, Ok("done".to_string()), 5).unwrap();
        assert_eq!(out, "done");
        let key = String::from_utf8(cache_key(&s.sql, &s.params)).unwrap();
        assert_eq!(service.get_cached_result_at(&key, 5), None);
    }
    assert_eq!(service.lookup_query(read, &p, 5), Some("[\"old\"]".to_string()));
}

#[test]
fn scene_text_update_bypasses_cache() {
    scene_update_leaves_cache(None, Some("new text"), 1);
}

#[test]
fn scene_title_update_bypasses_cache() {
    scene_update_leaves_cache(Some("New title"), None, 1);
}

#[test]
fn scene_full_update_bypasses_cache() {
    scene_update_leaves_cache(Some("New title"), Some("new text"), 2);
}
