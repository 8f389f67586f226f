use proxy_sessions::session::ProxySession;
use proxy_sessions::store::SessionDatabase;

fn ids(sessions: &[ProxySession]) -> Vec<String> {
    sessions.iter().map(|s| s.session_id.clone()).collect()
}

#[test]
fn test_database_creation() {
    let mut db = SessionDatabase::new();

    let timestamp = chrono::Utc::now().timestamp();
    db.upsert_session("test_session_1", "uuid-1", "coding-cli", timestamp);

    let result = db.get_sessions("coding-cli", 1, 10);
    assert_eq!(result.sessions.len(), 1);
    assert_eq!(result.total, 1);
}

#[test]
fn test_upsert_increments_count() {
    let mut db = SessionDatabase::new();

    let timestamp = chrono::Utc::now().timestamp();
    db.upsert_session("test_session_1", "uuid-1", "coding-cli", timestamp);
    db.upsert_session("test_session_1", "uuid-1", "coding-cli", timestamp + 10);

    let session = db.get_session("test_session_1").unwrap();
    assert_eq!(session.request_count, 2);
}

#[test]
fn insert_touch_delete_scenario() {
    let mut db = SessionDatabase::new();
    db.upsert_session("s1", "d1", "coding-cli", 1000);
    let page = db.get_sessions("coding-cli", 1, 10);
    assert_eq!(page.sessions.len(), 1);
    assert_eq!(page.total, 1);
    assert_eq!(page.sessions[0].request_count, 1);

    db.upsert_session("s1", "d1", "coding-cli", 1010);
    let s = db.get_session("s1").unwrap();
    assert_eq!(s.request_count, 2);
    assert_eq!(s.last_seen_at, 1010);
    assert_eq!(s.first_seen_at, 1000);
    assert_eq!(s.created_at, 1000);
    assert_eq!(s.updated_at, 1010);

    db.delete_session("s1");
    assert!(db.get_session("s1").is_none());
}

#[test]
fn new_record_defaults() {
    let mut db = SessionDatabase::new();
    db.upsert_session("s1", "d1", "codex", 42);
    let s = db.get_session("s1").unwrap();
    assert_eq!(s.display_id, "d1");
    assert_eq!(s.tool_id, "codex");
    assert_eq!(s.config_name, "global");
    assert_eq!(s.custom_profile_name, None);
    assert_eq!(s.url, "");
    assert_eq!(s.api_key, "");
    assert_eq!(s.note, None);
    assert_eq!(s.first_seen_at, 42);
    assert_eq!(s.last_seen_at, 42);
    assert_eq!(s.request_count, 1);
}

#[test]
fn repeated_requests_count_and_last_time() {
    let mut db = SessionDatabase::new();
    let times = [5i64, 9, 3, 20, 21];
    for t in times {
        db.upsert_session("s", "d", "tool", t);
    }
    let s = db.get_session("s").unwrap();
    assert_eq!(s.request_count, 5);
    assert_eq!(s.last_seen_at, 21);
}

#[test]
fn many_upserts_leave_one_record() {
    let mut db = SessionDatabase::new();
    db.upsert_session("other", "o", "tool", 1);
    for t in 0..50 {
        db.upsert_session("s", "d", "tool", 100 + t);
    }
    assert_eq!(db.len(), 2);
    let all = db.all_rows();
    assert_eq!(all.iter().filter(|r| r.session_id == "s").count(), 1);
    assert_eq!(db.get_session("s").unwrap().request_count, 50);
}

#[test]
fn upsert_keeps_first_tool() {
    let mut db = SessionDatabase::new();
    db.upsert_session("s", "d", "tool-a", 1);
    db.upsert_session("s", "other", "tool-b", 2);
    let s = db.get_session("s").unwrap();
    assert_eq!(s.tool_id, "tool-a");
    assert_eq!(s.display_id, "d");
    assert_eq!(db.get_sessions("tool-b", 1, 10).total, 0);
}

#[test]
fn listing_is_most_recent_first() {
    let mut db = SessionDatabase::new();
    db.upsert_session("a", "a", "t", 10);
    db.upsert_session("b", "b", "t", 30);
    db.upsert_session("c", "c", "other", 50);
    db.upsert_session("d", "d", "t", 20);
    db.upsert_session("e", "e", "t", 30);
    let page = db.get_sessions("t", 1, 10);
    assert_eq!(page.total, 4);
    assert_eq!(ids(&page.sessions), vec!["b", "e", "d", "a"]);
}

#[test]
fn pages_are_disjoint_and_exhaustive() {
    let mut db = SessionDatabase::new();
    for i in 0..7i64 {
        db.upsert_session(&format!("s{i}"), "d", "t", 100 - i);
    }
    let first = db.get_sessions("t", 1, 3);
    let second = db.get_sessions("t", 2, 3);
    let third = db.get_sessions("t", 3, 3);
    let fourth = db.get_sessions("t", 4, 3);
    assert_eq!(ids(&first.sessions), vec!["s0", "s1", "s2"]);
    assert_eq!(ids(&second.sessions), vec!["s3", "s4", "s5"]);
    assert_eq!(ids(&third.sessions), vec!["s6"]);
    assert!(fourth.sessions.is_empty());
    assert_eq!(first.total, 7);
    assert_eq!(fourth.total, 7);
    assert_eq!(second.page, 2);
    assert_eq!(second.page_size, 3);
}

#[test]
fn page_zero_reads_as_page_one() {
    let mut db = SessionDatabase::new();
    db.upsert_session("a", "a", "t", 1);
    db.upsert_session("b", "b", "t", 2);
    let p0 = db.get_sessions("t", 0, 1);
    assert_eq!(ids(&p0.sessions), vec!["b"]);
    assert_eq!(p0.page, 0);
}

#[test]
fn huge_page_number_is_empty() {
    let mut db = SessionDatabase::new();
    db.upsert_session("a", "a", "t", 1);
    let p = db.get_sessions("t", usize::MAX, usize::MAX);
    assert!(p.sessions.is_empty());
    assert_eq!(p.total, 1);
    let zero = db.get_sessions("t", 1, 0);
    assert!(zero.sessions.is_empty());
    assert_eq!(zero.total, 1);
}

#[test]
fn empty_table_lists_nothing() {
    let db = SessionDatabase::new();
    let p = db.get_sessions("t", 1, 10);
    assert!(p.sessions.is_empty());
    assert_eq!(p.total, 0);
    assert!(db.get_session("x").is_none());
    assert!(db.get_session_config("x").is_none());
}

#[test]
fn clear_removes_one_tool_only() {
    let mut db = SessionDatabase::new();
    db.upsert_session("a", "a", "t1", 1);
    db.upsert_session("b", "b", "t2", 2);
    db.upsert_session("c", "c", "t1", 3);
    db.clear_sessions("t1");
    assert_eq!(db.len(), 1);
    assert!(db.get_session("b").is_some());
    assert_eq!(db.get_sessions("t1", 1, 10).total, 0);
}

#[test]
fn delete_unknown_session_changes_nothing() {
    let mut db = SessionDatabase::new();
    db.upsert_session("a", "a", "t", 1);
    db.delete_session("zzz");
    assert_eq!(db.len(), 1);
}

#[test]
fn config_update_and_projection() {
    let mut db = SessionDatabase::new();
    db.upsert_session("s", "d", "t", 1);
    db.update_session_config_at("s", "work", Some("team"), "https://up.example", "k-1", 77);
    let s = db.get_session("s").unwrap();
    assert_eq!(s.config_name, "work");
    assert_eq!(s.custom_profile_name.as_deref(), Some("team"));
    assert_eq!(s.url, "https://up.example");
    assert_eq!(s.api_key, "k-1");
    assert_eq!(s.updated_at, 77);
    assert_eq!(s.request_count, 1);
    let (name, url, key) = db.get_session_config("s").unwrap();
    assert_eq!(name, "work");
    assert_eq!(url, "https://up.example");
    assert_eq!(key, "k-1");
}

#[test]
fn note_update() {
    let mut db = SessionDatabase::new();
    db.upsert_session("s", "d", "t", 1);
    db.update_session_note_at("s", Some("hello"), 5);
    assert_eq!(db.get_session("s").unwrap().note.as_deref(), Some("hello"));
    assert_eq!(db.get_session("s").unwrap().updated_at, 5);
    db.update_session_note("s", None);
    assert_eq!(db.get_session("s").unwrap().note, None);
    db.update_session_note_at("missing", Some("x"), 9);
    assert!(db.get_session("missing").is_none());
}

#[test]
fn clock_stamped_updates_use_current_time() {
    let mut db = SessionDatabase::new();
    db.upsert_session("s", "d", "t", 1);
    let before = chrono::Utc::now().timestamp();
    db.update_session_config("s", "global", None, "", "");
    let s = db.get_session("s").unwrap();
    assert!(s.updated_at >= before);
}

#[test]
fn count_sweep_removes_oldest_excess() {
    let mut db = SessionDatabase::new();
    let now = 10_000_000i64;
    for i in 0..1050i64 {
        db.upsert_session(&format!("s{i}"), "d", "tool", now - 80_000 + i);
    }
    let removed = db.cleanup_old_sessions_at("tool", 1000, 30, now);
    assert_eq!(removed, 50);
    assert_eq!(db.len(), 1000);
    for i in 0..50i64 {
        assert!(db.get_session(&format!("s{i}")).is_none());
    }
    for i in 50..1050i64 {
        assert!(db.get_session(&format!("s{i}")).is_some());
    }
}

#[test]
fn age_sweep_removes_stale_only() {
    let mut db = SessionDatabase::new();
    let now = 100 * 86_400i64;
    db.upsert_session("old", "d", "t", now - 31 * 86_400);
    db.upsert_session("edge", "d", "t", now - 30 * 86_400);
    db.upsert_session("new", "d", "t", now - 10);
    db.upsert_session("other", "d", "u", 0);
    let removed = db.cleanup_old_sessions_at("t", 1000, 30, now);
    assert_eq!(removed, 1);
    assert!(db.get_session("old").is_none());
    assert!(db.get_session("edge").is_some());
    assert!(db.get_session("new").is_some());
    assert!(db.get_session("other").is_some());
}

#[test]
fn both_sweep_phases_add_up() {
    let mut db = SessionDatabase::new();
    let now = 1_000_000i64;
    db.upsert_session("stale1", "d", "t", 0);
    db.upsert_session("stale2", "d", "t", 1);
    db.upsert_session("a", "d", "t", now - 3);
    db.upsert_session("b", "d", "t", now - 2);
    db.upsert_session("c", "d", "t", now - 1);
    let removed = db.cleanup_old_sessions_at("t", 2, 1, now);
    assert_eq!(removed, 3);
    assert_eq!(ids(&db.get_sessions("t", 1, 10).sessions), vec!["c", "b"]);
}

#[test]
fn sweep_with_current_clock() {
    let mut db = SessionDatabase::new();
    let now = chrono::Utc::now().timestamp();
    db.upsert_session("fresh", "d", "t", now);
    db.upsert_session("ancient", "d", "t", now - 400 * 86_400);
    let removed = db.cleanup_old_sessions("t", 1000, 30);
    assert_eq!(removed, 1);
    assert!(db.get_session("fresh").is_some());
}

#[test]
fn rows_round_trip() {
    let mut db = SessionDatabase::new();
    db.upsert_session("a", "a", "t", 1);
    db.upsert_session("b", "b", "t", 2);
    let copy = SessionDatabase::from_rows(db.all_rows());
    assert_eq!(copy.len(), 2);
    assert_eq!(copy.get_session("b").unwrap().last_seen_at, 2);
}
