use proxy_sessions::manager::{derive_session_id, SessionEventKind, SessionManager};
use proxy_sessions::route::{GlobalConfig, NamedProfile, RouteError};
use proxy_sessions::store::SessionDatabase;
use proxy_sessions::types::UsageData;
use proxy_sessions::usage::{usage_stats_outcome, usage_window, UsageReply};

fn global() -> GlobalConfig {
    GlobalConfig {
        upstream_url: "https://g".to_string(),
        upstream_api_key: "kg".to_string(),
        network_proxy: None,
    }
}

#[test]
fn identity_from_token_or_connection() {
    assert_eq!(derive_session_id("cli", Some("abc"), "n1"), "cli/tok:abc");
    assert_eq!(derive_session_id("cli", Some(""), "n1"), "cli/conn:n1");
    assert_eq!(derive_session_id("cli", None, "n2"), "cli/conn:n2");
    assert_ne!(derive_session_id("cli", None, "n1"), derive_session_id("cli", None, "n2"));
}

#[test]
fn touch_creates_then_touches() {
    let mut m = SessionManager::new(SessionDatabase::new());
    let h1 = m.touch("cli", Some("t"), "n1", "disp-1", 100);
    assert!(h1.created);
    let h2 = m.touch("cli", Some("t"), "n2", "disp-2", 105);
    assert!(!h2.created);
    assert_eq!(h1.session_id, h2.session_id);
    let s = m.database().get_session(&h1.session_id).unwrap();
    assert_eq!(s.request_count, 2);
    assert_eq!(s.display_id, "disp-1");
    assert_eq!(s.last_seen_at, 105);
    let events = m.drain_events();
    assert_eq!(events.len(), 2);
    assert_eq!(events[0].kind, SessionEventKind::Created);
    assert_eq!(events[1].kind, SessionEventKind::Touched);
    assert!(m.drain_events().is_empty());
}

#[test]
fn route_cache_until_config_change() {
    let mut m = SessionManager::new(SessionDatabase::new());
    let h = m.touch("cli", None, "n", "d", 1);
    let profiles = vec![NamedProfile {
        name: "p".to_string(),
        url: "https://p".to_string(),
        api_key: "kp".to_string(),
    }];
    let r1 = m.resolve_route(&h.session_id, &profiles, &global()).unwrap();
    assert_eq!(r1.url, "https://g");
    // A changed global default does not reach a cached route.
    let other = GlobalConfig { upstream_url: "https://g2".to_string(), ..global() };
    assert_eq!(m.resolve_route(&h.session_id, &profiles, &other).unwrap().url, "https://g");
    m.on_config_changed(&h.session_id, "p", Some("p"), "", "", 2);
    let r2 = m.resolve_route(&h.session_id, &profiles, &other).unwrap();
    assert_eq!(r2.url, "https://p");
    assert_eq!(r2.api_key, "kp");
}

#[test]
fn unknown_session_has_no_route() {
    let mut m = SessionManager::new(SessionDatabase::new());
    assert!(matches!(m.resolve_route("nope", &Vec::new(), &global()), Err(RouteError::UnknownSession)));
}

#[test]
fn delete_clear_and_retention_events() {
    let mut m = SessionManager::new(SessionDatabase::new());
    let a = m.touch("cli", Some("a"), "n", "d", 1);
    m.touch("cli", Some("b"), "n", "d", 2);
    m.touch("other", Some("c"), "n", "d", 3);
    m.drain_events();
    m.on_note_changed(&a.session_id, Some("hi"), 4);
    m.on_deleted(&a.session_id);
    assert!(m.database().get_session(&a.session_id).is_none());
    m.on_cleared("other");
    assert_eq!(m.database().len(), 1);
    assert_eq!(m.run_retention("cli", 0, 30, 10), 1);
    assert_eq!(m.run_retention("cli", 0, 30, 10), 0);
    let kinds: Vec<SessionEventKind> = m.drain_events().iter().map(|e| e.kind).collect();
    assert_eq!(
        kinds,
        vec![
            SessionEventKind::Updated,
            SessionEventKind::Deleted,
            SessionEventKind::Deleted,
            SessionEventKind::Deleted
        ]
    );
}

#[test]
fn usage_window_ends_at_report_midnight() {
    // 2024-01-01 00:00:00 UTC is 08:00 in UTC+8; that day ends at 16:00 UTC.
    let (start, end) = usage_window(1_704_067_200);
    assert_eq!(end, 1_704_067_200 + 16 * 3600);
    assert_eq!(start, end - 30 * 86_400);
    let (_, end0) = usage_window(0);
    assert_eq!(end0, 57_600);
}

fn reply(success: bool) -> UsageReply {
    UsageReply {
        success,
        message: "bad token".to_string(),
        data: Some(vec![UsageData {
            id: 1,
            user_id: 2,
            username: "u".to_string(),
            model_name: "m".to_string(),
            created_at: 3,
            token_used: 4,
            count: 5,
            quota: 6,
        }]),
    }
}

#[test]
fn usage_outcomes() {
    let ok = usage_stats_outcome(true, "200 OK", "", "application/json; charset=utf-8", reply(true));
    assert!(ok.success);
    assert_eq!(ok.message, "获取成功");
    assert_eq!(ok.data.len(), 1);
    assert_eq!(ok.data[0].quota, 6);

    let http = usage_stats_outcome(false, "404 Not Found", "gone", "text/html", reply(true));
    assert!(!http.success);
    assert_eq!(http.message, "获取用量统计失败 (404 Not Found): gone");
    assert!(http.data.is_empty());

    let html = usage_stats_outcome(true, "200 OK", "", "text/html", reply(true));
    assert_eq!(html.message, "服务器返回了非JSON格式的响应 (Content-Type: text/html)");

    let api = usage_stats_outcome(true, "200 OK", "", "application/json", reply(false));
    assert_eq!(api.message, "API返回错误: bad token");
    assert!(api.data.is_empty());

    let empty = usage_stats_outcome(
        true,
        "200 OK",
        "",
        "application/json",
        UsageReply { success: true, message: String::new(), data: None },
    );
    assert!(empty.success);
    assert!(empty.data.is_empty());
}
