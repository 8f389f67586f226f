use proxy_sessions::config::{apply_proxy_if_configured, global_config_path};
use proxy_sessions::log_utils::{LogContext, LogLevel, Timer};
use proxy_sessions::route::{
    resolve_route, GlobalConfig, NamedProfile, NetworkProxySettings, RouteError,
};
use proxy_sessions::session::ProxySession;

fn session(profile: Option<&str>, url: &str, key: &str) -> ProxySession {
    let mut s = ProxySession::first_seen("s", "d", "t", 1);
    s.custom_profile_name = profile.map(|p| p.to_string());
    s.url = url.to_string();
    s.api_key = key.to_string();
    s
}

fn global(url: &str, key: &str) -> GlobalConfig {
    GlobalConfig {
        upstream_url: url.to_string(),
        upstream_api_key: key.to_string(),
        network_proxy: None,
    }
}

fn profiles() -> Vec<NamedProfile> {
    vec![
        NamedProfile { name: "a".to_string(), url: "https://a".to_string(), api_key: "ka".to_string() },
        NamedProfile { name: "b".to_string(), url: "https://b".to_string(), api_key: "kb".to_string() },
        NamedProfile { name: "b".to_string(), url: "https://b2".to_string(), api_key: "kb2".to_string() },
    ]
}

#[test]
fn profile_wins_over_everything() {
    let r = resolve_route(&session(Some("b"), "https://own", "kown"), &profiles(), &global("https://g", "kg")).unwrap();
    assert_eq!(r.url, "https://b");
    assert_eq!(r.api_key, "kb");
}

#[test]
fn session_override_wins_over_global() {
    let r = resolve_route(&session(None, "https://own", "kown"), &profiles(), &global("https://g", "kg")).unwrap();
    assert_eq!(r.url, "https://own");
    assert_eq!(r.api_key, "kown");
}

#[test]
fn global_is_the_fallback() {
    let r = resolve_route(&session(None, "", ""), &profiles(), &global("https://g", "kg")).unwrap();
    assert_eq!(r.url, "https://g");
    assert_eq!(r.api_key, "kg");
    let half = resolve_route(&session(None, "https://own", ""), &profiles(), &global("https://g", "kg")).unwrap();
    assert_eq!(half.url, "https://g");
}

#[test]
fn missing_profile_is_an_error() {
    let r = resolve_route(&session(Some("zzz"), "https://own", "kown"), &profiles(), &global("https://g", "kg"));
    assert!(matches!(r, Err(RouteError::ProfileNotFound)));
}

#[test]
fn no_route_anywhere_is_an_error() {
    let r = resolve_route(&session(None, "", ""), &profiles(), &global("", "kg"));
    assert!(matches!(r, Err(RouteError::NoRoute)));
}

#[test]
fn config_path_under_home() {
    assert_eq!(global_config_path(Some("/home/u")).unwrap(), "/home/u/.duckcoding/config.json");
    assert_eq!(global_config_path(None).unwrap_err(), "Failed to get home directory");
}

#[test]
fn proxy_applied_only_when_enabled() {
    let mut cfg = global("https://g", "kg");
    assert_eq!(apply_proxy_if_configured(Some(&cfg)), None);
    cfg.network_proxy = Some(NetworkProxySettings { enabled: true, url: "http://127.0.0.1:7890".to_string() });
    assert_eq!(apply_proxy_if_configured(Some(&cfg)).as_deref(), Some("http://127.0.0.1:7890"));
    cfg.network_proxy = Some(NetworkProxySettings { enabled: false, url: "http://127.0.0.1:7890".to_string() });
    assert_eq!(apply_proxy_if_configured(Some(&cfg)), None);
    cfg.network_proxy = Some(NetworkProxySettings { enabled: true, url: String::new() });
    assert_eq!(apply_proxy_if_configured(Some(&cfg)), None);
    assert_eq!(apply_proxy_if_configured(None), None);
}

#[test]
fn log_context_collects_fields() {
    let rec = LogContext::new("install_tool")
        .field("tool", "coding-cli")
        .field("version", "1.0.0")
        .warn("starting");
    assert_eq!(rec.level, LogLevel::Warn);
    assert_eq!(rec.message, "starting");
    assert_eq!(
        rec.fields,
        vec![
            ("operation".to_string(), "install_tool".to_string()),
            ("tool".to_string(), "coding-cli".to_string()),
            ("version".to_string(), "1.0.0".to_string()),
        ]
    );
    assert_eq!(LogContext::new("x").info("m").level, LogLevel::Info);
    assert_eq!(LogContext::new("x").error("m").level, LogLevel::Error);
}

#[test]
fn timer_reports_its_name() {
    let t = Timer::new("job");
    let c = t.checkpoint("half");
    assert_eq!(c.timer, "job");
    assert_eq!(c.checkpoint.as_deref(), Some("half"));
    let done = t.finish();
    assert_eq!(done.timer, "job");
    assert!(done.checkpoint.is_none());
    assert!(done.elapsed_ms >= c.elapsed_ms);
}
