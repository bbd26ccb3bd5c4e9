use fusiontunx::web::{FollowStep, LogFollow};
use fusiontunx::config::{Config, CorsConfig, EnvDefaults, MihomoConfig, RoutingMode};
use fusiontunx::web::{
    api_target, apply_update, content_disposition, lookup_target, restart_wanted, LookupRequest, asset_path, backup_filename, cors_plan, dashboard_port, is_swagger_json, log_lines,
    parse_route_error, push_unique, spa_fallback, stream_lines, tail_start, ParseRequest, ParseRoute,
    UpdateConfigLogging, UpdateConfigRequest,
};

fn req(url: &str, content: &str) -> ParseRequest {
    ParseRequest { url: url.to_string(), content: content.to_string() }
}

fn config() -> Config {
    Config::with_env(&EnvDefaults { port: None, host: None, mode: None, log_level: None })
}

#[test]
fn parse_requests_are_routed() {
    assert_eq!(req("", "vmess://abc").route(), ParseRoute::Content);
    assert_eq!(req("https://sub.example/x", "string").route(), ParseRoute::Fetch);
    assert_eq!(req("http://sub.example/x", "").route(), ParseRoute::Fetch);
    assert_eq!(req("trojan://p@h:1", "").route(), ParseRoute::Link);
    assert_eq!(req("ss://abc", "string").route(), ParseRoute::Link);
    assert_eq!(req("", "").route(), ParseRoute::Missing);
    assert_eq!(req("", "string").route(), ParseRoute::Missing);
    assert_eq!(req("ftp://x", "").route(), ParseRoute::BadUrl);
}

#[test]
fn parse_route_errors() {
    assert_eq!(parse_route_error(ParseRoute::Missing).as_deref(), Some("either 'url' or 'content' is required"));
    assert_eq!(
        parse_route_error(ParseRoute::BadUrl).as_deref(),
        Some("invalid URL: must be http(s):// subscription or vmess/vless/trojan/ss link")
    );
    assert_eq!(parse_route_error(ParseRoute::Fetch), None);
}

#[test]
fn unique_addresses() {
    let mut v = vec!["1.1.1.1".to_string()];
    push_unique(&mut v, "8.8.8.8".to_string());
    push_unique(&mut v, "1.1.1.1".to_string());
    assert_eq!(v, vec!["1.1.1.1", "8.8.8.8"]);
}

#[test]
fn update_replaces_core_section_and_level() {
    let mut c = config();
    let mut m = MihomoConfig::default();
    m.routing.tcp = RoutingMode::TProxy;
    let restart = apply_update(
        &mut c,
        UpdateConfigRequest { mihomo: Some(m), logging: Some(UpdateConfigLogging { level: Some("debug".to_string()) }) },
        true,
    );
    assert!(restart);
    assert_eq!(c.mihomo.routing.tcp, RoutingMode::TProxy);
    assert_eq!(c.logging.level, "debug");
}

#[test]
fn update_without_core_never_restarts() {
    let mut c = config();
    let restart = apply_update(
        &mut c,
        UpdateConfigRequest { mihomo: None, logging: Some(UpdateConfigLogging { level: Some(String::new()) }) },
        true,
    );
    assert!(!restart);
    assert_eq!(c.logging.level, "info");
    let mut m = MihomoConfig::default();
    m.auto_restart = false;
    assert!(!apply_update(&mut c, UpdateConfigRequest { mihomo: Some(m), logging: None }, true));
    assert!(!apply_update(&mut c, UpdateConfigRequest { mihomo: Some(MihomoConfig::default()), logging: None }, false));
}

#[test]
fn dashboard_ports() {
    assert_eq!(dashboard_port("http://127.0.0.1:9090"), "9090");
    assert_eq!(dashboard_port("http://127.0.0.1:9999/"), "9999");
    assert_eq!(dashboard_port("http://localhost"), "9090");
    assert_eq!(dashboard_port(""), "9090");
}

#[test]
fn api_targets() {
    assert_eq!(api_target("http://127.0.0.1:9090", "/proxies"), "http://127.0.0.1:9090/proxies");
    assert_eq!(api_target("http://127.0.0.1:9090", "version"), "http://127.0.0.1:9090/version");
}

#[test]
fn cors_policy() {
    let plan = cors_plan(&CorsConfig::default());
    assert!(!plan.permissive);
    assert!(!plan.any_origin);
    assert_eq!(plan.origins.len(), 3);
    assert!(plan.credentials);
    assert_eq!(plan.max_age, Some(3600));
    let mut any = CorsConfig::default();
    any.allowed_origins = vec!["*".to_string()];
    any.max_age = 0;
    let p = cors_plan(&any);
    assert!(p.any_origin);
    assert!(!p.credentials);
    assert_eq!(p.max_age, None);
    let mut off = CorsConfig::default();
    off.enabled = false;
    assert!(cors_plan(&off).permissive);
}

#[test]
fn assets_and_fallback() {
    assert_eq!(asset_path("/"), "index.html");
    assert_eq!(asset_path(""), "index.html");
    assert_eq!(asset_path("/assets/app.js"), "assets/app.js");
    assert_eq!(asset_path("//x.css"), "x.css");
    assert!(spa_fallback("/proxies"));
    assert!(!spa_fallback("/api/v1/status"));
    assert!(!spa_fallback("/docs/index.html"));
    assert!(is_swagger_json("/docs/swagger.json"));
    assert!(is_swagger_json("/docs/swagger.json/"));
    assert!(!is_swagger_json("/docs/"));
}

#[test]
fn backups_and_tails() {
    assert_eq!(backup_filename("20240101-120000"), "fusiontunx-backup-20240101-120000.tar.gz");
    assert_eq!(tail_start(100), 0);
    assert_eq!(tail_start(4096), 0);
    assert_eq!(tail_start(10000), 5904);
}

#[test]
fn log_text_to_messages() {
    assert_eq!(log_lines("cut line\n a \n\nb", true), vec!["a", "b"]);
    assert_eq!(log_lines("first\nsecond\n", false), vec!["first", "second"]);
    assert_eq!(log_lines("only", true), Vec::<String>::new());
    assert_eq!(stream_lines("x\r\n  \ny  "), vec!["x", "y"]);
}

#[test]
fn lookup_requests() {
    let r = LookupRequest { domain: "  example.com \n".to_string() };
    let d = r.domain_name().unwrap();
    assert_eq!(d, "example.com");
    assert_eq!(lookup_target(&d), "example.com:0");
    assert_eq!(LookupRequest { domain: "   ".to_string() }.domain_name(), None);
}

#[test]
fn restart_rule() {
    assert!(restart_wanted(true, true));
    assert!(!restart_wanted(true, false));
    assert!(!restart_wanted(false, true));
}

#[test]
fn download_header() {
    assert_eq!(content_disposition("a.yaml"), "attachment; filename=\"a.yaml\"");
}

#[test]
fn unique_addresses_stay_unique() {
    let mut v: Vec<String> = Vec::new();
    for a in ["1.1.1.1", "8.8.8.8", "1.1.1.1", "8.8.8.8", "9.9.9.9"] {
        push_unique(&mut v, a.to_string());
    }
    assert_eq!(v, vec!["1.1.1.1", "8.8.8.8", "9.9.9.9"]);
}

#[test]
fn log_follow_steps() {
    let mut f = LogFollow::new(100);
    assert_eq!(f.on_size(100), FollowStep::Wait);
    assert_eq!(f.on_size(150), FollowStep::Read { start: 100, len: 50 });
    f.advance(30);
    assert_eq!(f.position(), 130);
    assert_eq!(f.on_size(150), FollowStep::Read { start: 130, len: 20 });
    assert_eq!(f.on_size(40), FollowStep::Read { start: 0, len: 40 });
    assert_eq!(f.position(), 0);
    let mut g = LogFollow::new(10);
    assert_eq!(g.on_size(0), FollowStep::Wait);
    assert_eq!(g.position(), 0);
}
