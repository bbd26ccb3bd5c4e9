use fusiontunx::config::{
    default_port, mihomo_endpoint, ApiConfig, Config, CorsConfig, EnvDefaults, MihomoConfig, RoutingConfig,
    RoutingMode,
};

fn no_env() -> EnvDefaults {
    EnvDefaults { port: None, host: None, mode: None, log_level: None }
}

#[test]
fn routing_mode_names() {
    assert_eq!(RoutingMode::Tun.as_str(), "tun");
    assert_eq!(RoutingMode::TProxy.as_str(), "tproxy");
    assert_eq!(RoutingMode::Redirect.as_str(), "redirect");
    assert_eq!(RoutingMode::Disable.as_str(), "disable");
    assert_eq!(RoutingMode::default(), RoutingMode::Disable);
}

#[test]
fn defaults_without_environment() {
    let c = Config::with_env(&no_env());
    assert_eq!(c.server.port, "8080");
    assert_eq!(c.server.host, "0.0.0.0");
    assert_eq!(c.server.mode, "release");
    assert_eq!(c.logging.level, "info");
    assert_eq!(c.logging.file, "/var/log/fusiontunx.log");
    assert_eq!(c.logging.max_size, 100);
    assert_eq!(c.logging.max_backups, 3);
    assert_eq!(c.logging.max_age, 28);
    assert_eq!(c.mihomo.core_path, "/usr/bin/mihomo");
    assert_eq!(c.mihomo.config_path, "/etc/fusiontunx/configs/config.yaml");
    assert_eq!(c.mihomo.working_dir, "/etc/fusiontunx");
    assert!(c.mihomo.auto_restart);
    assert!(!c.mihomo.auto_start);
    assert_eq!(c.mihomo.log_file, "/var/log/mihomo.log");
    assert_eq!(c.mihomo.api_url, "");
    assert_eq!(c.mihomo.routing.tcp, RoutingMode::Redirect);
    assert_eq!(c.mihomo.routing.udp, RoutingMode::Tun);
    assert_eq!(c.mihomo.routing.tun_device, "Meta");
    assert_eq!(c.api.rate_limit, 100);
    assert_eq!(c.api.timeout, 30);
    assert!(c.api.enable_swagger);
}

#[test]
fn defaults_follow_environment() {
    let env = EnvDefaults {
        port: Some("9000".to_string()),
        host: Some("127.0.0.1".to_string()),
        mode: Some("debug".to_string()),
        log_level: Some("warn".to_string()),
    };
    let c = Config::with_env(&env);
    assert_eq!(c.server.port, "9000");
    assert_eq!(c.server.host, "127.0.0.1");
    assert_eq!(c.server.mode, "debug");
    assert_eq!(c.logging.level, "warn");
    assert_eq!(default_port(None), "8080");
}

#[test]
fn cors_defaults() {
    let c = CorsConfig::default();
    assert!(c.enabled);
    assert_eq!(c.allowed_origins, vec!["http://localhost:3000", "http://192.168.2.1:3000", "http://127.0.0.1:3000"]);
    assert_eq!(c.allowed_methods, vec!["GET", "POST", "PUT", "DELETE", "OPTIONS"]);
    assert_eq!(c.allowed_headers, vec!["Content-Type", "Authorization", "X-Requested-With"]);
    assert_eq!(c.expose_headers, vec!["Content-Length"]);
    assert!(c.allow_credentials);
    assert_eq!(c.max_age, 3600);
    assert!(ApiConfig::default().cors.enabled);
}

#[test]
fn core_defaults() {
    let m = MihomoConfig::default();
    assert_eq!(m.api_secret, "");
    let r = RoutingConfig::default();
    assert_eq!(r.tcp, RoutingMode::Redirect);
    assert_eq!(r.udp, RoutingMode::Tun);
}

#[test]
fn controller_endpoint() {
    assert_eq!(mihomo_endpoint(None, None), ("http://127.0.0.1:9090".to_string(), String::new()));
    assert_eq!(
        mihomo_endpoint(Some(String::new()), Some("s3cret".to_string())),
        ("http://127.0.0.1:9090".to_string(), "s3cret".to_string())
    );
    assert_eq!(
        mihomo_endpoint(Some("0.0.0.0:9999".to_string()), None),
        ("http://0.0.0.0:9999".to_string(), String::new())
    );
    assert_eq!(
        mihomo_endpoint(Some("https://api.local:443".to_string()), None).0,
        "https://api.local:443"
    );
}

#[test]
fn controller_applied_only_when_read() {
    let mut c = Config::with_env(&no_env());
    assert!(c.wants_controller());
    c.apply_controller(None);
    assert_eq!(c.mihomo.api_url, "");
    c.apply_controller(Some(("http://1.2.3.4:9090".to_string(), "k".to_string())));
    assert_eq!(c.mihomo.api_url, "http://1.2.3.4:9090");
    assert_eq!(c.mihomo.api_secret, "k");
    c.mihomo.config_path = String::new();
    assert!(!c.wants_controller());
}
