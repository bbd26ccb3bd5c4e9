use fusiontunx::config::{Config, EnvDefaults, RoutingConfig, RoutingMode};
use fusiontunx::service::{
    adjust_config_text, core_args, core_version, needs_tun, parse_pid, readiness, ready_timeout_error, restore_starts, should_setup_routing,
    status_text, tun_device, tun_sys_path, Readiness, ReadyWatch, WatchStep,
};

fn routing(tcp: RoutingMode, udp: RoutingMode, dev: &str) -> RoutingConfig {
    RoutingConfig { tcp, udp, tun_device: dev.to_string() }
}

#[test]
fn routing_needed_unless_both_disabled() {
    let mut c = Config::with_env(&EnvDefaults { port: None, host: None, mode: None, log_level: None });
    assert!(should_setup_routing(&c));
    c.mihomo.routing.tcp = RoutingMode::Disable;
    c.mihomo.routing.udp = RoutingMode::Disable;
    assert!(!should_setup_routing(&c));
    c.mihomo.routing.udp = RoutingMode::TProxy;
    assert!(should_setup_routing(&c));
}

#[test]
fn tun_need_and_device() {
    assert!(needs_tun(&routing(RoutingMode::Redirect, RoutingMode::Tun, "")));
    assert!(!needs_tun(&routing(RoutingMode::TProxy, RoutingMode::TProxy, "")));
    assert_eq!(tun_device(&routing(RoutingMode::Tun, RoutingMode::Tun, "")), "Meta");
    assert_eq!(tun_device(&routing(RoutingMode::Tun, RoutingMode::Tun, "utun7")), "utun7");
}

#[test]
fn config_text_follows_routing() {
    let cfg = "tun:\n  enable: false\nmode: rule";
    assert_eq!(
        adjust_config_text(&routing(RoutingMode::Tun, RoutingMode::Disable, "t0"), cfg),
        "tun:\n  enable: true\n  device: t0\nmode: rule"
    );
    let on = "tun:\n  enable: true\nmode: rule";
    assert_eq!(
        adjust_config_text(&routing(RoutingMode::Redirect, RoutingMode::Disable, ""), on),
        "tun:\n  enable: false\nmode: rule"
    );
}

#[test]
fn pid_file_text() {
    assert_eq!(parse_pid("1234\n"), Some(1234));
    assert_eq!(parse_pid("  42  "), Some(42));
    assert_eq!(parse_pid(""), None);
    assert_eq!(parse_pid("abc"), None);
    assert_eq!(parse_pid("99999999999"), None);
}

#[test]
fn readiness_rules() {
    assert_eq!(readiness(false, true, false, false), Readiness::Wait);
    assert_eq!(readiness(true, false, true, true), Readiness::Died);
    assert_eq!(readiness(true, true, true, false), Readiness::Wait);
    assert_eq!(readiness(true, true, true, true), Readiness::Ready);
    assert_eq!(readiness(true, true, false, false), Readiness::Ready);
}

#[test]
fn messages() {
    assert_eq!(ready_timeout_error(true), "timeout waiting for TUN interface");
    assert_eq!(ready_timeout_error(false), "timeout waiting for mihomo to be ready");
    assert_eq!(status_text(true), "running");
    assert_eq!(status_text(false), "stopped");
    assert_eq!(tun_sys_path("Meta"), "/sys/class/net/Meta");
    assert!(restore_starts(true, false));
    assert!(!restore_starts(true, true));
    assert!(!restore_starts(false, false));
}

#[test]
fn core_version_text() {
    assert_eq!(core_version("Mihomo Meta v1.18.0\n", "warn"), "Mihomo Meta v1.18.0");
    assert_eq!(core_version("  \n", " v2 \n"), "v2");
    assert_eq!(core_version("", ""), "");
}

#[test]
fn ready_watch_gives_up_after_twenty_checks() {
    let mut w = ReadyWatch::new(true);
    let mut checks = 0;
    while !w.expired() {
        assert_eq!(w.observe(true, true, false), WatchStep::Sleep(500));
        checks += 1;
    }
    assert_eq!(checks, 20);
    assert_eq!(w.timeout_error(), "timeout waiting for TUN interface");
}

#[test]
fn ready_watch_outcomes() {
    let mut w = ReadyWatch::new(false);
    assert_eq!(w.observe(false, false, false), WatchStep::Sleep(500));
    assert_eq!(w.observe(true, false, false), WatchStep::Died);
    assert_eq!(w.observe(true, true, false), WatchStep::Ready);
    assert_eq!(w.timeout_error(), "timeout waiting for mihomo to be ready");
    let mut t = ReadyWatch::new(true);
    assert_eq!(t.observe(true, true, true), WatchStep::Ready);
}

#[test]
fn core_command_line() {
    let c = Config::with_env(&EnvDefaults { port: None, host: None, mode: None, log_level: None });
    assert_eq!(core_args(&c.mihomo), vec!["-d", "/etc/fusiontunx", "-f", "/etc/fusiontunx/configs/config.yaml"]);
}
