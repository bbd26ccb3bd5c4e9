use std::cell::Cell;
use fusiontunx::config::{RoutingConfig, RoutingMode};
use fusiontunx::nftables::{
    build_fw4_script, build_tproxy_script, build_tun_script, command, fw4_cleanup_commands, Command, Feedback,
    NftablesService, Outcome, RoutingSession, Step, REDIRECT_SCRIPT,
};

fn line(c: &Command) -> String {
    let mut s = c.program.clone();
    for a in &c.args {
        s.push(' ');
        s.push_str(a);
    }
    s
}

/// What a driver saw: each step rendered as text.
#[derive(Debug, PartialEq)]
enum Seen {
    Run(String),
    Apply(String),
    Sleep(u64),
}

/// Drives a session to its end, answering each step with `answer`.
fn drive(mut s: RoutingSession, answer: &dyn Fn(&Seen) -> Feedback) -> (Vec<Seen>, Outcome) {
    let mut seen = Vec::new();
    for _ in 0..1000 {
        let st = s.step();
        let item = match st {
            Step::Run(c) => Seen::Run(line(&c)),
            Step::Apply(t) => Seen::Apply(t),
            Step::Sleep(ms) => Seen::Sleep(ms),
            Step::Finish(o) => {
                assert!(s.is_over());
                return (seen, o);
            }
        };
        assert!(!s.is_over());
        let fb = answer(&item);
        seen.push(item);
        s.resume(fb);
    }
    panic!("session did not finish");
}

fn ok() -> Feedback {
    Feedback::Succeeded(String::new())
}

fn fail(e: &str) -> Feedback {
    Feedback::Failed(e.to_string())
}

const FIXED_CLEANUP: [&str; 9] = [
    "nft delete table inet fusiontunx_tproxy",
    "nft delete table ip fusiontunx_tun",
    "nft delete table inet fusiontunx_redirect",
    "ip -4 rule del fwmark 0x80/0xff table 80 pref 1024",
    "ip -6 rule del fwmark 0x80/0xff table 80 pref 1024",
    "ip -4 route flush table 80",
    "ip -6 route flush table 80",
    "ip rule del fwmark 200/0xffffffff table 200 pref 100",
    "ip route flush table 200",
];

fn routing(tcp: RoutingMode, udp: RoutingMode, dev: &str) -> RoutingConfig {
    RoutingConfig { tcp, udp, tun_device: dev.to_string() }
}

/// Answers: no fw4 table, every other command and script succeeds.
fn no_fw4(s: &Seen) -> Feedback {
    match s {
        Seen::Run(l) if l == "nft list table inet fw4" => fail("no such table"),
        _ => ok(),
    }
}

#[test]
fn cleanup_without_fw4() {
    let svc = NftablesService::new();
    let (seen, out) = drive(svc.cleanup_all_routing(), &no_fw4);
    let mut expected: Vec<Seen> = FIXED_CLEANUP.iter().map(|l| Seen::Run(l.to_string())).collect();
    expected.push(Seen::Run("nft list table inet fw4".to_string()));
    assert_eq!(seen, expected);
    assert!(matches!(out, Outcome::Done));
}

#[test]
fn cleanup_removes_fw4_rules() {
    let listing = "table inet fw4 {\n\tchain forward {\n\t\toifname \"Meta\" counter accept comment \"FusionTunX TUN forward\" # handle 17\n\t\tct state established accept # handle 3\n\t}\n\tchain input {\n\t\tiifname \"Meta\" counter accept comment \"FusionTunX TUN input\" # handle 21\n\t}\n}";
    let answer = move |s: &Seen| match s {
        Seen::Run(l) if l == "nft -a list table inet fw4" => Feedback::Succeeded(listing.to_string()),
        _ => ok(),
    };
    let (seen, out) = drive(NftablesService::new().cleanup_tun_routing(), &answer);
    assert_eq!(seen.len(), 13);
    assert_eq!(seen[9], Seen::Run("nft list table inet fw4".to_string()));
    assert_eq!(seen[10], Seen::Run("nft -a list table inet fw4".to_string()));
    assert_eq!(seen[11], Seen::Run("nft delete rule inet fw4 forward handle 17".to_string()));
    assert_eq!(seen[12], Seen::Run("nft delete rule inet fw4 input handle 21".to_string()));
    assert!(matches!(out, Outcome::Done));
}

#[test]
fn fw4_deletions_from_listing() {
    let listing = "x comment \"FusionTunX TUN srcnat\" # handle  9 \ny forward comment \"other\" # handle 4\nforward \"FusionTunX TUN\" # handle abc\nsrcnat \"FusionTunX TUN\" # handle 5";
    let cmds: Vec<String> = fw4_cleanup_commands(listing).iter().map(line).collect();
    assert_eq!(
        cmds,
        vec![
            "nft delete rule inet fw4 srcnat handle 9".to_string(),
            "nft delete rule inet fw4 srcnat handle 5".to_string(),
        ]
    );
    assert!(fw4_cleanup_commands("").is_empty());
}

#[test]
fn setup_tproxy_both() {
    let svc = NftablesService::new();
    let (seen, out) = drive(svc.setup_routing(&routing(RoutingMode::TProxy, RoutingMode::TProxy, "")), &no_fw4);
    assert_eq!(seen.len(), 10 + 1 + 6);
    assert_eq!(seen[10], Seen::Apply(build_tproxy_script(true, true)));
    assert_eq!(seen[11], Seen::Run("ip -4 route replace local default dev lo table 80".to_string()));
    assert_eq!(seen[16], Seen::Run("ip -6 rule add fwmark 0x80/0xff table 80 pref 1024".to_string()));
    assert!(matches!(out, Outcome::Done));
}

#[test]
fn setup_redirect_and_tun() {
    let svc = NftablesService::new();
    let (seen, out) = drive(svc.setup_routing(&routing(RoutingMode::Redirect, RoutingMode::Tun, "")), &no_fw4);
    let tail: Vec<Seen> = seen[10..].iter().map(|s| match s {
        Seen::Run(l) => Seen::Run(l.clone()),
        Seen::Apply(t) => Seen::Apply(t.clone()),
        Seen::Sleep(m) => Seen::Sleep(*m),
    }).collect();
    assert_eq!(
        tail,
        vec![
            Seen::Run("ip link show Meta".to_string()),
            Seen::Run("nft list table inet fw4".to_string()),
            Seen::Apply(build_tun_script(&"Meta".to_string(), false, true)),
            Seen::Run("ip rule del fwmark 200/0xffffffff table 200 pref 100".to_string()),
            Seen::Run("ip rule add fwmark 200/0xffffffff table 200 pref 100".to_string()),
            Seen::Run("ip route replace default dev Meta table 200".to_string()),
            Seen::Apply(REDIRECT_SCRIPT.to_string()),
        ]
    );
    assert!(matches!(out, Outcome::Done));
}

#[test]
fn setup_tun_waits_for_device_and_admits_fw4() {
    let probes = Cell::new(0);
    let answer = |s: &Seen| match s {
        Seen::Run(l) if l == "ip link show tun9" => {
            probes.set(probes.get() + 1);
            if probes.get() < 3 { fail("no device") } else { ok() }
        }
        Seen::Run(l) if l == "nft list table inet fw4" => {
            // present only once the device is up
            if probes.get() >= 3 { ok() } else { fail("none") }
        }
        _ => ok(),
    };
    let (seen, out) = drive(NftablesService::new().setup_routing(&routing(RoutingMode::Tun, RoutingMode::Disable, "tun9")), &answer);
    let after: Vec<&Seen> = seen[10..].iter().collect();
    assert_eq!(*after[0], Seen::Run("ip link show tun9".to_string()));
    assert_eq!(*after[1], Seen::Sleep(500));
    assert_eq!(*after[2], Seen::Run("ip link show tun9".to_string()));
    assert_eq!(*after[3], Seen::Sleep(500));
    assert_eq!(*after[4], Seen::Run("ip link show tun9".to_string()));
    assert_eq!(*after[5], Seen::Run("nft list table inet fw4".to_string()));
    assert_eq!(*after[6], Seen::Apply(build_fw4_script(&"tun9".to_string())));
    assert_eq!(*after[7], Seen::Apply(build_tun_script(&"tun9".to_string(), true, false)));
    assert_eq!(after.len(), 11);
    assert!(matches!(out, Outcome::Done));
}

#[test]
fn setup_tun_gives_up_waiting_after_twenty_probes() {
    let answer = |s: &Seen| match s {
        Seen::Run(l) if l.starts_with("ip link show") => fail("no device"),
        Seen::Run(l) if l == "nft list table inet fw4" => fail("none"),
        _ => ok(),
    };
    let (seen, out) = drive(NftablesService::new().setup_routing(&routing(RoutingMode::Disable, RoutingMode::Tun, "")), &answer);
    let probes = seen.iter().filter(|s| matches!(s, Seen::Run(l) if l == "ip link show Meta")).count();
    let sleeps = seen.iter().filter(|s| matches!(s, Seen::Sleep(500))).count();
    assert_eq!(probes, 20);
    assert_eq!(sleeps, 20);
    assert!(matches!(out, Outcome::Done));
}

#[test]
fn failing_script_ends_setup() {
    let answer = |s: &Seen| match s {
        Seen::Apply(_) => fail("nft: syntax error"),
        Seen::Run(l) if l == "nft list table inet fw4" => fail("none"),
        _ => ok(),
    };
    let (seen, out) = drive(NftablesService::new().setup_routing(&routing(RoutingMode::TProxy, RoutingMode::Tun, "")), &answer);
    assert_eq!(seen.len(), 11);
    match out {
        Outcome::Failed(e) => assert_eq!(e, "nft: syntax error"),
        other => panic!("unexpected {:?}", other),
    }
}

#[test]
fn disabled_routing_only_cleans() {
    let (seen, out) = drive(
        NftablesService::new().setup_routing(&routing(RoutingMode::Disable, RoutingMode::Disable, "")),
        &no_fw4,
    );
    assert_eq!(seen.len(), 10);
    assert!(matches!(out, Outcome::Done));
}

#[test]
fn probes_answer_by_exit_status() {
    let svc = NftablesService::new();
    let (seen, out) = drive(svc.is_openwrt_fw4(), &|_s: &Seen| ok());
    assert_eq!(seen, vec![Seen::Run("nft list table inet fw4".to_string())]);
    assert!(matches!(out, Outcome::Answer(true)));
    let (seen, out) = drive(svc.is_tun_routing_active(), &|_s: &Seen| fail("x"));
    assert_eq!(seen, vec![Seen::Run("ip route show table 200".to_string())]);
    assert!(matches!(out, Outcome::Answer(false)));
}

#[test]
fn scripts_hold_the_chosen_rules() {
    let t = build_tproxy_script(true, false);
    assert!(t.starts_with("table inet fusiontunx_tproxy {"));
    assert!(t.contains("meta l4proto tcp counter meta mark set 0x00000080 tproxy to :7894 accept"));
    assert!(!t.contains("meta l4proto udp counter meta mark set 0x00000080 tproxy"));
    assert!(t.ends_with("    }\n}\n"));
    let f = build_fw4_script(&"utun".to_string());
    assert_eq!(f.matches("\"utun\"").count(), 7);
    assert!(f.starts_with("insert rule inet fw4 forward ip protocol tcp oifname \"utun\""));
    let u = build_tun_script(&"Meta".to_string(), true, true);
    assert!(u.contains("iifname \"Meta\" accept"));
    assert!(u.contains("oifname \"Meta\" accept"));
    assert_eq!(u.matches("meta mark 0 ip protocol tcp meta mark set 200 accept").count(), 2);
}

#[test]
fn command_splits_words() {
    let c = command("ip -4 route flush table 80");
    assert_eq!(c.program, "ip");
    assert_eq!(c.args, vec!["-4", "route", "flush", "table", "80"]);
}
