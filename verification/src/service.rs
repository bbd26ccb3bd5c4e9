//! Decisions of the mihomo process supervisor: whether routing is needed,
//! how the core's configuration is adjusted, and how readiness is judged.
use vstd::prelude::*;
use crate::text::{trim, chars_of, trim_chars, push_str, string_of};
use crate::num::{parse_i32, parse_i32_chars};
use crate::config::{Config, MihomoConfig, RoutingConfig, RoutingMode};
use crate::converter::types::strs;
use crate::tun::{tun_enabled, tun_disabled, ensure_tun_enabled, ensure_tun_disabled};

verus! {

/// Routing is needed when TCP or UDP is steered at all.
pub open spec fn routing_wanted(tcp: RoutingMode, udp: RoutingMode) -> bool {
    tcp != RoutingMode::Disable || udp != RoutingMode::Disable
}

/// The TUN device is needed when TCP or UDP goes through it.
pub open spec fn tun_wanted(tcp: RoutingMode, udp: RoutingMode) -> bool {
    tcp == RoutingMode::Tun || udp == RoutingMode::Tun
}

/// The configured TUN device name, or `Meta` when unset.
pub open spec fn device_name(configured: Seq<char>) -> Seq<char> {
    if configured.len() == 0 {
        "Meta"@
    } else {
        configured
    }
}

/// Whether routing rules are installed for this configuration.
pub fn should_setup_routing(cfg: &Config) -> (r: bool)
    ensures
        r == routing_wanted(cfg.mihomo.routing.tcp, cfg.mihomo.routing.udp),
{
    cfg.mihomo.routing.tcp != RoutingMode::Disable || cfg.mihomo.routing.udp != RoutingMode::Disable
}

/// Whether the TUN device is needed.
pub fn needs_tun(routing: &RoutingConfig) -> (r: bool)
    ensures
        r == tun_wanted(routing.tcp, routing.udp),
{
    routing.tcp == RoutingMode::Tun || routing.udp == RoutingMode::Tun
}

/// The TUN device name in use.
pub fn tun_device(routing: &RoutingConfig) -> (r: String)
    ensures
        r@ == device_name(routing.tun_device@),
{
    if routing.tun_device.as_str().is_empty() {
        String::from_str("Meta")
    } else {
        routing.tun_device.clone()
    }
}

/// The mihomo configuration text adjusted to the routing: TUN turned on
/// with the device when it is needed, turned off otherwise.
pub open spec fn adjusted_config(tcp: RoutingMode, udp: RoutingMode, device: Seq<char>, content: Seq<
    char,
>) -> Seq<char> {
    if tun_wanted(tcp, udp) {
        tun_enabled(content, device_name(device))
    } else {
        tun_disabled(content)
    }
}

/// Adjusts a mihomo configuration text to the routing.
pub fn adjust_config_text(routing: &RoutingConfig, content: &str) -> (r: String)
    ensures
        r@ == adjusted_config(routing.tcp, routing.udp, routing.tun_device@, content@),
{
    if needs_tun(routing) {
        let dev = tun_device(routing);
        ensure_tun_enabled(content, dev.as_str())
    } else {
        ensure_tun_disabled(content)
    }
}

/// Command-line arguments of the core: its working directory and its
/// configuration file.
pub fn core_args(m: &MihomoConfig) -> (r: Vec<String>)
    ensures
        strs(r@) == seq!["-d"@, m.working_dir@, "-f"@, m.config_path@],
{
    let r = vec![
        String::from_str("-d"),
        m.working_dir.clone(),
        String::from_str("-f"),
        m.config_path.clone(),
    ];
    assert(strs(r@) =~= seq!["-d"@, m.working_dir@, "-f"@, m.config_path@]);
    r
}

/// The process id written in a PID file, if it reads as one.
pub open spec fn pid_in(content: Seq<char>) -> Option<int> {
    match parse_i32(trim(content)) {
        Ok(p) => Some(p),
        Err(_) => None,
    }
}

/// Reads the process id from PID-file text.
pub fn parse_pid(content: &str) -> (r: Option<i32>)
    ensures
        match r {
            Some(p) => pid_in(content@) == Some(p as int),
            None => pid_in(content@) is None,
        },
{
    let t = trim_chars(&chars_of(content));
    match parse_i32_chars(&t) {
        Ok(p) => Some(p),
        Err(_) => None,
    }
}

/// Path under which the kernel lists a network device.
pub fn tun_sys_path(device: &str) -> (r: String)
    ensures
        r@ == "/sys/class/net/"@ + device@,
{
    let mut v = chars_of("/sys/class/net/");
    push_str(&mut v, device);
    string_of(&v)
}

/// What one readiness check concludes.
#[derive(Debug, Clone, Copy, PartialEq, Eq, Structural)]
pub enum Readiness {
    /// The core is up (and its TUN device exists when needed).
    Ready,
    /// The recorded process is gone.
    Died,
    /// Not yet; check again.
    Wait,
}

/// One readiness check: without a readable PID wait; a dead process has
/// died; a live one is ready once its TUN device exists, when one is needed.
pub open spec fn readiness_of(pid_known: bool, alive: bool, need_tun: bool, tun_present: bool) -> Readiness {
    if !pid_known {
        Readiness::Wait
    } else if !alive {
        Readiness::Died
    } else if need_tun && !tun_present {
        Readiness::Wait
    } else {
        Readiness::Ready
    }
}

/// Judges one readiness check.
pub fn readiness(pid_known: bool, alive: bool, need_tun: bool, tun_present: bool) -> (r: Readiness)
    ensures
        r == readiness_of(pid_known, alive, need_tun, tun_present),
{
    if !pid_known {
        Readiness::Wait
    } else if !alive {
        Readiness::Died
    } else if need_tun && !tun_present {
        Readiness::Wait
    } else {
        Readiness::Ready
    }
}

/// How long the core is given to become ready, in milliseconds.
pub const READY_WAIT_MS: u64 = 10000;

/// Pause between readiness checks, in milliseconds.
pub const READY_INTERVAL_MS: u64 = 500;

/// What the caller does after a readiness check.
#[derive(Debug, Clone, Copy, PartialEq, Eq, Structural)]
pub enum WatchStep {
    /// The core is ready.
    Ready,
    /// The core's process died.
    Died,
    /// Wait this many milliseconds, then check again while time is left.
    Sleep(u64),
}

/// Readiness checks made so far while waiting for the core.
pub struct ReadyWatch {
    need_tun: bool,
    waited_ms: u64,
}

impl ReadyWatch {
    /// Whether the TUN device is awaited.
    pub closed spec fn awaits_tun(&self) -> bool {
        self.need_tun
    }

    /// Milliseconds waited so far.
    pub closed spec fn waited(&self) -> nat {
        self.waited_ms as nat
    }

    /// Starts waiting, for the TUN device too when it is needed.
    pub fn new(need_tun: bool) -> (r: Self)
        ensures
            r.awaits_tun() == need_tun,
            r.waited() == 0,
    {
        ReadyWatch { need_tun, waited_ms: 0 }
    }

    /// Whether the waiting time is used up.
    pub fn expired(&self) -> (r: bool)
        ensures
            r == (self.waited() >= READY_WAIT_MS),
    {
        self.waited_ms >= READY_WAIT_MS
    }

    /// Takes one check's observations: a readable PID, a live process,
    /// the TUN device present. Ready and dead processes end the wait;
    /// otherwise the caller sleeps one interval, which counts as waited.
    pub fn observe(&mut self, pid_known: bool, alive: bool, tun_present: bool) -> (r: WatchStep)
        requires
            old(self).waited() < READY_WAIT_MS,
        ensures
            final(self).awaits_tun() == old(self).awaits_tun(),
            r == match readiness_of(pid_known, alive, old(self).awaits_tun(), tun_present) {
                Readiness::Ready => WatchStep::Ready,
                Readiness::Died => WatchStep::Died,
                Readiness::Wait => WatchStep::Sleep(READY_INTERVAL_MS),
            },
            r is Sleep ==> final(self).waited() == old(self).waited() + READY_INTERVAL_MS,
            !(r is Sleep) ==> final(self).waited() == old(self).waited(),
    {
        match readiness(pid_known, alive, self.need_tun, tun_present) {
            Readiness::Ready => WatchStep::Ready,
            Readiness::Died => WatchStep::Died,
            Readiness::Wait => {
                self.waited_ms = self.waited_ms + READY_INTERVAL_MS;
                WatchStep::Sleep(READY_INTERVAL_MS)
            },
        }
    }

    /// The error when the wait ran out.
    pub fn timeout_error(&self) -> (r: String)
        ensures
            r@ == if self.awaits_tun() {
                "timeout waiting for TUN interface"@
            } else {
                "timeout waiting for mihomo to be ready"@
            },
    {
        ready_timeout_error(self.need_tun)
    }
}

/// The wait is bounded: `n` sleeps of one interval use up the waiting
/// time exactly when `n` is at least twenty.
pub proof fn lemma_watch_bounded(n: nat)
    ensures
        (n * READY_INTERVAL_MS >= READY_WAIT_MS) <==> n >= 20,
{
    assert(n >= 20 ==> n * 500 >= 10000) by (nonlinear_arith);
    assert(n < 20 ==> n * 500 < 10000) by (nonlinear_arith);
}

/// The error when the core never became ready.
pub fn ready_timeout_error(need_tun: bool) -> (r: String)
    ensures
        r@ == if need_tun {
            "timeout waiting for TUN interface"@
        } else {
            "timeout waiting for mihomo to be ready"@
        },
{
    if need_tun {
        String::from_str("timeout waiting for TUN interface")
    } else {
        String::from_str("timeout waiting for mihomo to be ready")
    }
}

/// The version the core reports for `-v`: its trimmed standard output,
/// or its trimmed standard error when the output is blank.
pub open spec fn version_of(stdout: Seq<char>, stderr: Seq<char>) -> Seq<char> {
    if trim(stdout).len() > 0 {
        trim(stdout)
    } else {
        trim(stderr)
    }
}

/// Picks the core's version text from its output streams.
pub fn core_version(stdout: &str, stderr: &str) -> (r: String)
    ensures
        r@ == version_of(stdout@, stderr@),
{
    let o = trim_chars(&chars_of(stdout));
    if o.len() > 0 {
        string_of(&o)
    } else {
        string_of(&trim_chars(&chars_of(stderr)))
    }
}

/// Status word of the core.
pub fn status_text(running: bool) -> (r: String)
    ensures
        r@ == if running {
            "running"@
        } else {
            "stopped"@
        },
{
    if running {
        String::from_str("running")
    } else {
        String::from_str("stopped")
    }
}

/// Whether a restore starts the core: auto-start is on and it is stopped.
pub fn restore_starts(auto_start: bool, running: bool) -> (r: bool)
    ensures
        r == (auto_start && !running),
{
    auto_start && !running
}

} // verus!
