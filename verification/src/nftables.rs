//! Routing rules for the proxy core: nftables scripts and `ip` commands
//! for TPROXY, TUN and REDIRECT steering, and the sequence in which they
//! are applied, as a state machine whose commands the caller runs.
use vstd::prelude::*;
use crate::text::{
    chars_of, push_str, push_chars, string_of, split, split_chars, seqs_of, lines, lines_chars,
    contains_seq, contains_str, last_index_of_seq, rfind_str, trim, trim_chars, slice_chars, occurs_at,
};
use crate::num::{parse_u64, parse_u64_chars, decimal_nat, decimal_u64_chars};
use crate::config::{RoutingConfig, RoutingMode};
use crate::converter::types::strs;

verus! {

/// Start of the TPROXY table, up to the loopback rules.
pub const TPROXY_HEAD: &'static str = "table inet fusiontunx_tproxy {\n    set reserved_ip {\n        type ipv4_addr\n        flags interval\n        elements = { 0.0.0.0/8, 10.0.0.0/8, 100.64.0.0/10, 127.0.0.0/8, 169.254.0.0/16, 172.16.0.0/12, 192.0.0.0/24, 192.0.2.0/24, 192.88.99.0/24, 192.168.0.0/16, 198.18.0.0/15, 198.51.100.0/24, 203.0.113.0/24, 224.0.0.0/3 }\n    }\n    set reserved_ip6 {\n        type ipv6_addr\n        flags interval\n        elements = { ::/128, ::1/128, ::ffff:0:0/96, 64:ff9b::/96, 64:ff9b:1::/48, 100::/64, 2001::/32, 2001:20::/28, 2001:db8::/32, 2002::/16, 5f00::/16, fc00::/7, fe80::/10, ff00::/8 }\n    }\n    chain mangle_prerouting {\n        type filter hook prerouting priority mangle; policy accept;\n        meta l4proto udp udp dport 443 reject\n        meta mark 0x00000100 return\n";

/// Bypass rules of the TPROXY prerouting chain.
pub const TPROXY_BYPASS: &'static str = "        ct direction reply counter return\n        fib daddr type { local, broadcast, anycast, multicast } counter return\n        ip daddr @reserved_ip counter return\n        ip6 daddr @reserved_ip6 counter return\n";

/// End of the prerouting chain and start of the output chain.
pub const TPROXY_OUTPUT_HEAD: &'static str = "    }\n    chain mangle_output {\n        type route hook output priority mangle; policy accept;\n        meta l4proto udp udp dport 443 reject\n        meta mark 0x00000100 return\n        ct direction reply counter return\n        fib daddr type { local, broadcast, anycast, multicast } counter return\n        ip daddr @reserved_ip counter return\n        ip6 daddr @reserved_ip6 counter return\n";

/// End of the TPROXY table.
pub const TPROXY_TAIL: &'static str = "    }\n}\n";

/// Piece 0 of the fw4 rules, around the device name.
pub const FW4_PART0: &'static str = "insert rule inet fw4 forward ip protocol tcp oifname \"";

/// Piece 1 of the fw4 rules, around the device name.
pub const FW4_PART1: &'static str = "\" counter accept comment \"FusionTunX TUN Forward Out\"\ninsert rule inet fw4 forward ip protocol udp oifname \"";

/// Piece 2 of the fw4 rules, around the device name.
pub const FW4_PART2: &'static str = "\" counter accept comment \"FusionTunX TUN Forward Out\"\ninsert rule inet fw4 forward ip protocol tcp iifname \"";

/// Piece 3 of the fw4 rules, around the device name.
pub const FW4_PART3: &'static str = "\" counter accept comment \"FusionTunX TUN Forward In\"\ninsert rule inet fw4 forward ip protocol udp iifname \"";

/// Piece 4 of the fw4 rules, around the device name.
pub const FW4_PART4: &'static str = "\" counter accept comment \"FusionTunX TUN Forward In\"\ninsert rule inet fw4 input ip protocol tcp iifname \"";

/// Piece 5 of the fw4 rules, around the device name.
pub const FW4_PART5: &'static str = "\" counter accept comment \"FusionTunX TUN Input\"\ninsert rule inet fw4 input ip protocol udp iifname \"";

/// Piece 6 of the fw4 rules, around the device name.
pub const FW4_PART6: &'static str = "\" counter accept comment \"FusionTunX TUN Input\"\ninsert rule inet fw4 srcnat meta nfproto ipv4 oifname \"";

/// Piece 7 of the fw4 rules, around the device name.
pub const FW4_PART7: &'static str = "\" counter return comment \"FusionTunX TUN Postrouting\"\n";

/// Start of the TUN table, up to the device name.
pub const TUN_HEAD: &'static str = "table ip fusiontunx_tun {\n    chain prerouting {\n        type filter hook prerouting priority mangle; policy accept;\n        iifname \"lo\" accept\n        iifname \"";

/// Bypass rules of the TUN prerouting chain.
pub const TUN_PREROUTING_BYPASS: &'static str = "\" accept\n        ip daddr { 127.0.0.0/8, 10.0.0.0/8, 172.16.0.0/12, 192.168.0.0/16 } accept\n";

/// End of the prerouting chain and start of the output chain.
pub const TUN_OUTPUT_HEAD: &'static str = "    }\n    chain output {\n        type route hook output priority mangle; policy accept;\n        oifname \"lo\" accept\n        oifname \"";

/// Bypass rules of the TUN output chain.
pub const TUN_OUTPUT_BYPASS: &'static str = "\" accept\n        ip daddr { 127.0.0.0/8, 10.0.0.0/8, 172.16.0.0/12, 192.168.0.0/16 } accept\n";

/// End of the TUN table.
pub const TUN_TAIL: &'static str = "    }\n}\n";

/// The REDIRECT table.
pub const REDIRECT_SCRIPT: &'static str = "table inet fusiontunx_redirect {\n    chain nat_output {\n        type nat hook output priority -100; policy accept;\n        oifname \"lo\" accept\n        meta mark 0x00000100 counter return\n        ip daddr { 127.0.0.0/8, 10.0.0.0/8, 172.16.0.0/12, 192.168.0.0/16 } accept\n        meta l4proto tcp counter redirect to :7891\n    }\n}\n";

/// Loopback TPROXY rule for TCP.
pub const PRE_TCP: &'static str = "        iifname \"lo\" meta l4proto tcp meta mark & 0x000000ff == 0x00000080 tproxy to :7894 counter accept\n";

/// Loopback TPROXY rule for UDP.
pub const PRE_UDP: &'static str = "        iifname \"lo\" meta l4proto udp meta mark & 0x000000ff == 0x00000080 tproxy to :7894 counter accept\n";

/// Output marking rule for TCP.
pub const OUT_TCP: &'static str = "        meta l4proto tcp counter meta mark set 0x00000080 accept\n";

/// Output marking rule for UDP.
pub const OUT_UDP: &'static str = "        meta l4proto udp counter meta mark set 0x00000080 accept\n";

/// Prerouting TPROXY rule for TCP.
pub const MARK_TCP: &'static str = "        meta l4proto tcp counter meta mark set 0x00000080 tproxy to :7894 accept\n";

/// Prerouting TPROXY rule for UDP.
pub const MARK_UDP: &'static str = "        meta l4proto udp counter meta mark set 0x00000080 tproxy to :7894 accept\n";

/// TUN marking rule for TCP.
pub const TUN_TCP: &'static str = "        meta mark 0 ip protocol tcp meta mark set 200 accept\n";

/// TUN marking rule for UDP.
pub const TUN_UDP: &'static str = "        meta mark 0 ip protocol udp meta mark set 200 accept\n";

/// A command to run: a program and its arguments.
#[derive(Debug)]
pub struct Command {
    pub program: String,
    pub args: Vec<String>,
}

/// Abstract value of a [`Command`].
#[verifier::ext_equal]
pub struct CommandView {
    pub program: Seq<char>,
    pub args: Seq<Seq<char>>,
}

impl View for Command {
    type V = CommandView;

    open spec fn view(&self) -> CommandView {
        CommandView { program: self.program@, args: strs(self.args@) }
    }
}

/// The command written as space-separated words.
pub open spec fn command_line(line: Seq<char>) -> CommandView {
    let w = split(line, ' ');
    CommandView { program: w[0], args: w.drop_first() }
}

/// Builds the command written as space-separated words.
pub fn command(line: &str) -> (r: Command)
    ensures
        r@ == command_line(line@),
{
    let w = split_chars(&chars_of(line), ' ');
    let ghost ws = seqs_of(w@);
    proof {
        crate::text::lemma_split_nonempty(line@, ' ');
    }
    let program = string_of(&w[0]);
    let mut args: Vec<String> = Vec::new();
    let mut i: usize = 1;
    while i < w.len()
        invariant
            1 <= i <= w@.len(),
            ws == seqs_of(w@),
            strs(args@) == ws.subrange(1, i as int),
        decreases w@.len() - i,
    {
        let ghost before = strs(args@);
        args.push(string_of(&w[i]));
        assert(strs(args@) =~= before.push(ws[i as int]));
        assert(ws.subrange(1, i + 1) =~= ws.subrange(1, i as int).push(ws[i as int]));
        i = i + 1;
    }
    assert(ws.subrange(1, w@.len() as int) =~= ws.drop_first());
    Command { program, args }
}

/// The space-separated words of a command-line tail; none when it is empty.
pub open spec fn words(tail: Seq<char>) -> Seq<Seq<char>> {
    if tail.len() == 0 {
        seq![]
    } else {
        split(tail, ' ')
    }
}

/// Builds `<head words> <arg> <tail words>`, `arg` staying one argument.
pub fn command_with(head: &str, arg: &String, tail: &str) -> (r: Command)
    ensures
        r@ == (CommandView {
            program: command_line(head@).program,
            args: command_line(head@).args + seq![arg@] + words(tail@),
        }),
{
    let mut c = command(head);
    let a = arg.clone();
    let ghost before0 = strs(c.args@);
    c.args.push(a);
    assert(strs(c.args@) =~= before0.push(arg@));
    if tail.is_empty() {
        assert(strs(c.args@) =~= command_line(head@).args + seq![arg@] + words(tail@));
        return c;
    }
    let t = split_chars(&chars_of(tail), ' ');
    let ghost ts = seqs_of(t@);
    let ghost base = strs(c.args@);
    let mut i: usize = 0;
    while i < t.len()
        invariant
            i <= t@.len(),
            ts == seqs_of(t@),
            c.program@ == command_line(head@).program,
            strs(c.args@) == base + ts.take(i as int),
        decreases t@.len() - i,
    {
        let ghost before = strs(c.args@);
        c.args.push(string_of(&t[i]));
        assert(strs(c.args@) =~= before.push(ts[i as int]));
        assert(base + ts.take(i + 1) =~= (base + ts.take(i as int)).push(ts[i as int]));
        i = i + 1;
    }
    assert(ts.take(t@.len() as int) =~= ts);
    assert(strs(c.args@) =~= command_line(head@).args + seq![arg@] + words(tail@));
    assert(c@ =~= (CommandView {
        program: command_line(head@).program,
        args: command_line(head@).args + seq![arg@] + words(tail@),
    }));
    c
}

/// Command lines removing every table and policy route of the service.
pub open spec fn cleanup_line(i: int) -> Seq<char> {
    if i == 0 {
        "nft delete table inet fusiontunx_tproxy"@
    } else if i == 1 {
        "nft delete table ip fusiontunx_tun"@
    } else if i == 2 {
        "nft delete table inet fusiontunx_redirect"@
    } else if i == 3 {
        "ip -4 rule del fwmark 0x80/0xff table 80 pref 1024"@
    } else if i == 4 {
        "ip -6 rule del fwmark 0x80/0xff table 80 pref 1024"@
    } else if i == 5 {
        "ip -4 route flush table 80"@
    } else if i == 6 {
        "ip -6 route flush table 80"@
    } else if i == 7 {
        "ip rule del fwmark 200/0xffffffff table 200 pref 100"@
    } else {
        "ip route flush table 200"@
    }
}

/// Number of fixed cleanup commands.
pub const CLEANUP_STEPS: usize = 9;

fn cleanup_text(i: usize) -> (r: &'static str)
    requires
        i < 9,
    ensures
        r@ == cleanup_line(i as int),
{
    if i == 0 {
        "nft delete table inet fusiontunx_tproxy"
    } else if i == 1 {
        "nft delete table ip fusiontunx_tun"
    } else if i == 2 {
        "nft delete table inet fusiontunx_redirect"
    } else if i == 3 {
        "ip -4 rule del fwmark 0x80/0xff table 80 pref 1024"
    } else if i == 4 {
        "ip -6 rule del fwmark 0x80/0xff table 80 pref 1024"
    } else if i == 5 {
        "ip -4 route flush table 80"
    } else if i == 6 {
        "ip -6 route flush table 80"
    } else if i == 7 {
        "ip rule del fwmark 200/0xffffffff table 200 pref 100"
    } else {
        "ip route flush table 200"
    }
}

/// Command lines installing the TPROXY policy routes.
pub open spec fn tproxy_route_line(i: int) -> Seq<char> {
    if i == 0 {
        "ip -4 route replace local default dev lo table 80"@
    } else if i == 1 {
        "ip -4 rule del fwmark 0x80/0xff table 80 pref 1024"@
    } else if i == 2 {
        "ip -4 rule add fwmark 0x80/0xff table 80 pref 1024"@
    } else if i == 3 {
        "ip -6 route replace local default dev lo table 80"@
    } else if i == 4 {
        "ip -6 rule del fwmark 0x80/0xff table 80 pref 1024"@
    } else {
        "ip -6 rule add fwmark 0x80/0xff table 80 pref 1024"@
    }
}

fn tproxy_route_text(i: usize) -> (r: &'static str)
    requires
        i < 6,
    ensures
        r@ == tproxy_route_line(i as int),
{
    if i == 0 {
        "ip -4 route replace local default dev lo table 80"
    } else if i == 1 {
        "ip -4 rule del fwmark 0x80/0xff table 80 pref 1024"
    } else if i == 2 {
        "ip -4 rule add fwmark 0x80/0xff table 80 pref 1024"
    } else if i == 3 {
        "ip -6 route replace local default dev lo table 80"
    } else if i == 4 {
        "ip -6 rule del fwmark 0x80/0xff table 80 pref 1024"
    } else {
        "ip -6 rule add fwmark 0x80/0xff table 80 pref 1024"
    }
}

/// The TPROXY table for the chosen protocols.
pub open spec fn tproxy_script(tcp: bool, udp: bool) -> Seq<char> {
    let pre = (if tcp { PRE_TCP@ } else { Seq::<char>::empty() }) + (if udp { PRE_UDP@ } else { Seq::<char>::empty() });
    let mark = (if tcp { MARK_TCP@ } else { Seq::<char>::empty() }) + (if udp { MARK_UDP@ } else { Seq::<char>::empty() });
    let out = (if tcp { OUT_TCP@ } else { Seq::<char>::empty() }) + (if udp { OUT_UDP@ } else { Seq::<char>::empty() });
    TPROXY_HEAD@ + pre + TPROXY_BYPASS@ + mark + TPROXY_OUTPUT_HEAD@ + out + TPROXY_TAIL@
}

/// The fw4 forward/input/postrouting rules admitting traffic of `dev`.
pub open spec fn fw4_script(dev: Seq<char>) -> Seq<char> {
    FW4_PART0@ + dev + FW4_PART1@ + dev + FW4_PART2@ + dev + FW4_PART3@ + dev + FW4_PART4@ + dev
        + FW4_PART5@ + dev + FW4_PART6@ + dev + FW4_PART7@
}

/// The TUN marking table for `dev` and the chosen protocols.
pub open spec fn tun_script(dev: Seq<char>, tcp: bool, udp: bool) -> Seq<char> {
    let rules = (if tcp { TUN_TCP@ } else { Seq::<char>::empty() }) + (if udp { TUN_UDP@ } else { Seq::<char>::empty() });
    TUN_HEAD@ + dev + TUN_PREROUTING_BYPASS@ + rules + TUN_OUTPUT_HEAD@ + dev + TUN_OUTPUT_BYPASS@ + rules + TUN_TAIL@
}

/// `piece` occurs in `text` at or after position `from`.
pub open spec fn occurs_from(text: Seq<char>, piece: Seq<char>, from: int) -> bool {
    exists|i: int| i >= from && #[trigger] occurs_at(text, piece, i)
}

/// `piece` occurs in `text` ending at or before position `to`.
pub open spec fn occurs_before(text: Seq<char>, piece: Seq<char>, to: int) -> bool {
    exists|i: int| #[trigger] occurs_at(text, piece, i) && i + piece.len() <= to
}

proof fn lemma_occurs_in(a: Seq<char>, x: Seq<char>, b: Seq<char>)
    ensures
        occurs_at(a + x + b, x, a.len() as int),
{
    assert((a + x + b).subrange(a.len() as int, (a.len() + x.len()) as int) =~= x);
}

/// The TPROXY table's `mangle_output` chain marks every steered protocol:
/// after the chain's header the script holds the TCP output marking rule
/// when TCP is steered and the UDP one when UDP is, so the router's own
/// traffic of that protocol is marked and proxied.
pub proof fn lemma_tproxy_output_marks(tcp: bool, udp: bool)
    ensures
        exists|h: int|
            #[trigger] occurs_at(tproxy_script(tcp, udp), TPROXY_OUTPUT_HEAD@, h) && (tcp ==> occurs_from(
                tproxy_script(tcp, udp),
                OUT_TCP@,
                h + TPROXY_OUTPUT_HEAD@.len(),
            )) && (udp ==> occurs_from(tproxy_script(tcp, udp), OUT_UDP@, h + TPROXY_OUTPUT_HEAD@.len())),
{
    let e = Seq::<char>::empty();
    let pre = (if tcp { PRE_TCP@ } else { e }) + (if udp { PRE_UDP@ } else { e });
    let mark = (if tcp { MARK_TCP@ } else { e }) + (if udp { MARK_UDP@ } else { e });
    let ot = if tcp { OUT_TCP@ } else { e };
    let ou = if udp { OUT_UDP@ } else { e };
    let a = TPROXY_HEAD@ + pre + TPROXY_BYPASS@ + mark;
    let s = tproxy_script(tcp, udp);
    let h = a.len() as int;
    let hl = TPROXY_OUTPUT_HEAD@.len();
    assert(s =~= a + TPROXY_OUTPUT_HEAD@ + (ot + ou + TPROXY_TAIL@));
    lemma_occurs_in(a, TPROXY_OUTPUT_HEAD@, ot + ou + TPROXY_TAIL@);
    if tcp {
        assert(s =~= (a + TPROXY_OUTPUT_HEAD@) + OUT_TCP@ + (ou + TPROXY_TAIL@));
        lemma_occurs_in(a + TPROXY_OUTPUT_HEAD@, OUT_TCP@, ou + TPROXY_TAIL@);
        assert(occurs_at(s, OUT_TCP@, h + hl));
    }
    if udp {
        assert(s =~= (a + TPROXY_OUTPUT_HEAD@ + ot) + OUT_UDP@ + TPROXY_TAIL@);
        lemma_occurs_in(a + TPROXY_OUTPUT_HEAD@ + ot, OUT_UDP@, TPROXY_TAIL@);
        assert(occurs_at(s, OUT_UDP@, h + hl + ot.len()));
    }
    assert(occurs_at(s, TPROXY_OUTPUT_HEAD@, h));
}

/// The TPROXY table's `mangle_prerouting` chain diverts every steered
/// protocol: before the `mangle_output` header the script holds, for TCP
/// (UDP) when it is steered, both the loopback TPROXY rule and the
/// marking TPROXY rule.
pub proof fn lemma_tproxy_prerouting_diverts(tcp: bool, udp: bool)
    ensures
        exists|h: int|
            #[trigger] occurs_at(tproxy_script(tcp, udp), TPROXY_OUTPUT_HEAD@, h) && (tcp ==> occurs_before(
                tproxy_script(tcp, udp),
                PRE_TCP@,
                h,
            ) && occurs_before(tproxy_script(tcp, udp), MARK_TCP@, h)) && (udp ==> occurs_before(
                tproxy_script(tcp, udp),
                PRE_UDP@,
                h,
            ) && occurs_before(tproxy_script(tcp, udp), MARK_UDP@, h)),
{
    let e = Seq::<char>::empty();
    let pt = if tcp { PRE_TCP@ } else { e };
    let pu = if udp { PRE_UDP@ } else { e };
    let mt = if tcp { MARK_TCP@ } else { e };
    let mu = if udp { MARK_UDP@ } else { e };
    let ot = if tcp { OUT_TCP@ } else { e };
    let ou = if udp { OUT_UDP@ } else { e };
    let rest = TPROXY_OUTPUT_HEAD@ + (ot + ou) + TPROXY_TAIL@;
    let s = tproxy_script(tcp, udp);
    let a = TPROXY_HEAD@ + (pt + pu) + TPROXY_BYPASS@ + (mt + mu);
    let h = a.len() as int;
    assert(s =~= a + TPROXY_OUTPUT_HEAD@ + (ot + ou + TPROXY_TAIL@));
    lemma_occurs_in(a, TPROXY_OUTPUT_HEAD@, ot + ou + TPROXY_TAIL@);
    if tcp {
        assert(s =~= TPROXY_HEAD@ + PRE_TCP@ + (pu + TPROXY_BYPASS@ + mt + mu + rest));
        lemma_occurs_in(TPROXY_HEAD@, PRE_TCP@, pu + TPROXY_BYPASS@ + mt + mu + rest);
        assert(occurs_at(s, PRE_TCP@, TPROXY_HEAD@.len() as int));
        assert(s =~= (TPROXY_HEAD@ + pt + pu + TPROXY_BYPASS@) + MARK_TCP@ + (mu + rest));
        lemma_occurs_in(TPROXY_HEAD@ + pt + pu + TPROXY_BYPASS@, MARK_TCP@, mu + rest);
        assert(occurs_at(s, MARK_TCP@, (TPROXY_HEAD@ + pt + pu + TPROXY_BYPASS@).len() as int));
    }
    if udp {
        assert(s =~= (TPROXY_HEAD@ + pt) + PRE_UDP@ + (TPROXY_BYPASS@ + mt + mu + rest));
        lemma_occurs_in(TPROXY_HEAD@ + pt, PRE_UDP@, TPROXY_BYPASS@ + mt + mu + rest);
        assert(occurs_at(s, PRE_UDP@, (TPROXY_HEAD@ + pt).len() as int));
        assert(s =~= (TPROXY_HEAD@ + pt + pu + TPROXY_BYPASS@ + mt) + MARK_UDP@ + rest);
        lemma_occurs_in(TPROXY_HEAD@ + pt + pu + TPROXY_BYPASS@ + mt, MARK_UDP@, rest);
        assert(occurs_at(s, MARK_UDP@, (TPROXY_HEAD@ + pt + pu + TPROXY_BYPASS@ + mt).len() as int));
    }
    assert(occurs_at(s, TPROXY_OUTPUT_HEAD@, h));
}

/// The TUN table marks every steered protocol in both of its chains: the
/// rule for TCP (UDP) stands before the `output` chain's header, in the
/// `prerouting` chain, and again after it, in the `output` chain.
pub proof fn lemma_tun_chains_mark(dev: Seq<char>, tcp: bool, udp: bool)
    ensures
        exists|h: int|
            #[trigger] occurs_at(tun_script(dev, tcp, udp), TUN_OUTPUT_HEAD@, h) && (tcp ==> occurs_before(
                tun_script(dev, tcp, udp),
                TUN_TCP@,
                h,
            ) && occurs_from(tun_script(dev, tcp, udp), TUN_TCP@, h + TUN_OUTPUT_HEAD@.len())) && (udp
                ==> occurs_before(tun_script(dev, tcp, udp), TUN_UDP@, h) && occurs_from(
                tun_script(dev, tcp, udp),
                TUN_UDP@,
                h + TUN_OUTPUT_HEAD@.len(),
            )),
{
    let e = Seq::<char>::empty();
    let rt = if tcp { TUN_TCP@ } else { e };
    let ru = if udp { TUN_UDP@ } else { e };
    let a = TUN_HEAD@ + dev + TUN_PREROUTING_BYPASS@;
    let s = tun_script(dev, tcp, udp);
    let h = (a + rt + ru).len() as int;
    assert(occurs_at(s, TUN_OUTPUT_HEAD@, h)) by {
        assert(s =~= (a + rt + ru) + TUN_OUTPUT_HEAD@ + (dev + TUN_OUTPUT_BYPASS@ + rt + ru + TUN_TAIL@));
        lemma_occurs_in(a + rt + ru, TUN_OUTPUT_HEAD@, dev + TUN_OUTPUT_BYPASS@ + rt + ru + TUN_TAIL@);
    }
    if tcp {
        lemma_tun_rule_twice(dev, tcp, udp, TUN_TCP@, a.len() as int, (a + rt + ru + TUN_OUTPUT_HEAD@ + dev + TUN_OUTPUT_BYPASS@).len() as int);
    }
    if udp {
        lemma_tun_rule_twice(dev, tcp, udp, TUN_UDP@, (a + rt).len() as int, (a + rt + ru + TUN_OUTPUT_HEAD@ + dev + TUN_OUTPUT_BYPASS@ + rt).len() as int);
    }
}

proof fn lemma_tun_rule_twice(dev: Seq<char>, tcp: bool, udp: bool, rule: Seq<char>, i: int, j: int)
    requires
        (tcp && rule == TUN_TCP@ && i == (TUN_HEAD@ + dev + TUN_PREROUTING_BYPASS@).len() && j == (TUN_HEAD@ + dev
            + TUN_PREROUTING_BYPASS@ + TUN_TCP@ + (if udp { TUN_UDP@ } else { Seq::<char>::empty() })
            + TUN_OUTPUT_HEAD@ + dev + TUN_OUTPUT_BYPASS@).len()) || (udp && rule == TUN_UDP@ && i == (TUN_HEAD@
            + dev + TUN_PREROUTING_BYPASS@ + (if tcp { TUN_TCP@ } else { Seq::<char>::empty() })).len() && j == (
        TUN_HEAD@ + dev + TUN_PREROUTING_BYPASS@ + (if tcp { TUN_TCP@ } else { Seq::<char>::empty() }) + TUN_UDP@
            + TUN_OUTPUT_HEAD@ + dev + TUN_OUTPUT_BYPASS@ + (if tcp { TUN_TCP@ } else { Seq::<char>::empty() })).len()),
    ensures
        occurs_at(tun_script(dev, tcp, udp), rule, i),
        occurs_at(tun_script(dev, tcp, udp), rule, j),
{
    let e = Seq::<char>::empty();
    let rt = if tcp { TUN_TCP@ } else { e };
    let ru = if udp { TUN_UDP@ } else { e };
    let a = TUN_HEAD@ + dev + TUN_PREROUTING_BYPASS@;
    let m = TUN_OUTPUT_HEAD@ + dev + TUN_OUTPUT_BYPASS@;
    let s = tun_script(dev, tcp, udp);
    assert(s =~= a + rt + ru + m + rt + ru + TUN_TAIL@);
    if tcp && rule == TUN_TCP@ && i == a.len() {
        assert(s =~= a + TUN_TCP@ + (ru + m + rt + ru + TUN_TAIL@));
        lemma_occurs_in(a, TUN_TCP@, ru + m + rt + ru + TUN_TAIL@);
        assert(s =~= (a + rt + ru + m) + TUN_TCP@ + (ru + TUN_TAIL@));
        lemma_occurs_in(a + rt + ru + m, TUN_TCP@, ru + TUN_TAIL@);
    } else {
        assert(s =~= (a + rt) + TUN_UDP@ + (m + rt + ru + TUN_TAIL@));
        lemma_occurs_in(a + rt, TUN_UDP@, m + rt + ru + TUN_TAIL@);
        assert(s =~= (a + rt + ru + m + rt) + TUN_UDP@ + TUN_TAIL@);
        lemma_occurs_in(a + rt + ru + m + rt, TUN_UDP@, TUN_TAIL@);
    }
}

fn push_if(v: &mut Vec<char>, cond: bool, s: &str)
    ensures
        final(v)@ == old(v)@ + (if cond { s@ } else { Seq::<char>::empty() }),
{
    if cond {
        push_str(v, s);
    } else {
        assert(old(v)@ + Seq::<char>::empty() =~= old(v)@);
    }
}

/// Builds the TPROXY table for the chosen protocols.
pub fn build_tproxy_script(tcp: bool, udp: bool) -> (r: String)
    ensures
        r@ == tproxy_script(tcp, udp),
{
    let mut v = chars_of(TPROXY_HEAD);
    push_if(&mut v, tcp, PRE_TCP);
    push_if(&mut v, udp, PRE_UDP);
    push_str(&mut v, TPROXY_BYPASS);
    push_if(&mut v, tcp, MARK_TCP);
    push_if(&mut v, udp, MARK_UDP);
    push_str(&mut v, TPROXY_OUTPUT_HEAD);
    push_if(&mut v, tcp, OUT_TCP);
    push_if(&mut v, udp, OUT_UDP);
    push_str(&mut v, TPROXY_TAIL);
    assert(v@ =~= tproxy_script(tcp, udp));
    string_of(&v)
}

/// Builds the fw4 rules for `dev`.
pub fn build_fw4_script(dev: &String) -> (r: String)
    ensures
        r@ == fw4_script(dev@),
{
    let d = chars_of(dev.as_str());
    let mut v = chars_of(FW4_PART0);
    push_chars(&mut v, &d);
    push_str(&mut v, FW4_PART1);
    push_chars(&mut v, &d);
    push_str(&mut v, FW4_PART2);
    push_chars(&mut v, &d);
    push_str(&mut v, FW4_PART3);
    push_chars(&mut v, &d);
    push_str(&mut v, FW4_PART4);
    push_chars(&mut v, &d);
    push_str(&mut v, FW4_PART5);
    push_chars(&mut v, &d);
    push_str(&mut v, FW4_PART6);
    push_chars(&mut v, &d);
    push_str(&mut v, FW4_PART7);
    assert(v@ =~= fw4_script(dev@));
    string_of(&v)
}

/// Builds the TUN marking table for `dev` and the chosen protocols.
pub fn build_tun_script(dev: &String, tcp: bool, udp: bool) -> (r: String)
    ensures
        r@ == tun_script(dev@, tcp, udp),
{
    let d = chars_of(dev.as_str());
    let mut v = chars_of(TUN_HEAD);
    push_chars(&mut v, &d);
    push_str(&mut v, TUN_PREROUTING_BYPASS);
    push_if(&mut v, tcp, TUN_TCP);
    push_if(&mut v, udp, TUN_UDP);
    push_str(&mut v, TUN_OUTPUT_HEAD);
    push_chars(&mut v, &d);
    push_str(&mut v, TUN_OUTPUT_BYPASS);
    push_if(&mut v, tcp, TUN_TCP);
    push_if(&mut v, udp, TUN_UDP);
    push_str(&mut v, TUN_TAIL);
    assert(v@ =~= tun_script(dev@, tcp, udp));
    string_of(&v)
}

/// Views of a sequence of commands.
pub open spec fn commands(v: Seq<Command>) -> Seq<CommandView> {
    Seq::new(v.len(), |i: int| v[i]@)
}

/// Chain a fw4 rule line belongs to, judged by the words it contains.
pub open spec fn fw4_rule_chain(line: Seq<char>) -> Seq<char> {
    if contains_seq(line, "forward"@) {
        "forward"@
    } else if contains_seq(line, "input"@) {
        "input"@
    } else if contains_seq(line, "srcnat"@) {
        "srcnat"@
    } else {
        Seq::<char>::empty()
    }
}

/// The handle number after the last `# handle ` of a listed rule line.
pub open spec fn fw4_handle(line: Seq<char>) -> Option<int> {
    let pos = last_index_of_seq(line, "# handle "@);
    if pos < 0 {
        None
    } else {
        match parse_u64(trim(line.skip(pos + 9))) {
            Err(_) => None,
            Ok(h) => Some(h),
        }
    }
}

/// The deletion of a rule of this service listed in `nft -a` output:
/// the line carries the service's comment, a `# handle N` annotation
/// and a known chain.
pub open spec fn fw4_deletion(line: Seq<char>) -> Option<CommandView> {
    if !contains_seq(line, "FusionTunX TUN"@) {
        None
    } else {
        match fw4_handle(line) {
            None => None,
            Some(h) => {
                let chain = fw4_rule_chain(line);
                if chain.len() == 0 {
                    None
                } else {
                    Some(
                        CommandView {
                            program: "nft"@,
                            args: seq![
                                "delete"@,
                                "rule"@,
                                "inet"@,
                                "fw4"@,
                                chain,
                                "handle"@,
                                decimal_nat(h as nat),
                            ],
                        },
                    )
                }
            },
        }
    }
}

/// Deletions for every rule of this service in a listing, in order.
pub open spec fn fw4_deletions(ls: Seq<Seq<char>>) -> Seq<CommandView>
    decreases ls.len(),
{
    if ls.len() == 0 {
        seq![]
    } else {
        match fw4_deletion(ls.last()) {
            Some(c) => fw4_deletions(ls.drop_last()).push(c),
            None => fw4_deletions(ls.drop_last()),
        }
    }
}

fn text(s: &str) -> (r: String)
    ensures
        r@ == s@,
{
    String::from_str(s)
}

/// The handle number of a listed rule line.
fn handle_of(line: &[char]) -> (r: Option<u64>)
    ensures
        match r {
            Some(h) => fw4_handle(line@) == Some(h as int),
            None => fw4_handle(line@) is None,
        },
{
    let pos = match rfind_str(line, "# handle ") {
        Some(p) => p,
        None => return None,
    };
    let n = line.len();
    proof {
        reveal_strlit("# handle ");
        crate::text::lemma_last_index_of_seq_props(line@, "# handle "@);
        assert("# handle "@.len() == 9);
    }
    let rest = slice_chars(line, pos + 9, line.len());
    assert(rest@ =~= line@.skip(pos + 9));
    let hs = trim_chars(&rest);
    match parse_u64_chars(&hs) {
        Ok(h) => Some(h),
        Err(_) => None,
    }
}

/// Chain of a listed rule line.
fn chain_of(line: &[char]) -> (r: &'static str)
    ensures
        r@ == fw4_rule_chain(line@),
{
    if contains_str(line, "forward") {
        "forward"
    } else if contains_str(line, "input") {
        "input"
    } else if contains_str(line, "srcnat") {
        "srcnat"
    } else {
        proof {
            reveal_strlit("");
            assert(""@ =~= Seq::<char>::empty());
        }
        ""
    }
}

/// The deletion of one listed rule of this service, if the line is one.
#[verifier::rlimit(40)]
fn fw4_deletion_of(line: &[char]) -> (r: Option<Command>)
    ensures
        match r {
            Some(c) => fw4_deletion(line@) == Some(c@),
            None => fw4_deletion(line@) is None,
        },
{
    if !contains_str(line, "FusionTunX TUN") {
        return None;
    }
    let h = match handle_of(line) {
        Some(h) => h,
        None => return None,
    };
    let chain = chain_of(line);
    if chain.is_empty() {
        return None;
    }
    let hd = decimal_u64_chars(h);
    let args = vec![
        text("delete"),
        text("rule"),
        text("inet"),
        text("fw4"),
        text(chain),
        text("handle"),
        string_of(&hd),
    ];
    let c = Command { program: text("nft"), args };
    assert(strs(c.args@) =~= seq!["delete"@, "rule"@, "inet"@, "fw4"@, chain@, "handle"@, decimal_nat(h as nat)]);
    assert(c@ =~= fw4_deletion(line@)->0);
    Some(c)
}

/// Deletions for every rule of this service in an `nft -a list table inet fw4` listing.
pub fn fw4_cleanup_commands(listing: &str) -> (r: Vec<Command>)
    ensures
        commands(r@) == fw4_deletions(lines(listing@)),
{
    let ls = lines_chars(&chars_of(listing));
    let ghost all = seqs_of(ls@);
    let mut out: Vec<Command> = Vec::new();
    let mut i: usize = 0;
    assert(all.take(0) =~= Seq::<Seq<char>>::empty());
    assert(commands(out@) =~= fw4_deletions(all.take(0)));
    while i < ls.len()
        invariant
            i <= ls@.len(),
            all == seqs_of(ls@),
            all == lines(listing@),
            commands(out@) == fw4_deletions(all.take(i as int)),
        decreases ls@.len() - i,
    {
        let ghost tk = all.take(i + 1);
        assert(tk.drop_last() =~= all.take(i as int));
        assert(tk.last() == ls@[i as int]@);
        if let Some(c) = fw4_deletion_of(&ls[i]) {
            let ghost before = commands(out@);
            out.push(c);
            assert(commands(out@) =~= before.push(out@.last()@));
        }
        i = i + 1;
    }
    assert(all.take(ls@.len() as int) =~= all);
    out
}

// ---------------------------------------------------------------------
// Sessions: the order in which commands and scripts are applied
// ---------------------------------------------------------------------

/// What the caller reports after performing a step.
#[derive(Debug)]
pub enum Feedback {
    /// The command or script succeeded; for a command, its standard output.
    Succeeded(String),
    /// It failed, with the error text.
    Failed(String),
}

/// Abstract value of a [`Feedback`].
pub enum FeedbackView {
    Succeeded(Seq<char>),
    Failed(Seq<char>),
}

impl View for Feedback {
    type V = FeedbackView;

    open spec fn view(&self) -> FeedbackView {
        match self {
            Feedback::Succeeded(o) => FeedbackView::Succeeded(o@),
            Feedback::Failed(e) => FeedbackView::Failed(e@),
        }
    }
}

/// How a session ended.
#[derive(Debug)]
pub enum Outcome {
    /// The work completed.
    Done,
    /// A script could not be applied; the error text.
    Failed(String),
    /// The answer of a probe.
    Answer(bool),
}

/// Abstract value of an [`Outcome`].
pub enum OutcomeView {
    Done,
    Failed(Seq<char>),
    Answer(bool),
}

impl View for Outcome {
    type V = OutcomeView;

    open spec fn view(&self) -> OutcomeView {
        match self {
            Outcome::Done => OutcomeView::Done,
            Outcome::Failed(e) => OutcomeView::Failed(e@),
            Outcome::Answer(b) => OutcomeView::Answer(*b),
        }
    }
}

/// What the caller is to do next.
#[derive(Debug)]
pub enum Step {
    /// Run a command and report its outcome.
    Run(Command),
    /// Feed a script to `nft -f -` and report its outcome.
    Apply(String),
    /// Wait this many milliseconds, then report success.
    Sleep(u64),
    /// The session is over.
    Finish(Outcome),
}

/// Abstract value of a [`Step`].
pub enum StepView {
    Run(CommandView),
    Apply(Seq<char>),
    Sleep(nat),
    Finish(OutcomeView),
}

impl View for Step {
    type V = StepView;

    open spec fn view(&self) -> StepView {
        match self {
            Step::Run(c) => StepView::Run(c@),
            Step::Apply(s) => StepView::Apply(s@),
            Step::Sleep(ms) => StepView::Sleep(*ms as nat),
            Step::Finish(o) => StepView::Finish(o@),
        }
    }
}

/// What a session was started for.
#[derive(Debug, Clone, Copy, PartialEq, Eq, Structural)]
pub enum Task {
    /// Install the configured routing (after removing any old one).
    Setup,
    /// Remove all routing of the service.
    Cleanup,
    /// Ask whether the OpenWrt `fw4` table exists.
    ProbeFw4,
    /// Ask whether the TUN policy route table is present.
    ProbeTun,
}

/// Where a session stands.
#[derive(Debug, Clone, Copy, PartialEq, Eq, Structural)]
pub enum Stage {
    CleanupFixed,
    FwProbe,
    FwList,
    FwDelete,
    Tproxy,
    TproxyRoutes,
    TunWait,
    TunPause,
    TunProbe,
    TunFw4,
    Tun,
    TunRoutes,
    Redirect,
    Probe,
    Over,
}

/// A routing task in progress.
#[derive(Debug)]
pub struct RoutingSession {
    task: Task,
    tproxy_tcp: bool,
    tproxy_udp: bool,
    tun_tcp: bool,
    tun_udp: bool,
    redirect: bool,
    device: String,
    stage: Stage,
    index: usize,
    pending: Vec<Command>,
    outcome: Outcome,
}

/// Abstract value of a [`RoutingSession`].
pub struct SessionView {
    pub task: Task,
    pub tproxy_tcp: bool,
    pub tproxy_udp: bool,
    pub tun_tcp: bool,
    pub tun_udp: bool,
    pub redirect: bool,
    pub device: Seq<char>,
    pub stage: Stage,
    pub index: int,
    pub pending: Seq<CommandView>,
    pub outcome: OutcomeView,
}

impl View for RoutingSession {
    type V = SessionView;

    closed spec fn view(&self) -> SessionView {
        SessionView {
            task: self.task,
            tproxy_tcp: self.tproxy_tcp,
            tproxy_udp: self.tproxy_udp,
            tun_tcp: self.tun_tcp,
            tun_udp: self.tun_udp,
            redirect: self.redirect,
            device: self.device@,
            stage: self.stage,
            index: self.index as int,
            pending: commands(self.pending@),
            outcome: self.outcome@,
        }
    }
}

/// Number of TPROXY policy-route commands.
pub open spec fn tproxy_route_count() -> int {
    6
}

/// Number of TUN policy-route commands.
pub open spec fn tun_route_count() -> int {
    3
}

/// How many times the TUN device is looked for.
pub open spec fn tun_wait_attempts() -> int {
    20
}

/// The session moved to `stage` at position `index`.
pub open spec fn at(s: SessionView, stage: Stage, index: int) -> SessionView {
    SessionView { stage, index, ..s }
}

/// The session ended with `o`.
pub open spec fn over(s: SessionView, o: OutcomeView) -> SessionView {
    SessionView { stage: Stage::Over, index: 0, outcome: o, ..s }
}

/// Where a setup goes once the REDIRECT stage is reached or skipped.
pub open spec fn after_tun(s: SessionView) -> SessionView {
    if s.redirect {
        at(s, Stage::Redirect, 0)
    } else {
        over(s, OutcomeView::Done)
    }
}

/// Where a setup goes once the TPROXY stage is over or skipped.
pub open spec fn after_tproxy(s: SessionView) -> SessionView {
    if s.tun_tcp || s.tun_udp {
        at(s, Stage::TunWait, 0)
    } else {
        after_tun(s)
    }
}

/// Where a session goes once the cleanup is over.
pub open spec fn after_cleanup(s: SessionView) -> SessionView {
    if s.task != Task::Setup {
        over(s, OutcomeView::Done)
    } else if s.tproxy_tcp || s.tproxy_udp {
        at(s, Stage::Tproxy, 0)
    } else {
        after_tproxy(s)
    }
}

/// Moves past stages whose commands are all done.
pub open spec fn settle(s: SessionView) -> SessionView {
    if s.stage == Stage::CleanupFixed && s.index >= 9 {
        at(s, Stage::FwProbe, 0)
    } else if s.stage == Stage::FwDelete && s.index >= s.pending.len() {
        after_cleanup(s)
    } else if s.stage == Stage::TproxyRoutes && s.index >= tproxy_route_count() {
        after_tproxy(s)
    } else if s.stage == Stage::TunRoutes && s.index >= tun_route_count() {
        after_tun(s)
    } else {
        s
    }
}

/// The `ip` command of one TUN policy-route position.
pub open spec fn tun_route_command(dev: Seq<char>, i: int) -> CommandView {
    if i == 0 {
        command_line("ip rule del fwmark 200/0xffffffff table 200 pref 100"@)
    } else if i == 1 {
        command_line("ip rule add fwmark 200/0xffffffff table 200 pref 100"@)
    } else {
        CommandView {
            program: command_line("ip route replace default dev"@).program,
            args: command_line("ip route replace default dev"@).args + seq![dev] + words("table 200"@),
        }
    }
}

/// The command probing for the device `dev`.
pub open spec fn link_probe(dev: Seq<char>) -> CommandView {
    CommandView {
        program: command_line("ip link show"@).program,
        args: command_line("ip link show"@).args + seq![dev],
    }
}

/// The step a (settled) session asks for.
pub open spec fn step_of(s: SessionView) -> StepView {
    match s.stage {
        Stage::CleanupFixed => StepView::Run(command_line(cleanup_line(s.index))),
        Stage::FwProbe => StepView::Run(command_line("nft list table inet fw4"@)),
        Stage::FwList => StepView::Run(command_line("nft -a list table inet fw4"@)),
        Stage::FwDelete => StepView::Run(s.pending[s.index]),
        Stage::Tproxy => StepView::Apply(tproxy_script(s.tproxy_tcp, s.tproxy_udp)),
        Stage::TproxyRoutes => StepView::Run(command_line(tproxy_route_line(s.index))),
        Stage::TunWait => StepView::Run(link_probe(s.device)),
        Stage::TunPause => StepView::Sleep(500),
        Stage::TunProbe => StepView::Run(command_line("nft list table inet fw4"@)),
        Stage::TunFw4 => StepView::Apply(fw4_script(s.device)),
        Stage::Tun => StepView::Apply(tun_script(s.device, s.tun_tcp, s.tun_udp)),
        Stage::TunRoutes => StepView::Run(tun_route_command(s.device, s.index)),
        Stage::Redirect => StepView::Apply(REDIRECT_SCRIPT@),
        Stage::Probe => StepView::Run(
            if s.task == Task::ProbeFw4 {
                command_line("nft list table inet fw4"@)
            } else {
                command_line("ip route show table 200"@)
            },
        ),
        Stage::Over => StepView::Finish(s.outcome),
    }
}

/// The session after the caller reports `fb` for the current step,
/// before finished stages are passed.
pub open spec fn transition(s: SessionView, fb: FeedbackView) -> SessionView {
    let ok = fb is Succeeded;
    match s.stage {
        Stage::CleanupFixed => at(s, Stage::CleanupFixed, s.index + 1),
        Stage::FwProbe => if ok {
            at(s, Stage::FwList, 0)
        } else {
            after_cleanup(s)
        },
        Stage::FwList => match fb {
            FeedbackView::Succeeded(listing) => SessionView {
                stage: Stage::FwDelete,
                index: 0,
                pending: fw4_deletions(lines(listing)),
                ..s
            },
            FeedbackView::Failed(_) => after_cleanup(s),
        },
        Stage::FwDelete => at(s, Stage::FwDelete, s.index + 1),
        Stage::Tproxy => match fb {
            FeedbackView::Succeeded(_) => at(s, Stage::TproxyRoutes, 0),
            FeedbackView::Failed(e) => over(s, OutcomeView::Failed(e)),
        },
        Stage::TproxyRoutes => at(s, Stage::TproxyRoutes, s.index + 1),
        Stage::TunWait => if ok {
            at(s, Stage::TunProbe, 0)
        } else {
            at(s, Stage::TunPause, s.index)
        },
        Stage::TunPause => if s.index + 1 < tun_wait_attempts() {
            at(s, Stage::TunWait, s.index + 1)
        } else {
            at(s, Stage::TunProbe, 0)
        },
        Stage::TunProbe => if ok {
            at(s, Stage::TunFw4, 0)
        } else {
            at(s, Stage::Tun, 0)
        },
        Stage::TunFw4 => at(s, Stage::Tun, 0),
        Stage::Tun => match fb {
            FeedbackView::Succeeded(_) => at(s, Stage::TunRoutes, 0),
            FeedbackView::Failed(e) => over(s, OutcomeView::Failed(e)),
        },
        Stage::TunRoutes => at(s, Stage::TunRoutes, s.index + 1),
        Stage::Redirect => match fb {
            FeedbackView::Succeeded(_) => over(s, OutcomeView::Done),
            FeedbackView::Failed(e) => over(s, OutcomeView::Failed(e)),
        },
        Stage::Probe => over(s, OutcomeView::Answer(ok)),
        Stage::Over => s,
    }
}

/// The session after the caller reports `fb` for the current step.
pub open spec fn advance(s: SessionView, fb: FeedbackView) -> SessionView {
    settle(transition(s, fb))
}

/// Every report keeps a well-formed session well-formed.
pub proof fn lemma_advance_wf(s: SessionView, fb: FeedbackView)
    requires
        session_wf(s),
    ensures
        session_wf(advance(s, fb)),
{
}

/// Position of a stage in the order sessions pass through them, latest lowest.
pub open spec fn stage_rank(st: Stage) -> int {
    match st {
        Stage::CleanupFixed => 14,
        Stage::FwProbe => 13,
        Stage::FwList => 12,
        Stage::FwDelete => 11,
        Stage::Tproxy => 10,
        Stage::TproxyRoutes => 9,
        Stage::TunWait => 8,
        Stage::TunPause => 8,
        Stage::TunProbe => 7,
        Stage::TunFw4 => 6,
        Stage::Tun => 5,
        Stage::TunRoutes => 4,
        Stage::Redirect => 3,
        Stage::Probe => 2,
        Stage::Over => 0,
    }
}

/// Steps left within the current stage.
pub open spec fn steps_left(s: SessionView) -> int {
    match s.stage {
        Stage::CleanupFixed => 9 - s.index,
        Stage::FwDelete => s.pending.len() - s.index,
        Stage::TproxyRoutes => tproxy_route_count() - s.index,
        Stage::TunRoutes => tun_route_count() - s.index,
        Stage::TunWait => 2 * (tun_wait_attempts() - s.index),
        Stage::TunPause => 2 * (tun_wait_attempts() - s.index) - 1,
        _ => 0,
    }
}

/// `a` lies strictly after `b`: an earlier-ranked stage, or the same
/// stage with fewer steps left.
pub open spec fn moved_on(a: SessionView, b: SessionView) -> bool {
    stage_rank(a.stage) < stage_rank(b.stage) || (stage_rank(a.stage) == stage_rank(b.stage)
        && steps_left(a) < steps_left(b))
}

/// Sessions always end: every report on an unfinished well-formed
/// session moves it strictly on in an order with no infinite descent
/// (stage ranks are finitely many and steps left never go below zero),
/// and a finished session stays finished with the same outcome.
pub proof fn lemma_session_terminates(s: SessionView, fb: FeedbackView)
    requires
        session_wf(s),
    ensures
        steps_left(s) >= 0,
        s.stage != Stage::Over ==> moved_on(advance(s, fb), s),
        s.stage == Stage::Over ==> advance(s, fb) == s,
{
}

/// A script that fails to apply ends the session with its error text.
pub proof fn lemma_failed_script_ends(s: SessionView, e: Seq<char>)
    requires
        session_wf(s),
        s.stage == Stage::Tproxy || s.stage == Stage::Tun || s.stage == Stage::Redirect,
    ensures
        advance(s, FeedbackView::Failed(e)).stage == Stage::Over,
        step_of(advance(s, FeedbackView::Failed(e))) == StepView::Finish(OutcomeView::Failed(e)),
{
}

/// A probe answers whether its command succeeded.
pub proof fn lemma_probe_answers(task: Task, fb: FeedbackView)
    requires
        task == Task::ProbeFw4 || task == Task::ProbeTun,
    ensures
        step_of(advance(plain_session(task), fb)) == StepView::Finish(OutcomeView::Answer(fb is Succeeded)),
{
}

/// Installing routing begins by removing the old rules.
pub proof fn lemma_setup_cleans_first(tcp: RoutingMode, udp: RoutingMode, device: Seq<char>)
    ensures
        step_of(setup_session(tcp, udp, device)) == step_of(plain_session(Task::Cleanup)),
        step_of(setup_session(tcp, udp, device)) == StepView::Run(command_line(cleanup_line(0))),
{
}

/// A failing command never fails a session: the outcome of commands is
/// ignored, only scripts that cannot be applied end a session in failure.
pub proof fn lemma_command_failures_tolerated(s: SessionView, e: Seq<char>)
    requires
        session_wf(s),
        !(s.outcome is Failed),
        step_of(s) is Run,
    ensures
        !(advance(s, FeedbackView::Failed(e)).outcome is Failed),
{
}

/// The stages a cleanup passes through, with nothing failed.
pub open spec fn cleanup_state(s: SessionView) -> bool {
    &&& s.task == Task::Cleanup
    &&& s.outcome == OutcomeView::Done
    &&& (s.stage == Stage::CleanupFixed || s.stage == Stage::FwProbe || s.stage == Stage::FwList
        || s.stage == Stage::FwDelete || s.stage == Stage::Over)
}

/// A cleanup never fails: it starts in a cleanup state, every report
/// keeps it in one, and a finished cleanup reports `Done`.
pub proof fn lemma_cleanup_never_fails(s: SessionView, fb: FeedbackView)
    requires
        session_wf(s),
        cleanup_state(s),
    ensures
        cleanup_state(plain_session(Task::Cleanup)),
        cleanup_state(advance(s, fb)),
        s.stage == Stage::Over ==> step_of(s) == StepView::Finish(OutcomeView::Done),
{
}

/// The session after the caller reports each feedback of `fbs` in turn.
pub open spec fn run(s: SessionView, fbs: Seq<FeedbackView>) -> SessionView
    decreases fbs.len(),
{
    if fbs.len() == 0 {
        s
    } else {
        run(advance(s, fbs[0]), fbs.drop_first())
    }
}

/// Every script the session asks to apply along the run is reported as
/// applied.
pub open spec fn scripts_succeed(s: SessionView, fbs: Seq<FeedbackView>) -> bool
    decreases fbs.len(),
{
    fbs.len() == 0 || ((step_of(s) is Apply ==> fbs[0] is Succeeded) && scripts_succeed(
        advance(s, fbs[0]),
        fbs.drop_first(),
    ))
}

/// The session asks, at some point of the run, to apply `script`.
pub open spec fn applies(s: SessionView, fbs: Seq<FeedbackView>, script: Seq<char>) -> bool
    decreases fbs.len(),
{
    fbs.len() > 0 && (step_of(s) == StepView::Apply(script) || applies(advance(s, fbs[0]), fbs.drop_first(), script))
}

/// Stages a setup passes before it applies the TPROXY table.
pub open spec fn before_tproxy(st: Stage) -> bool {
    st == Stage::CleanupFixed || st == Stage::FwProbe || st == Stage::FwList || st == Stage::FwDelete
        || st == Stage::Tproxy
}

/// Stages a setup passes before it applies the TUN table.
pub open spec fn before_tun(st: Stage) -> bool {
    before_tproxy(st) || st == Stage::TproxyRoutes || st == Stage::TunWait || st == Stage::TunPause
        || st == Stage::TunProbe || st == Stage::TunFw4 || st == Stage::Tun
}

/// Stages a setup passes before it applies the REDIRECT table.
pub open spec fn before_redirect(st: Stage) -> bool {
    before_tun(st) || st == Stage::TunRoutes || st == Stage::Redirect
}

proof fn lemma_reaches_apply(s: SessionView, fbs: Seq<FeedbackView>, which: int)
    requires
        session_wf(s),
        s.task == Task::Setup,
        which == 0 ==> (s.tproxy_tcp || s.tproxy_udp) && before_tproxy(s.stage),
        which == 1 ==> (s.tun_tcp || s.tun_udp) && before_tun(s.stage),
        which == 2 ==> s.redirect && before_redirect(s.stage),
        0 <= which <= 2,
        scripts_succeed(s, fbs),
        run(s, fbs).stage == Stage::Over,
    ensures
        which == 0 ==> applies(s, fbs, tproxy_script(s.tproxy_tcp, s.tproxy_udp)),
        which == 1 ==> applies(s, fbs, tun_script(s.device, s.tun_tcp, s.tun_udp)),
        which == 2 ==> applies(s, fbs, REDIRECT_SCRIPT@),
    decreases fbs.len(),
{
    if fbs.len() > 0 {
        let s2 = advance(s, fbs[0]);
        lemma_advance_wf(s, fbs[0]);
        if (which == 0 && s.stage == Stage::Tproxy) || (which == 1 && s.stage == Stage::Tun) || (which == 2
            && s.stage == Stage::Redirect) {
        } else {
            lemma_reaches_apply(s2, fbs.drop_first(), which);
        }
    }
}

/// Installing routing with TCP or UDP set to TPROXY applies the TPROXY
/// table for those protocols: every run that ends with each script
/// applied asks for it on the way.
pub proof fn lemma_setup_applies_tproxy(tcp: RoutingMode, udp: RoutingMode, device: Seq<char>, fbs: Seq<FeedbackView>)
    requires
        tcp == RoutingMode::TProxy || udp == RoutingMode::TProxy,
        scripts_succeed(setup_session(tcp, udp, device), fbs),
        run(setup_session(tcp, udp, device), fbs).stage == Stage::Over,
    ensures
        applies(setup_session(tcp, udp, device), fbs, tproxy_script(tcp == RoutingMode::TProxy, udp == RoutingMode::TProxy)),
{
    lemma_reaches_apply(setup_session(tcp, udp, device), fbs, 0);
}

/// Installing routing with TCP or UDP set to TUN applies the TUN table
/// for the configured device (`Meta` when none) and those protocols:
/// every run that ends with each script applied asks for it on the way,
/// also after a TPROXY setup for the other protocol.
pub proof fn lemma_setup_applies_tun(tcp: RoutingMode, udp: RoutingMode, device: Seq<char>, fbs: Seq<FeedbackView>)
    requires
        tcp == RoutingMode::Tun || udp == RoutingMode::Tun,
        scripts_succeed(setup_session(tcp, udp, device), fbs),
        run(setup_session(tcp, udp, device), fbs).stage == Stage::Over,
    ensures
        applies(
            setup_session(tcp, udp, device),
            fbs,
            tun_script(if device.len() == 0 { "Meta"@ } else { device }, tcp == RoutingMode::Tun, udp == RoutingMode::Tun),
        ),
{
    lemma_reaches_apply(setup_session(tcp, udp, device), fbs, 1);
}

/// Installing routing with TCP set to REDIRECT applies the REDIRECT
/// table: every run that ends with each script applied asks for it on
/// the way, also after TPROXY or TUN setups for UDP.
pub proof fn lemma_setup_applies_redirect(tcp: RoutingMode, udp: RoutingMode, device: Seq<char>, fbs: Seq<FeedbackView>)
    requires
        tcp == RoutingMode::Redirect,
        scripts_succeed(setup_session(tcp, udp, device), fbs),
        run(setup_session(tcp, udp, device), fbs).stage == Stage::Over,
    ensures
        applies(setup_session(tcp, udp, device), fbs, REDIRECT_SCRIPT@),
{
    lemma_reaches_apply(setup_session(tcp, udp, device), fbs, 2);
}

/// Well-formed sessions: settled, positions in range, and stages that
/// belong to the task.
pub open spec fn session_wf(s: SessionView) -> bool {
    &&& s.index >= 0
    &&& s.stage == Stage::CleanupFixed ==> s.index < 9 && s.task != Task::ProbeFw4 && s.task != Task::ProbeTun
    &&& s.stage == Stage::FwDelete ==> s.index < s.pending.len()
    &&& s.stage == Stage::TproxyRoutes ==> s.index < tproxy_route_count()
    &&& s.stage == Stage::TunRoutes ==> s.index < tun_route_count()
    &&& (s.stage == Stage::TunWait || s.stage == Stage::TunPause) ==> s.index < tun_wait_attempts()
    &&& s.stage == Stage::Probe ==> (s.task == Task::ProbeFw4 || s.task == Task::ProbeTun)
    &&& (s.task == Task::ProbeFw4 || s.task == Task::ProbeTun) ==> (s.stage == Stage::Probe
        || s.stage == Stage::Over)
}

/// The session installing `routing`: TPROXY for the protocols set to
/// TPROXY, TUN for those set to TUN, REDIRECT when TCP is set to
/// REDIRECT, all after a full cleanup.
pub open spec fn setup_session(tcp: RoutingMode, udp: RoutingMode, device: Seq<char>) -> SessionView {
    SessionView {
        task: Task::Setup,
        tproxy_tcp: tcp == RoutingMode::TProxy,
        tproxy_udp: udp == RoutingMode::TProxy,
        tun_tcp: tcp == RoutingMode::Tun,
        tun_udp: udp == RoutingMode::Tun,
        redirect: tcp == RoutingMode::Redirect,
        device: if device.len() == 0 {
            "Meta"@
        } else {
            device
        },
        stage: Stage::CleanupFixed,
        index: 0,
        pending: seq![],
        outcome: OutcomeView::Done,
    }
}

/// A session of `task` with nothing configured.
pub open spec fn plain_session(task: Task) -> SessionView {
    SessionView {
        task,
        tproxy_tcp: false,
        tproxy_udp: false,
        tun_tcp: false,
        tun_udp: false,
        redirect: false,
        device: Seq::<char>::empty(),
        stage: if task == Task::Cleanup {
            Stage::CleanupFixed
        } else {
            Stage::Probe
        },
        index: 0,
        pending: seq![],
        outcome: OutcomeView::Done,
    }
}

/// Issues nftables and `ip` commands for the service's traffic steering.
#[derive(Debug, Clone, Copy, Default)]
pub struct NftablesService;

impl NftablesService {
    /// A service handle.
    pub fn new() -> (r: Self)
        ensures
            r == NftablesService,
    {
        NftablesService
    }

    fn plain(task: Task) -> (r: RoutingSession)
        requires
            task != Task::Setup,
        ensures
            r@ == plain_session(task),
            session_wf(r@),
    {
        let r = RoutingSession {
            task,
            tproxy_tcp: false,
            tproxy_udp: false,
            tun_tcp: false,
            tun_udp: false,
            redirect: false,
            device: String::new(),
            stage: if task == Task::Cleanup {
                Stage::CleanupFixed
            } else {
                Stage::Probe
            },
            index: 0,
            pending: Vec::new(),
            outcome: Outcome::Done,
        };
        assert(commands(r.pending@) =~= Seq::<CommandView>::empty());
        r
    }

    /// Installs the configured routing: removes the old rules first, then
    /// sets up TPROXY, TUN and REDIRECT as the modes ask; the first
    /// failing script ends the session with its error.
    pub fn setup_routing(&self, routing: &RoutingConfig) -> (r: RoutingSession)
        ensures
            r@ == setup_session(routing.tcp, routing.udp, routing.tun_device@),
            session_wf(r@),
    {
        let device = if routing.tun_device.as_str().is_empty() {
            String::from_str("Meta")
        } else {
            routing.tun_device.clone()
        };
        let r = RoutingSession {
            task: Task::Setup,
            tproxy_tcp: routing.tcp == RoutingMode::TProxy,
            tproxy_udp: routing.udp == RoutingMode::TProxy,
            tun_tcp: routing.tcp == RoutingMode::Tun,
            tun_udp: routing.udp == RoutingMode::Tun,
            redirect: routing.tcp == RoutingMode::Redirect,
            device,
            stage: Stage::CleanupFixed,
            index: 0,
            pending: Vec::new(),
            outcome: Outcome::Done,
        };
        assert(commands(r.pending@) =~= Seq::<CommandView>::empty());
        r
    }

    /// Removes every table, rule and policy route of the service,
    /// including its rules in the OpenWrt `fw4` table.
    pub fn cleanup_all_routing(&self) -> (r: RoutingSession)
        ensures
            r@ == plain_session(Task::Cleanup),
            session_wf(r@),
    {
        Self::plain(Task::Cleanup)
    }

    /// Removes the TUN routing, which is the full cleanup.
    pub fn cleanup_tun_routing(&self) -> (r: RoutingSession)
        ensures
            r@ == plain_session(Task::Cleanup),
            session_wf(r@),
    {
        self.cleanup_all_routing()
    }

    /// Asks whether the OpenWrt `fw4` table exists.
    pub fn is_openwrt_fw4(&self) -> (r: RoutingSession)
        ensures
            r@ == plain_session(Task::ProbeFw4),
            session_wf(r@),
    {
        Self::plain(Task::ProbeFw4)
    }

    /// Asks whether the TUN policy route table can be listed.
    pub fn is_tun_routing_active(&self) -> (r: RoutingSession)
        ensures
            r@ == plain_session(Task::ProbeTun),
            session_wf(r@),
    {
        Self::plain(Task::ProbeTun)
    }
}

fn copy_command(c: &Command) -> (r: Command)
    ensures
        r@ == c@,
{
    let mut args: Vec<String> = Vec::new();
    let mut i: usize = 0;
    while i < c.args.len()
        invariant
            i <= c.args@.len(),
            strs(args@) == strs(c.args@).take(i as int),
        decreases c.args@.len() - i,
    {
        let ghost before = strs(args@);
        args.push(c.args[i].clone());
        assert(strs(args@) =~= before.push(c.args@[i as int]@));
        assert(strs(c.args@).take(i + 1) =~= strs(c.args@).take(i as int).push(c.args@[i as int]@));
        i = i + 1;
    }
    assert(strs(c.args@).take(c.args@.len() as int) =~= strs(c.args@));
    Command { program: c.program.clone(), args }
}

fn copy_outcome(o: &Outcome) -> (r: Outcome)
    ensures
        r@ == o@,
{
    match o {
        Outcome::Done => Outcome::Done,
        Outcome::Failed(e) => Outcome::Failed(e.clone()),
        Outcome::Answer(b) => Outcome::Answer(*b),
    }
}

impl RoutingSession {
    /// The step the session asks for now.
    pub fn step(&self) -> (r: Step)
        requires
            session_wf(self@),
        ensures
            r@ == step_of(self@),
    {
        match self.stage {
            Stage::CleanupFixed => Step::Run(command(cleanup_text(self.index))),
            Stage::FwProbe => Step::Run(command("nft list table inet fw4")),
            Stage::FwList => Step::Run(command("nft -a list table inet fw4")),
            Stage::FwDelete => {
                assert(commands(self.pending@)[self.index as int] == self.pending@[self.index as int]@);
                Step::Run(copy_command(&self.pending[self.index]))
            },
            Stage::Tproxy => Step::Apply(build_tproxy_script(self.tproxy_tcp, self.tproxy_udp)),
            Stage::TproxyRoutes => Step::Run(command(tproxy_route_text(self.index))),
            Stage::TunWait => {
                let c = command_with("ip link show", &self.device, "");
                proof {
                    reveal_strlit("");
                    assert(c@.args =~= link_probe(self.device@).args);
                }
                Step::Run(c)
            },
            Stage::TunPause => Step::Sleep(500),
            Stage::TunProbe => Step::Run(command("nft list table inet fw4")),
            Stage::TunFw4 => Step::Apply(build_fw4_script(&self.device)),
            Stage::Tun => Step::Apply(build_tun_script(&self.device, self.tun_tcp, self.tun_udp)),
            Stage::TunRoutes => {
                if self.index == 0 {
                    Step::Run(command("ip rule del fwmark 200/0xffffffff table 200 pref 100"))
                } else if self.index == 1 {
                    Step::Run(command("ip rule add fwmark 200/0xffffffff table 200 pref 100"))
                } else {
                    Step::Run(command_with("ip route replace default dev", &self.device, "table 200"))
                }
            },
            Stage::Redirect => Step::Apply(String::from_str(REDIRECT_SCRIPT)),
            Stage::Probe => {
                if self.task == Task::ProbeFw4 {
                    Step::Run(command("nft list table inet fw4"))
                } else {
                    Step::Run(command("ip route show table 200"))
                }
            },
            Stage::Over => Step::Finish(copy_outcome(&self.outcome)),
        }
    }

    fn finish(&mut self, o: Outcome)
        ensures
            final(self)@ == over(old(self)@, o@),
    {
        self.stage = Stage::Over;
        self.index = 0;
        self.outcome = o;
    }

    fn to_stage(&mut self, stage: Stage, index: usize)
        ensures
            final(self)@ == at(old(self)@, stage, index as int),
    {
        self.stage = stage;
        self.index = index;
    }

    fn tun_done(&mut self)
        ensures
            final(self)@ == after_tun(old(self)@),
    {
        if self.redirect {
            self.to_stage(Stage::Redirect, 0);
        } else {
            self.finish(Outcome::Done);
        }
    }

    fn tproxy_done(&mut self)
        ensures
            final(self)@ == after_tproxy(old(self)@),
    {
        if self.tun_tcp || self.tun_udp {
            self.to_stage(Stage::TunWait, 0);
        } else {
            self.tun_done();
        }
    }

    fn cleanup_done(&mut self)
        ensures
            final(self)@ == after_cleanup(old(self)@),
    {
        if self.task != Task::Setup {
            self.finish(Outcome::Done);
        } else if self.tproxy_tcp || self.tproxy_udp {
            self.to_stage(Stage::Tproxy, 0);
        } else {
            self.tproxy_done();
        }
    }

    fn settle_now(&mut self)
        ensures
            final(self)@ == settle(old(self)@),
    {
        if self.stage == Stage::CleanupFixed && self.index >= 9 {
            self.to_stage(Stage::FwProbe, 0);
        } else if self.stage == Stage::FwDelete && self.index >= self.pending.len() {
            self.cleanup_done();
        } else if self.stage == Stage::TproxyRoutes && self.index >= 6 {
            self.tproxy_done();
        } else if self.stage == Stage::TunRoutes && self.index >= 3 {
            self.tun_done();
        }
    }

    /// Takes the caller's report on the current step and moves on.
    pub fn resume(&mut self, fb: Feedback)
        requires
            session_wf(old(self)@),
        ensures
            final(self)@ == advance(old(self)@, fb@),
            session_wf(final(self)@),
    {
        proof {
            lemma_advance_wf(self@, fb@);
        }
        self.apply_feedback(fb);
        self.settle_now();
    }

    fn apply_feedback(&mut self, fb: Feedback)
        requires
            session_wf(old(self)@),
        ensures
            final(self)@ == transition(old(self)@, fb@),
    {
        let ok = match &fb {
            Feedback::Succeeded(_) => true,
            Feedback::Failed(_) => false,
        };
        match self.stage {
            Stage::CleanupFixed => {
                let i = self.index + 1;
                self.to_stage(Stage::CleanupFixed, i);
            },
            Stage::FwProbe => {
                if ok {
                    self.to_stage(Stage::FwList, 0);
                } else {
                    self.cleanup_done();
                }
            },
            Stage::FwList => {
                match fb {
                    Feedback::Succeeded(listing) => {
                        self.pending = fw4_cleanup_commands(listing.as_str());
                        self.to_stage(Stage::FwDelete, 0);
                    },
                    Feedback::Failed(_) => {
                        self.cleanup_done();
                    },
                }
            },
            Stage::FwDelete => {
                let n = self.pending.len();
                assert(self.index < n);
                let i = self.index + 1;
                self.to_stage(Stage::FwDelete, i);
            },
            Stage::Tproxy => {
                match fb {
                    Feedback::Succeeded(_) => self.to_stage(Stage::TproxyRoutes, 0),
                    Feedback::Failed(e) => self.finish(Outcome::Failed(e)),
                }
            },
            Stage::TproxyRoutes => {
                let i = self.index + 1;
                self.to_stage(Stage::TproxyRoutes, i);
            },
            Stage::TunWait => {
                if ok {
                    self.to_stage(Stage::TunProbe, 0);
                } else {
                    let i = self.index;
                    self.to_stage(Stage::TunPause, i);
                }
            },
            Stage::TunPause => {
                if self.index + 1 < 20 {
                    let i = self.index + 1;
                    self.to_stage(Stage::TunWait, i);
                } else {
                    self.to_stage(Stage::TunProbe, 0);
                }
            },
            Stage::TunProbe => {
                if ok {
                    self.to_stage(Stage::TunFw4, 0);
                } else {
                    self.to_stage(Stage::Tun, 0);
                }
            },
            Stage::TunFw4 => self.to_stage(Stage::Tun, 0),
            Stage::Tun => {
                match fb {
                    Feedback::Succeeded(_) => self.to_stage(Stage::TunRoutes, 0),
                    Feedback::Failed(e) => self.finish(Outcome::Failed(e)),
                }
            },
            Stage::TunRoutes => {
                let i = self.index + 1;
                self.to_stage(Stage::TunRoutes, i);
            },
            Stage::Redirect => {
                match fb {
                    Feedback::Succeeded(_) => self.finish(Outcome::Done),
                    Feedback::Failed(e) => self.finish(Outcome::Failed(e)),
                }
            },
            Stage::Probe => self.finish(Outcome::Answer(ok)),
            Stage::Over => {},
        }
    }

    /// Whether the session is over.
    pub fn is_over(&self) -> (r: bool)
        ensures
            r == (self@.stage == Stage::Over),
    {
        self.stage == Stage::Over
    }
}

} // verus!
