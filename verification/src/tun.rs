//! Rewriting the `tun:` section of a mihomo YAML configuration, line by
//! line, to turn the TUN device on or off.
use vstd::prelude::*;
use crate::text::{
    trim, trim_start, trim_end, occurs_at, lines, join, starts_with, contains_seq, index_of, is_ws, seqs_of, chars_of, lines_chars,
    join_chars, trim_chars, starts_with_str, contains_str, find_char, slice_chars, push_str,
    push_chars, string_of, is_whitespace, lemma_index_of, copy_chars,
};

verus! {

/// `s` with every non-overlapping occurrence of `from`, scanned left to
/// right, replaced by `to` (`str::replace`); an empty `from` matches
/// before every character and at the end.
pub open spec fn replace_all(s: Seq<char>, from: Seq<char>, to: Seq<char>) -> Seq<char>
    decreases s.len(),
{
    if from.len() == 0 {
        if s.len() == 0 {
            to
        } else {
            to + seq![s[0]] + replace_all(s.drop_first(), from, to)
        }
    } else if s.len() == 0 {
        s
    } else if starts_with(s, from) {
        to + replace_all(s.skip(from.len() as int), from, to)
    } else {
        seq![s[0]] + replace_all(s.drop_first(), from, to)
    }
}

/// Whether a line begins with a space or a tab.
pub open spec fn indented(line: Seq<char>) -> bool {
    line.len() > 0 && (line[0] == ' ' || line[0] == '\t')
}

/// Number of leading whitespace characters of a line.
pub open spec fn leading_ws(line: Seq<char>) -> nat
    decreases line.len(),
{
    if line.len() > 0 && is_ws(line[0]) {
        1 + leading_ws(line.drop_first())
    } else {
        0
    }
}

/// One line of the disabling pass: the rewritten line and whether the
/// scan is still inside a `tun:` section.
pub open spec fn disable_step(in_tun: bool, line: Seq<char>) -> (Seq<char>, bool) {
    let t = trim(line);
    if t == "tun:"@ {
        (line, true)
    } else if in_tun && starts_with(t, "enable:"@) {
        (replace_all(line, "enable: true"@, "enable: false"@), false)
    } else if in_tun && t.len() > 0 && !indented(line) {
        (line, false)
    } else {
        (line, in_tun)
    }
}

/// The disabling pass over lines, from a given section state.
pub open spec fn disable_lines(ls: Seq<Seq<char>>, in_tun: bool) -> Seq<Seq<char>>
    decreases ls.len(),
{
    if ls.len() == 0 {
        seq![]
    } else {
        let (l, st) = disable_step(in_tun, ls[0]);
        seq![l] + disable_lines(ls.drop_first(), st)
    }
}

/// A configuration with the first `enable:` line of each `tun:` section
/// switched from `enable: true` to `enable: false`; the lines are joined
/// with `\n`.
pub open spec fn tun_disabled(config: Seq<char>) -> Seq<char> {
    join(disable_lines(lines(config), false), "\n"@)
}

/// Scan state of the device-field search: inside a section, and found.
pub open spec fn device_scan(ls: Seq<Seq<char>>, in_tun: bool, found: bool) -> bool
    decreases ls.len(),
{
    if ls.len() == 0 {
        found
    } else {
        let line = ls[0];
        let t = trim(line);
        if t == "tun:"@ {
            device_scan(ls.drop_first(), true, found)
        } else if in_tun && t.len() > 0 && !indented(line) {
            device_scan(ls.drop_first(), false, found)
        } else if in_tun && t.len() > 0 && starts_with(t, "device:"@) {
            device_scan(ls.drop_first(), in_tun, true)
        } else {
            device_scan(ls.drop_first(), in_tun, found)
        }
    }
}

/// Whether some `tun:` section already has a `device:` line.
pub open spec fn has_device_field(ls: Seq<Seq<char>>) -> bool {
    device_scan(ls, false, false)
}

/// State of the enabling pass: inside a section, device line present or
/// written, and the indentation last seen in the section.
pub struct EnableState {
    pub in_tun: bool,
    pub has_device: bool,
    pub indent: Seq<char>,
}

/// A `device:` line pointed at `device`: everything up to its first `:`,
/// a space, and the name.
pub open spec fn device_rewrite(line: Seq<char>, device: Seq<char>) -> Seq<char> {
    let idx = index_of(line, ':');
    if idx >= 0 {
        line.take(idx + 1) + " "@ + device
    } else {
        line
    }
}

/// The lines one input line becomes in the enabling pass, and the next state.
pub open spec fn enable_step(s: EnableState, line: Seq<char>, device: Seq<char>) -> (
    Seq<Seq<char>>,
    EnableState,
) {
    let t = trim(line);
    if t == "tun:"@ {
        (seq![line], EnableState { in_tun: true, ..s })
    } else {
        let in_tun = if s.in_tun && t.len() > 0 && !indented(line) {
            false
        } else {
            s.in_tun
        };
        if !in_tun {
            (seq![line], EnableState { in_tun, ..s })
        } else {
            let indent = if indented(line) {
                line.take(leading_ws(line) as int)
            } else {
                s.indent
            };
            if starts_with(t, "enable:"@) {
                let l = if contains_seq(line, "false"@) {
                    replace_all(line, "enable: false"@, "enable: true"@)
                } else {
                    line
                };
                if !s.has_device {
                    (
                        seq![l, indent + "device: "@ + device],
                        EnableState { in_tun, has_device: true, indent },
                    )
                } else {
                    (seq![l], EnableState { in_tun, has_device: s.has_device, indent })
                }
            } else if starts_with(t, "device:"@) {
                (seq![device_rewrite(line, device)], EnableState { in_tun, has_device: s.has_device, indent })
            } else {
                (seq![line], EnableState { in_tun, has_device: s.has_device, indent })
            }
        }
    }
}

/// The enabling pass over lines, from a given state.
pub open spec fn enable_lines(ls: Seq<Seq<char>>, s: EnableState, device: Seq<char>) -> Seq<
    Seq<char>,
>
    decreases ls.len(),
{
    if ls.len() == 0 {
        seq![]
    } else {
        let (out, s2) = enable_step(s, ls[0], device);
        out + enable_lines(ls.drop_first(), s2, device)
    }
}

/// A configuration with each `tun:` section's `enable: false` switched to
/// `enable: true`, each `device:` line in a section pointed at `device`,
/// and, when no section had a device line, one written after the first
/// `enable:` line of a section; the lines are joined with `\n`.
pub open spec fn tun_enabled(config: Seq<char>, device: Seq<char>) -> Seq<char> {
    let ls = lines(config);
    join(
        enable_lines(ls, EnableState { in_tun: false, has_device: has_device_field(ls), indent: "  "@ }, device),
        "\n"@,
    )
}

/// Disabling keeps every line in place and changes only `enable:`
/// lines, by turning `enable: true` into `enable: false`.
pub proof fn lemma_disable_shape(ls: Seq<Seq<char>>, in_tun: bool)
    ensures
        disable_lines(ls, in_tun).len() == ls.len(),
        forall|i: int|
            0 <= i < ls.len() ==> #[trigger] disable_lines(ls, in_tun)[i] == ls[i] || (starts_with(
                trim(ls[i]),
                "enable:"@,
            ) && disable_lines(ls, in_tun)[i] == replace_all(ls[i], "enable: true"@, "enable: false"@)),
    decreases ls.len(),
{
    if ls.len() > 0 {
        let (l, st) = disable_step(in_tun, ls[0]);
        lemma_disable_shape(ls.drop_first(), st);
        let out = disable_lines(ls, in_tun);
        assert forall|i: int| 0 <= i < ls.len() implies #[trigger] out[i] == ls[i] || (starts_with(
            trim(ls[i]),
            "enable:"@,
        ) && out[i] == replace_all(ls[i], "enable: true"@, "enable: false"@)) by {
            if i > 0 {
                assert(out[i] == disable_lines(ls.drop_first(), st)[i - 1]);
                assert(ls[i] == ls.drop_first()[i - 1]);
            }
        }
    }
}

/// Enabling keeps every line, in order, and adds at most one line, and
/// none when a section already had a device line.
pub proof fn lemma_enable_length(ls: Seq<Seq<char>>, s: EnableState, device: Seq<char>)
    ensures
        ls.len() <= enable_lines(ls, s, device).len() <= ls.len() + if s.has_device {
            0int
        } else {
            1
        },
    decreases ls.len(),
{
    if ls.len() > 0 {
        let (out, s2) = enable_step(s, ls[0], device);
        lemma_enable_length(ls.drop_first(), s2, device);
        assert(s.has_device ==> s2.has_device);
        assert(out.len() == 1 || (out.len() == 2 && !s.has_device && s2.has_device));
    }
}

/// Some line is a `tun:` section header.
pub open spec fn has_tun_section(ls: Seq<Seq<char>>) -> bool {
    exists|i: int| 0 <= i < ls.len() && trim(#[trigger] ls[i]) == "tun:"@
}

/// Without a `tun:` section both passes keep every line as it is, so the
/// text only has its line endings normalised.
pub proof fn lemma_no_section_untouched(ls: Seq<Seq<char>>, device: Seq<char>, has_device: bool, indent: Seq<char>)
    requires
        !has_tun_section(ls),
    ensures
        disable_lines(ls, false) == ls,
        enable_lines(ls, EnableState { in_tun: false, has_device, indent }, device) == ls,
    decreases ls.len(),
{
    if ls.len() > 0 {
        assert(trim(ls[0]) != "tun:"@);
        assert(!has_tun_section(ls.drop_first())) by {
            if has_tun_section(ls.drop_first()) {
                let i = choose|i: int| 0 <= i < ls.drop_first().len() && trim(#[trigger] ls.drop_first()[i]) == "tun:"@;
                assert(ls.drop_first()[i] == ls[i + 1]);
            }
        }
        lemma_no_section_untouched(ls.drop_first(), device, has_device, indent);
        assert(seq![ls[0]] + ls.drop_first() =~= ls);
    }
}

/// Whether a scan is inside a `tun:` section once it has read `line`.
pub open spec fn section_after(in_tun: bool, line: Seq<char>) -> bool {
    let t = trim(line);
    if t == "tun:"@ {
        true
    } else if in_tun && t.len() > 0 && !indented(line) {
        false
    } else {
        in_tun
    }
}

/// Whether a scan is inside a `tun:` section once it has read `ls`.
pub open spec fn section_end(ls: Seq<Seq<char>>, in_tun: bool) -> bool
    decreases ls.len(),
{
    if ls.len() == 0 {
        in_tun
    } else {
        section_end(ls.drop_first(), section_after(in_tun, ls[0]))
    }
}

/// `line` is an `enable:` line inside a `tun:` section.
pub open spec fn section_enable(in_tun: bool, line: Seq<char>) -> bool {
    trim(line) != "tun:"@ && section_after(in_tun, line) && starts_with(trim(line), "enable:"@)
}

/// `line` is a `device:` line inside a `tun:` section.
pub open spec fn section_device(in_tun: bool, line: Seq<char>) -> bool {
    trim(line) != "tun:"@ && section_after(in_tun, line) && starts_with(trim(line), "device:"@)
}

/// Some line of `ls` is an `enable:` line inside a `tun:` section.
pub open spec fn has_section_enable(ls: Seq<Seq<char>>, in_tun: bool) -> bool
    decreases ls.len(),
{
    if ls.len() == 0 {
        false
    } else {
        section_enable(in_tun, ls[0]) || has_section_enable(ls.drop_first(), section_after(in_tun, ls[0]))
    }
}

/// The state of the enabling pass once it has read `ls`.
pub open spec fn enable_end(ls: Seq<Seq<char>>, s: EnableState, device: Seq<char>) -> EnableState
    decreases ls.len(),
{
    if ls.len() == 0 {
        s
    } else {
        enable_end(ls.drop_first(), enable_step(s, ls[0], device).1, device)
    }
}

/// Whether every `enable:` line the enabling pass rewrites comes out
/// without `enable: false` (a line such as `enable: falsenable: false`
/// does not).
pub open spec fn enable_rewrites_settle(ls: Seq<Seq<char>>, s: EnableState, device: Seq<char>) -> bool
    decreases ls.len(),
{
    if ls.len() == 0 {
        true
    } else {
        let (out, s2) = enable_step(s, ls[0], device);
        (section_enable(s.in_tun, ls[0]) && out[0] != ls[0] ==> !contains_seq(out[0], "enable: false"@))
            && enable_rewrites_settle(ls.drop_first(), s2, device)
    }
}

proof fn lemma_enable_step_state(s: EnableState, line: Seq<char>, device: Seq<char>)
    ensures
        enable_step(s, line, device).1.in_tun == section_after(s.in_tun, line),
        enable_step(s, line, device).1.has_device == (s.has_device || section_enable(s.in_tun, line)),
{
}

proof fn lemma_lines_concat(a: Seq<Seq<char>>, b: Seq<Seq<char>>, s: EnableState, device: Seq<char>)
    ensures
        enable_lines(a + b, s, device) == enable_lines(a, s, device) + enable_lines(b, enable_end(a, s, device), device),
        enable_end(a + b, s, device) == enable_end(b, enable_end(a, s, device), device),
    decreases a.len(),
{
    if a.len() == 0 {
        assert(a + b =~= b);
        assert(enable_lines(a, s, device) + enable_lines(b, s, device) =~= enable_lines(b, s, device));
    } else {
        let (out, s2) = enable_step(s, a[0], device);
        assert((a + b)[0] == a[0]);
        assert((a + b).drop_first() =~= a.drop_first() + b);
        lemma_lines_concat(a.drop_first(), b, s2, device);
        assert(out + (enable_lines(a.drop_first(), s2, device) + enable_lines(b, enable_end(a, s, device), device))
            =~= (out + enable_lines(a.drop_first(), s2, device)) + enable_lines(b, enable_end(a, s, device), device));
    }
}

proof fn lemma_scan_concat(a: Seq<Seq<char>>, b: Seq<Seq<char>>, in_tun: bool, found: bool)
    ensures
        device_scan(a + b, in_tun, found) == device_scan(b, section_end(a, in_tun), device_scan(a, in_tun, found)),
        section_end(a + b, in_tun) == section_end(b, section_end(a, in_tun)),
        has_section_enable(a + b, in_tun) == (has_section_enable(a, in_tun) || has_section_enable(
            b,
            section_end(a, in_tun),
        )),
    decreases a.len(),
{
    if a.len() == 0 {
        assert(a + b =~= b);
    } else {
        assert((a + b)[0] == a[0]);
        assert((a + b).drop_first() =~= a.drop_first() + b);
        reveal_strlit("device:");
        let t2 = section_after(in_tun, a[0]);
        let f2 = found || section_device(in_tun, a[0]);
        lemma_scan_concat(a.drop_first(), b, t2, f2);
        assert(device_scan(a, in_tun, found) == device_scan(a.drop_first(), t2, f2));
        assert(device_scan(a + b, in_tun, found) == device_scan(a.drop_first() + b, t2, f2));
    }
}

proof fn lemma_scan_found(ls: Seq<Seq<char>>, in_tun: bool, found: bool)
    ensures
        device_scan(ls, in_tun, found) == (found || device_scan(ls, in_tun, false)),
    decreases ls.len(),
{
    if ls.len() > 0 {
        reveal_strlit("device:");
        let t2 = section_after(in_tun, ls[0]);
        let d = section_device(in_tun, ls[0]);
        lemma_scan_found(ls.drop_first(), t2, found || d);
        lemma_scan_found(ls.drop_first(), t2, d);
        assert(device_scan(ls, in_tun, found) == device_scan(ls.drop_first(), t2, found || d));
        assert(device_scan(ls, in_tun, false) == device_scan(ls.drop_first(), t2, d));
    }
}

proof fn lemma_one_line(l: Seq<char>, in_tun: bool, found: bool)
    ensures
        section_end(seq![l], in_tun) == section_after(in_tun, l),
        has_section_enable(seq![l], in_tun) == section_enable(in_tun, l),
        device_scan(seq![l], in_tun, found) == (found || section_device(in_tun, l)),
{
    reveal_strlit("device:");
    let e = Seq::<Seq<char>>::empty();
    assert(seq![l].drop_first() =~= e);
    assert(seq![l][0] == l);
    assert(section_end(e, section_after(in_tun, l)) == section_after(in_tun, l));
    assert(!has_section_enable(e, section_after(in_tun, l)));
    assert(section_end(seq![l], in_tun) == section_end(e, section_after(in_tun, l)));
    assert(has_section_enable(seq![l], in_tun) == (section_enable(in_tun, l) || has_section_enable(e, section_after(in_tun, l))));
    let f2 = found || section_device(in_tun, l);
    assert(device_scan(e, section_after(in_tun, l), f2) == f2);
    assert(device_scan(seq![l], in_tun, found) == device_scan(e, section_after(in_tun, l), f2));
}

/// The lines the enabling pass makes of one line are read by the scans as
/// that line is: same section state after them, an `enable:` line in a
/// section exactly when it was one, and a `device:` line in a section
/// when it was one or when the pass wrote one.
proof fn lemma_block_scans(s: EnableState, line: Seq<char>, device: Seq<char>)
    ensures
        section_end(enable_step(s, line, device).0, s.in_tun) == section_after(s.in_tun, line),
        has_section_enable(enable_step(s, line, device).0, s.in_tun) == section_enable(s.in_tun, line),
        device_scan(enable_step(s, line, device).0, s.in_tun, false) == (section_device(s.in_tun, line) || (
        !s.has_device && section_enable(s.in_tun, line))),
{
    reveal_strlit("enable:");
    reveal_strlit("device:");
    reveal_strlit("enable: false");
    reveal_strlit("enable: true");
    let t = s.in_tun;
    let out = enable_step(s, line, device).0;
    let tl = trim(line);
    if starts_with(tl, "enable:"@) && starts_with(tl, "device:"@) {
        assert(tl.take(7)[0] == tl[0]);
        assert(tl.take(7)[0] == tl[0]);
    }
    if tl == "tun:"@ || !section_after(t, line) {
        lemma_one_line(line, t, false);
    } else if starts_with(tl, "enable:"@) {
        let l = if contains_seq(line, "false"@) {
            replace_all(line, "enable: false"@, "enable: true"@)
        } else {
            line
        };
        assert("enable: true"@.take(7) =~= "enable:"@);
        lemma_enable_kind(line, "enable: false"@, "enable: true"@);
        assert(same_kind(line, l));
        lemma_one_line(l, t, false);
        if !s.has_device {
            lemma_leading_ws(line);
            let dl = line.take(leading_ws(line) as int) + "device: "@ + device;
            lemma_written_device_line(line, device);
            assert(out == seq![l, dl]);
            assert(seq![l, dl] =~= seq![l] + seq![dl]);
            lemma_scan_concat(seq![l], seq![dl], t, false);
            lemma_one_line(dl, true, section_device(t, l));
            lemma_scan_found(seq![dl], true, section_device(t, l));
        } else {
            assert(out == seq![l]);
        }
    } else if starts_with(tl, "device:"@) {
        lemma_device_kind(line, device);
        lemma_one_line(device_rewrite(line, device), t, false);
    } else {
        lemma_one_line(line, t, false);
    }
}

/// Once a device line exists, the enabling pass leaves the lines it made
/// of one line as they are and reaches the same section state.
proof fn lemma_block_stable(s: EnableState, b: EnableState, line: Seq<char>, device: Seq<char>)
    requires
        b.in_tun == s.in_tun,
        b.has_device,
        section_enable(s.in_tun, line) && enable_step(s, line, device).0[0] != line ==> !contains_seq(
            enable_step(s, line, device).0[0],
            "enable: false"@,
        ),
    ensures
        enable_lines(enable_step(s, line, device).0, b, device) == enable_step(s, line, device).0,
        enable_end(enable_step(s, line, device).0, b, device).in_tun == section_after(s.in_tun, line),
        enable_end(enable_step(s, line, device).0, b, device).has_device,
{
    reveal_strlit("enable:");
    reveal_strlit("device:");
    reveal_strlit("enable: false");
    reveal_strlit("enable: true");
    let t = s.in_tun;
    let out = enable_step(s, line, device).0;
    let tl = trim(line);
    if starts_with(tl, "enable:"@) && starts_with(tl, "device:"@) {
        assert(tl.take(7)[0] == tl[0]);
        assert(tl.take(7)[0] == tl[0]);
    }
    if tl == "tun:"@ || !section_after(t, line) {
        assert(out == seq![line]);
        let (o2, b2) = enable_step(b, line, device);
        assert(o2 == seq![line]);
        lemma_single_pass(b, line, device);
    } else if starts_with(tl, "enable:"@) {
        let l = if contains_seq(line, "false"@) {
            replace_all(line, "enable: false"@, "enable: true"@)
        } else {
            line
        };
        assert("enable: true"@.take(7) =~= "enable:"@);
        lemma_enable_kind(line, "enable: false"@, "enable: true"@);
        assert(out[0] == l);
        let l2 = if contains_seq(l, "false"@) {
            replace_all(l, "enable: false"@, "enable: true"@)
        } else {
            l
        };
        if l != line {
            lemma_replace_absent(l, "enable: false"@, "enable: true"@);
        }
        assert(l2 == l);
        let (o2, b2) = enable_step(b, l, device);
        assert(o2 == seq![l]);
        assert(b2.in_tun && b2.has_device);
        lemma_single_pass(b, l, device);
        if !s.has_device {
            lemma_leading_ws(line);
            let dl = line.take(leading_ws(line) as int) + "device: "@ + device;
            lemma_written_device_line(line, device);
            assert(out == seq![l, dl]);
            assert(seq![l, dl] =~= seq![l] + seq![dl]);
            lemma_lines_concat(seq![l], seq![dl], b, device);
            let (o3, b3) = enable_step(b2, dl, device);
            assert(o3 == seq![dl]);
            lemma_single_pass(b2, dl, device);
            assert(seq![l] + seq![dl] =~= seq![l, dl]);
        } else {
            assert(out == seq![l]);
        }
    } else if starts_with(tl, "device:"@) {
        lemma_device_kind(line, device);
        let l = device_rewrite(line, device);
        assert(out == seq![l]);
        let (o2, b2) = enable_step(b, l, device);
        assert(o2 == seq![l]);
        lemma_single_pass(b, l, device);
    } else {
        assert(out == seq![line]);
        let (o2, b2) = enable_step(b, line, device);
        assert(o2 == seq![line]);
        lemma_single_pass(b, line, device);
    }
}

/// The enabling pass over a single line.
proof fn lemma_single_pass(s: EnableState, line: Seq<char>, device: Seq<char>)
    ensures
        enable_lines(seq![line], s, device) == enable_step(s, line, device).0,
        enable_end(seq![line], s, device) == enable_step(s, line, device).1,
{
    let e = Seq::<Seq<char>>::empty();
    let (o, s2) = enable_step(s, line, device);
    assert(seq![line].drop_first() =~= e);
    assert(seq![line][0] == line);
    assert(enable_lines(e, s2, device) == e);
    assert(enable_end(e, s2, device) == s2);
    assert(enable_lines(seq![line], s, device) == o + enable_lines(e, s2, device));
    assert(o + e =~= o);
    assert(enable_end(seq![line], s, device) == enable_end(e, s2, device));
}

/// How the scans read the output of the enabling pass: the same section
/// states and `enable:` lines as its input, and a `device:` line in a
/// section when the input had one or the pass wrote one.
proof fn lemma_pass_scans(ls: Seq<Seq<char>>, s: EnableState, device: Seq<char>)
    ensures
        section_end(enable_lines(ls, s, device), s.in_tun) == section_end(ls, s.in_tun),
        has_section_enable(enable_lines(ls, s, device), s.in_tun) == has_section_enable(ls, s.in_tun),
        device_scan(enable_lines(ls, s, device), s.in_tun, false) == (device_scan(ls, s.in_tun, false) || (
        !s.has_device && has_section_enable(ls, s.in_tun))),
    decreases ls.len(),
{
    if ls.len() > 0 {
        reveal_strlit("device:");
        let t = s.in_tun;
        let l = ls[0];
        let (out, s1) = enable_step(s, l, device);
        let rest = ls.drop_first();
        let r1 = enable_lines(rest, s1, device);
        assert(enable_lines(ls, s, device) == out + r1);
        lemma_enable_step_state(s, l, device);
        lemma_block_scans(s, l, device);
        lemma_scan_concat(out, r1, t, false);
        lemma_pass_scans(rest, s1, device);
        let t1 = section_after(t, l);
        let f1 = device_scan(out, t, false);
        lemma_scan_found(r1, t1, f1);
        lemma_scan_found(rest, t1, section_device(t, l));
        assert(device_scan(ls, t, false) == device_scan(rest, t1, section_device(t, l)));
    }
}

/// Once a device line exists, a second enabling pass over the output of
/// a first one whose rewrites settle changes nothing.
proof fn lemma_pass_stable(ls: Seq<Seq<char>>, s: EnableState, b: EnableState, device: Seq<char>)
    requires
        enable_rewrites_settle(ls, s, device),
        b.in_tun == s.in_tun,
        b.has_device,
    ensures
        enable_lines(enable_lines(ls, s, device), b, device) == enable_lines(ls, s, device),
    decreases ls.len(),
{
    if ls.len() > 0 {
        let l = ls[0];
        let (out, s1) = enable_step(s, l, device);
        let rest = ls.drop_first();
        let r1 = enable_lines(rest, s1, device);
        assert(enable_lines(ls, s, device) == out + r1);
        lemma_enable_step_state(s, l, device);
        lemma_block_stable(s, b, l, device);
        lemma_lines_concat(out, r1, b, device);
        let b1 = enable_end(out, b, device);
        lemma_pass_stable(rest, s1, b1, device);
    }
}

/// Without `enable:` lines in a section the enabling pass writes no
/// device line, so whether one was known makes no difference.
proof fn lemma_pass_no_add(ls: Seq<Seq<char>>, s: EnableState, s2: EnableState, device: Seq<char>)
    requires
        s.in_tun == s2.in_tun,
        s.indent == s2.indent,
        !has_section_enable(ls, s.in_tun),
    ensures
        enable_lines(ls, s, device) == enable_lines(ls, s2, device),
    decreases ls.len(),
{
    if ls.len() > 0 {
        let l = ls[0];
        let (o1, n1) = enable_step(s, l, device);
        let (o2, n2) = enable_step(s2, l, device);
        lemma_enable_step_state(s, l, device);
        lemma_enable_step_state(s2, l, device);
        assert(o1 == o2);
        assert(n1.indent == n2.indent);
        lemma_pass_no_add(ls.drop_first(), n1, n2, device);
    }
}

/// The state the enabling pass starts from on `ls`.
pub open spec fn enable_start(ls: Seq<Seq<char>>) -> EnableState {
    EnableState { in_tun: false, has_device: has_device_field(ls), indent: "  "@ }
}

/// The output lines of a pass, joined and split into lines again, give
/// back the same lines, or are a lone empty line (joined, empty text, on
/// which a second pass changes nothing). Neither holds when a line before
/// the last ends in `\r` or when the last of two or more lines is empty.
pub open spec fn reads_back(ls: Seq<Seq<char>>) -> bool {
    lines(join(ls, "\n"@)) == ls || ls == seq![Seq::<char>::empty()]
}

/// Turning the TUN device on twice is turning it on once, for every
/// configuration except those on which it fails: where a rewritten
/// `enable:` line still holds `enable: false` (such as
/// `enable: falsenable: false`), or where the output does not read back
/// as its lines (a configuration ending in a blank line, or with a line
/// ending in `\r` before a line break).
pub proof fn lemma_enable_idempotent(config: Seq<char>, device: Seq<char>)
    requires
        enable_rewrites_settle(lines(config), enable_start(lines(config)), device),
        reads_back(enable_lines(lines(config), enable_start(lines(config)), device)),
    ensures
        tun_enabled(tun_enabled(config, device), device) == tun_enabled(config, device),
{
    let l0 = lines(config);
    let s0 = enable_start(l0);
    let l1 = enable_lines(l0, s0, device);
    lemma_pass_scans(l0, s0, device);
    let h1 = has_device_field(l1);
    let b = EnableState { in_tun: false, has_device: true, indent: "  "@ };
    lemma_pass_stable(l0, s0, b, device);
    if l1 == seq![Seq::<char>::empty()] {
        lemma_empty_text_passes(device);
        assert(join(l1, "\n"@) == Seq::<char>::empty());
    } else {
        if !h1 {
            lemma_pass_no_add(l1, enable_start(l1), b, device);
        }
        assert(enable_lines(l1, enable_start(l1), device) == l1);
    }
}

/// Empty text has no lines, so both passes leave it empty.
proof fn lemma_empty_text_passes(device: Seq<char>)
    ensures
        tun_enabled(Seq::<char>::empty(), device) == Seq::<char>::empty(),
        tun_disabled(Seq::<char>::empty()) == Seq::<char>::empty(),
{
    reveal(lines);
    assert(lines(Seq::<char>::empty()) == Seq::<Seq<char>>::empty());
}

/// Whether every line the disabling pass rewrites comes out without
/// `enable: true` (a line such as `enable: truenable: true` does not).
pub open spec fn rewrites_settle(ls: Seq<Seq<char>>, in_tun: bool) -> bool
    decreases ls.len(),
{
    if ls.len() == 0 {
        true
    } else {
        let (l, st) = disable_step(in_tun, ls[0]);
        (l != ls[0] ==> !contains_seq(l, "enable: true"@)) && rewrites_settle(ls.drop_first(), st)
    }
}

/// Disabling lines whose rewrites settle is idempotent: a second pass
/// changes nothing and passes through the same section states.
pub proof fn lemma_disable_lines_idempotent(ls: Seq<Seq<char>>, in_tun: bool)
    requires
        rewrites_settle(ls, in_tun),
    ensures
        disable_lines(disable_lines(ls, in_tun), in_tun) == disable_lines(ls, in_tun),
    decreases ls.len(),
{
    if ls.len() > 0 {
        let (l, st) = disable_step(in_tun, ls[0]);
        lemma_disable_step_stable(in_tun, ls[0]);
        lemma_disable_lines_idempotent(ls.drop_first(), st);
        let out = disable_lines(ls, in_tun);
        assert(out[0] == l);
        assert(out.drop_first() =~= disable_lines(ls.drop_first(), st));
    }
}

/// Turning the TUN device off twice is turning it off once, for every
/// configuration except those on which it fails: where a rewritten line
/// still holds `enable: true` (such as `enable: truenable: true`), or
/// where the output does not read back as its lines (a configuration
/// ending in a blank line, or with a line ending in `\r` before a line
/// break).
pub proof fn lemma_disable_idempotent(config: Seq<char>)
    requires
        rewrites_settle(lines(config), false),
        reads_back(disable_lines(lines(config), false)),
    ensures
        tun_disabled(tun_disabled(config)) == tun_disabled(config),
{
    if disable_lines(lines(config), false) == seq![Seq::<char>::empty()] {
        lemma_empty_text_passes(Seq::<char>::empty());
        assert(join(disable_lines(lines(config), false), "\n"@) == Seq::<char>::empty());
    }
    lemma_disable_lines_idempotent(lines(config), false);
}

/// A line the disabling pass leaves in place, or rewrites into a line
/// without `enable: true`, gets the same treatment again.
proof fn lemma_disable_step_stable(in_tun: bool, line: Seq<char>)
    requires
        disable_step(in_tun, line).0 != line ==> !contains_seq(disable_step(in_tun, line).0, "enable: true"@),
    ensures
        disable_step(in_tun, disable_step(in_tun, line).0) == disable_step(in_tun, line),
{
    let t = trim(line);
    if t == "tun:"@ {
    } else if in_tun && starts_with(t, "enable:"@) {
        let l2 = replace_all(line, "enable: true"@, "enable: false"@);
        reveal_strlit("enable: true");
        reveal_strlit("enable: false");
        reveal_strlit("enable:");
        assert("enable: false"@.take(7) =~= "enable:"@);
        lemma_enable_line_rewritten(line, "enable: true"@, "enable: false"@);
        if l2 != line {
            lemma_replace_absent(l2, "enable: true"@, "enable: false"@);
        }
    }
}

/// Rewriting an `enable:` line with a pattern that begins `en` and a
/// replacement that begins `enable:` keeps it an `enable:` line, indented
/// as before.
proof fn lemma_enable_line_rewritten(line: Seq<char>, from: Seq<char>, to: Seq<char>)
    requires
        starts_with(trim(line), "enable:"@),
        from.len() >= 2,
        from[0] == 'e',
        from[1] == 'n',
        starts_with(to, "enable:"@),
    ensures
        starts_with(trim(replace_all(line, from, to)), "enable:"@),
        trim(replace_all(line, from, to)) != "tun:"@,
        trim(replace_all(line, from, to))[0] == 'e',
        indented(replace_all(line, from, to)) == indented(line),
{
    reveal_strlit("enable:");
    reveal_strlit("tun:");
    let e = "enable:"@;
    crate::text::lemma_trim_start_shape(line);
    let x = trim_start(line);
    lemma_trim_start_ws(line);
    let k = choose|k: int| 0 <= k <= line.len() && x == line.skip(k) && forall|j: int| 0 <= j < k ==> is_ws(#[trigger] line[j]);
    crate::text::lemma_trim_end_shape(x);
    let m = choose|m: int| 0 <= m <= x.len() && trim_end(x) == x.take(m);
    assert(starts_with(x, e)) by {
        assert(x.take(m).take(7) =~= x.take(7));
    }
    let w = line.take(k);
    assert(line =~= w + x);
    assert forall|j: int| 0 <= j < w.len() implies w[j] != from[0] by {
        assert(is_ws(line[j]));
    }
    lemma_replace_prefix(w, x, from, to);
    let y = replace_all(x, from, to);
    lemma_replace_keeps_enable(x, from, to);
    assert(y.take(7)[0] == y[0]);
    assert(e[0] == 'e');
    assert(y[0] == 'e');
    let z = w + y;
    assert(z.skip(k) =~= y);
    assert forall|j: int| 0 <= j < k implies is_ws(z[j]) by {
        assert(z[j] == line[j]);
    }
    crate::text::lemma_trim_start_skip(z, k);
    assert(trim_start(y) == y);
    lemma_trim_end_keeps_prefix(y, e);
    assert(trim(z) == trim_end(y));
    assert(trim_end(y).take(7)[0] == trim_end(y)[0]);
    assert(trim(z)[0] == 'e');
    assert("tun:"@[0] == 't');
    if k > 0 {
        assert(z[0] == line[0]);
    } else {
        assert(line[0] == x[0]);
        assert(x.take(7)[0] == x[0]);
        assert(z[0] == y[0]);
    }
}

/// Two lines the passes treat alike: both or neither a section header,
/// blank, indented, an `enable:` line, a `device:` line.
pub open spec fn same_kind(a: Seq<char>, b: Seq<char>) -> bool {
    &&& (trim(a) == "tun:"@) == (trim(b) == "tun:"@)
    &&& (trim(a).len() > 0) == (trim(b).len() > 0)
    &&& indented(a) == indented(b)
    &&& starts_with(trim(a), "enable:"@) == starts_with(trim(b), "enable:"@)
    &&& starts_with(trim(a), "device:"@) == starts_with(trim(b), "device:"@)
}

/// An `enable:` line keeps its kind when rewritten.
proof fn lemma_enable_kind(line: Seq<char>, from: Seq<char>, to: Seq<char>)
    requires
        starts_with(trim(line), "enable:"@),
        from.len() >= 2,
        from[0] == 'e',
        from[1] == 'n',
        starts_with(to, "enable:"@),
    ensures
        same_kind(line, replace_all(line, from, to)),
{
    reveal_strlit("enable:");
    reveal_strlit("device:");
    reveal_strlit("tun:");
    lemma_enable_line_rewritten(line, from, to);
    let t = trim(line);
    let t2 = trim(replace_all(line, from, to));
    assert(t.take(7)[0] == t[0]);
    assert(t2.take(7)[0] == t2[0]);
    if starts_with(t, "device:"@) {
        assert(t.take(7)[0] == t[0]);
    }
    if starts_with(t2, "device:"@) {
        assert(t2.take(7)[0] == t2[0]);
    }
}

/// A line made of whitespace `w`, then `device:` and whatever follows:
/// its first `:` ends `device:`, and it keeps its kind and shape when
/// pointed at a device.
proof fn lemma_device_shape(w: Seq<char>, rest: Seq<char>, device: Seq<char>)
    requires
        forall|j: int| 0 <= j < w.len() ==> is_ws(#[trigger] w[j]),
        starts_with(rest, "device:"@),
    ensures
        index_of(w + rest, ':') == w.len() + 6,
        device_rewrite(w + rest, device) == w + "device:"@ + " "@ + device,
        starts_with(trim(w + rest), "device:"@),
        trim(w + rest) != "tun:"@,
        !starts_with(trim(w + rest), "enable:"@),
        (w.len() > 0 ==> (w + rest)[0] == w[0]) && (w.len() == 0 ==> (w + rest)[0] == 'd'),
{
    reveal_strlit("device:");
    reveal_strlit("enable:");
    reveal_strlit("tun:");
    let l = w + rest;
    let k = w.len() as int;
    assert(rest.take(7) =~= "device:"@);
    assert forall|i: int| 0 <= i < 7 implies rest[i] == "device:"@[i] by {
        assert(rest.take(7)[i] == rest[i]);
    }
    assert forall|j: int| 0 <= j < k + 6 implies l[j] != ':' by {
        if j < k {
            assert(is_ws(w[j]));
            assert(l[j] == w[j]);
        } else {
            assert(l[j] == rest[j - k]);
        }
    }
    assert(l[k + 6] == rest[6]);
    crate::text::lemma_index_of_is(l, ':', k + 6);
    assert(l.take(k + 7) =~= w + "device:"@);
    // trimming
    assert forall|j: int| 0 <= j < k implies is_ws(l[j]) by {
        assert(l[j] == w[j]);
    }
    crate::text::lemma_trim_start_skip(l, k);
    assert(l.skip(k) =~= rest);
    assert(!is_ws(rest[0]));
    assert(trim_start(rest) == rest);
    lemma_trim_end_keeps_prefix(rest, "device:"@);
    let t = trim(l);
    assert(t == trim_end(rest));
    assert(t.take(7)[0] == t[0]);
    assert(t[0] == 'd');
    assert("tun:"@[0] == 't');
    if starts_with(t, "enable:"@) {
        assert(t.take(7)[0] == t[0]);
    }
}

/// Pointing a `device:` line at a device keeps its kind and indentation,
/// and pointing the result at the device again changes nothing.
proof fn lemma_device_kind(line: Seq<char>, device: Seq<char>)
    requires
        starts_with(trim(line), "device:"@),
    ensures
        same_kind(line, device_rewrite(line, device)),
        device_rewrite(device_rewrite(line, device), device) == device_rewrite(line, device),
{
    reveal_strlit("device:");
    crate::text::lemma_trim_start_shape(line);
    let x = trim_start(line);
    lemma_trim_start_ws(line);
    let k = choose|k: int| 0 <= k <= line.len() && x == line.skip(k) && forall|j: int| 0 <= j < k ==> is_ws(#[trigger] line[j]);
    crate::text::lemma_trim_end_shape(x);
    let m = choose|m: int| 0 <= m <= x.len() && trim_end(x) == x.take(m);
    assert(starts_with(x, "device:"@)) by {
        assert(x.take(m).take(7) =~= x.take(7));
    }
    let w = line.take(k);
    assert forall|j: int| 0 <= j < w.len() implies is_ws(#[trigger] w[j]) by {
        assert(w[j] == line[j]);
    }
    assert(line =~= w + x);
    lemma_device_shape(w, x, device);
    let l2 = device_rewrite(line, device);
    let rest2 = "device:"@ + " "@ + device;
    assert(l2 =~= w + rest2);
    assert(rest2.take(7) =~= "device:"@);
    lemma_device_shape(w, rest2, device);
    assert(w + "device:"@ + " "@ + device =~= w + rest2);
    assert(trim(line).len() > 0) by {
        assert(trim(line).take(7).len() == 7);
    }
    assert(trim(l2).len() > 0) by {
        assert(trim(l2).take(7).len() == 7);
    }
}

/// The leading whitespace of a line is whitespace, and an indented line has some.
proof fn lemma_leading_ws(line: Seq<char>)
    ensures
        leading_ws(line) <= line.len(),
        forall|j: int| 0 <= j < leading_ws(line) ==> is_ws(#[trigger] line[j]),
        indented(line) ==> leading_ws(line) >= 1,
    decreases line.len(),
{
    if line.len() > 0 && is_ws(line[0]) {
        lemma_leading_ws(line.drop_first());
        assert forall|j: int| 0 <= j < leading_ws(line) implies is_ws(#[trigger] line[j]) by {
            if j > 0 {
                assert(line[j] == line.drop_first()[j - 1]);
            }
        }
    }
}

/// The device line the enabling pass writes after an indented `enable:`
/// line is an indented `device:` line that pointing at the device keeps.
proof fn lemma_written_device_line(line: Seq<char>, device: Seq<char>)
    requires
        indented(line),
    ensures
        ({
            let d = line.take(leading_ws(line) as int) + "device: "@ + device;
            &&& device_rewrite(d, device) == d
            &&& indented(d)
            &&& trim(d).len() > 0
            &&& trim(d) != "tun:"@
            &&& !starts_with(trim(d), "enable:"@)
            &&& starts_with(trim(d), "device:"@)
        }),
{
    reveal_strlit("device: ");
    reveal_strlit("device:");
    reveal_strlit(" ");
    assert("device: "@ =~= "device:"@ + " "@);
    lemma_leading_ws(line);
    let w = line.take(leading_ws(line) as int);
    assert forall|j: int| 0 <= j < w.len() implies is_ws(#[trigger] w[j]) by {
        assert(w[j] == line[j]);
    }
    let rest = "device: "@ + device;
    assert(rest.take(7) =~= "device:"@);
    lemma_device_shape(w, rest, device);
    assert(w + "device:"@ + " "@ + device =~= w + rest);
    assert(w + "device: "@ + device =~= w + rest);
    assert((w + rest)[0] == line[0]);
    assert(trim(w + rest).take(7).len() == 7);
}

/// `trim_start` drops exactly a run of leading whitespace.
proof fn lemma_trim_start_ws(s: Seq<char>)
    ensures
        exists|k: int| 0 <= k <= s.len() && trim_start(s) == s.skip(k) && forall|j: int| 0 <= j < k ==> is_ws(#[trigger] s[j]),
    decreases s.len(),
{
    if s.len() > 0 && is_ws(s[0]) {
        lemma_trim_start_ws(s.drop_first());
        let k = choose|k: int| 0 <= k <= s.drop_first().len() && trim_start(s.drop_first()) == s.drop_first().skip(k)
            && forall|j: int| 0 <= j < k ==> is_ws(#[trigger] s.drop_first()[j]);
        assert(s.drop_first().skip(k) =~= s.skip(k + 1));
        assert forall|j: int| 0 <= j < k + 1 implies is_ws(#[trigger] s[j]) by {
            if j > 0 {
                assert(s[j] == s.drop_first()[j - 1]);
            }
        }
    } else {
        assert(s.skip(0) =~= s);
    }
}

/// Trailing whitespace never cuts into a prefix that ends in a
/// non-whitespace character.
proof fn lemma_trim_end_keeps_prefix(s: Seq<char>, p: Seq<char>)
    requires
        starts_with(s, p),
        p.len() > 0,
        !is_ws(p.last()),
    ensures
        starts_with(trim_end(s), p),
    decreases s.len(),
{
    if s.len() > 0 && is_ws(s.last()) {
        if s.len() == p.len() {
            assert(s.take(p.len() as int) =~= s);
            assert(s.last() == p.last());
        }
        assert(s.drop_last().take(p.len() as int) =~= s.take(p.len() as int));
        lemma_trim_end_keeps_prefix(s.drop_last(), p);
    }
}

/// Text without an occurrence of `from` is left as it is.
proof fn lemma_replace_absent(s: Seq<char>, from: Seq<char>, to: Seq<char>)
    requires
        from.len() > 0,
        !contains_seq(s, from),
    ensures
        replace_all(s, from, to) == s,
    decreases s.len(),
{
    if s.len() > 0 {
        if starts_with(s, from) {
            assert(s.subrange(0, from.len() as int) =~= s.take(from.len() as int));
            assert(occurs_at(s, from, 0));
        } else {
            assert forall|i: int| !occurs_at(s.drop_first(), from, i) by {
                if occurs_at(s.drop_first(), from, i) {
                    assert(s.drop_first().subrange(i, i + from.len()) =~= s.subrange(i + 1, i + 1 + from.len()));
                    assert(occurs_at(s, from, i + 1));
                }
            }
            lemma_replace_absent(s.drop_first(), from, to);
            assert(seq![s[0]] + s.drop_first() =~= s);
        }
    }
}

/// Characters that cannot begin `from` are copied as they are.
proof fn lemma_replace_prefix(w: Seq<char>, r: Seq<char>, from: Seq<char>, to: Seq<char>)
    requires
        from.len() > 0,
        forall|j: int| 0 <= j < w.len() ==> w[j] != from[0],
    ensures
        replace_all(w + r, from, to) == w + replace_all(r, from, to),
    decreases w.len(),
{
    let s = w + r;
    if w.len() > 0 {
        assert(s[0] == w[0]);
        if starts_with(s, from) {
            assert(s.take(from.len() as int)[0] == s[0]);
        }
        assert(s.drop_first() =~= w.drop_first() + r);
        lemma_replace_prefix(w.drop_first(), r, from, to);
        assert(seq![s[0]] + (w.drop_first() + replace_all(r, from, to)) =~= w + replace_all(r, from, to));
    } else {
        assert(s =~= r);
        assert(w + replace_all(r, from, to) =~= replace_all(r, from, to));
    }
}

/// Text that begins with `enable:` still does after replacing a pattern
/// that begins `en` by text that begins `enable:`.
proof fn lemma_replace_keeps_enable(x: Seq<char>, from: Seq<char>, to: Seq<char>)
    requires
        starts_with(x, "enable:"@),
        from.len() >= 2,
        from[0] == 'e',
        from[1] == 'n',
        starts_with(to, "enable:"@),
    ensures
        starts_with(replace_all(x, from, to), "enable:"@),
{
    reveal_strlit("enable:");
    let e = "enable:"@;
    assert(x.take(7) =~= e);
    if starts_with(x, from) {
        let y = to + replace_all(x.skip(from.len() as int), from, to);
        assert(y.take(7) =~= to.take(7));
    } else {
        assert forall|i: int| 0 <= i < 7 implies x[i] == e[i] by {
            assert(x.take(7)[i] == x[i]);
        }
        assert(x[0] == 'e' && x[1] == 'n' && x[2] == 'a' && x[3] == 'b' && x[4] == 'l' && x[5] == 'e' && x[6] == ':');
        let w = x.subrange(1, 5);
        let rest = x.skip(5);
        assert(x.drop_first() =~= w + rest);
        assert forall|j: int| 0 <= j < w.len() implies w[j] != from[0] by {
            assert(w[j] == x[j + 1]);
        }
        lemma_replace_prefix(w, rest, from, to);
        // `e:` does not begin the pattern
        assert(!starts_with(rest, from)) by {
            if starts_with(rest, from) {
                assert(rest.take(from.len() as int)[1] == rest[1]);
                assert(rest[1] == x[6]);
            }
        }
        let r1 = replace_all(rest.drop_first(), from, to);
        assert(replace_all(rest, from, to) == seq![rest[0]] + r1);
        let w2 = seq![rest.drop_first()[0]];
        assert(rest.drop_first() =~= w2 + rest.drop_first().drop_first());
        assert(w2[0] == ':');
        lemma_replace_prefix(w2, rest.drop_first().drop_first(), from, to);
        let y = replace_all(x, from, to);
        assert(y == seq![x[0]] + (w + (seq![rest[0]] + (w2 + replace_all(rest.drop_first().drop_first(), from, to)))));
        assert(y.take(7) =~= e);
    }
}

// ---------------------------------------------------------------------

proof fn lemma_replace_step(s: Seq<char>, from: Seq<char>, to: Seq<char>, i: int)
    requires
        0 <= i < s.len(),
        from.len() > 0,
    ensures
        replace_all(s.skip(i), from, to) == if starts_with(s.skip(i), from) {
            to + replace_all(s.skip(i + from.len()), from, to)
        } else {
            seq![s[i]] + replace_all(s.skip(i + 1), from, to)
        },
{
    assert(s.skip(i).drop_first() =~= s.skip(i + 1));
    if starts_with(s.skip(i), from) {
        assert(s.skip(i).skip(from.len() as int) =~= s.skip(i + from.len()));
    }
}

/// `str::replace` on characters.
pub fn replace_chars(v: &[char], from: &str, to: &str) -> (r: Vec<char>)
    ensures
        r@ == replace_all(v@, from@, to@),
{
    if from.is_empty() {
        proof {
            reveal_strlit("");
            assert(from@ =~= ""@);
        }
        return replace_empty(v, to);
    }
    let fc = chars_of(from);
    let tc = chars_of(to);
    let mut out: Vec<char> = Vec::new();
    let mut i: usize = 0;
    assert(v@.skip(0) =~= v@);
    while i < v.len()
        invariant
            i <= v@.len(),
            fc@ == from@,
            tc@ == to@,
            from@.len() > 0,
            out@ + replace_all(v@.skip(i as int), from@, to@) == replace_all(v@, from@, to@),
        decreases v@.len() - i,
    {
        proof {
            lemma_replace_step(v@, from@, to@, i as int);
        }
        let rest = slice_chars(v, i, v.len());
        assert(rest@ =~= v@.skip(i as int));
        if crate::text::starts_with_chars(&rest, &fc) {
            push_chars(&mut out, &tc);
            i = i + fc.len();
            assert(out@ + replace_all(v@.skip(i as int), from@, to@) =~= replace_all(v@, from@, to@));
        } else {
            let ghost before = out@;
            out.push(v[i]);
            assert(out@ =~= before + seq![v@[i as int]]);
            i = i + 1;
            assert(out@ + replace_all(v@.skip(i as int), from@, to@) =~= replace_all(v@, from@, to@));
        }
    }
    assert(v@.skip(i as int) =~= Seq::<char>::empty());
    assert(out@ + Seq::<char>::empty() =~= out@);
    out
}

/// `str::replace` with an empty pattern: `to` before every character and at the end.
fn replace_empty(v: &[char], to: &str) -> (r: Vec<char>)
    ensures
        r@ == replace_all(v@, ""@, to@),
{
    proof {
        reveal_strlit("");
    }
    let tc = chars_of(to);
    let mut out: Vec<char> = Vec::new();
    let mut i: usize = 0;
    assert(v@.skip(0) =~= v@);
    while i < v.len()
        invariant
            i <= v@.len(),
            tc@ == to@,
            ""@.len() == 0,
            out@ + replace_all(v@.skip(i as int), ""@, to@) == replace_all(v@, ""@, to@),
        decreases v@.len() - i,
    {
        let ghost rest = v@.skip(i as int);
        assert(rest.drop_first() =~= v@.skip(i + 1));
        let ghost before = out@;
        push_chars(&mut out, &tc);
        out.push(v[i]);
        assert(out@ =~= before + to@ + seq![v@[i as int]]);
        i = i + 1;
        assert(out@ + replace_all(v@.skip(i as int), ""@, to@) =~= replace_all(v@, ""@, to@));
    }
    assert(v@.skip(i as int) =~= Seq::<char>::empty());
    let ghost before = out@;
    push_chars(&mut out, &tc);
    assert(out@ =~= before + to@);
    out
}

/// Whether a line begins with a space or a tab.
fn is_indented(line: &[char]) -> (r: bool)
    ensures
        r == indented(line@),
{
    line.len() > 0 && (line[0] == ' ' || line[0] == '\t')
}

/// Leading whitespace of a line.
fn leading_whitespace(line: &[char]) -> (r: Vec<char>)
    ensures
        r@ == line@.take(leading_ws(line@) as int),
{
    let mut k: usize = 0;
    assert(line@.skip(0) =~= line@);
    while k < line.len() && is_whitespace(line[k])
        invariant
            k <= line@.len(),
            leading_ws(line@) == k + leading_ws(line@.skip(k as int)),
        decreases line@.len() - k,
    {
        assert(line@.skip(k as int).drop_first() =~= line@.skip(k + 1));
        k = k + 1;
    }
    slice_chars(line, 0, k)
}

fn eq_lit(v: &[char], lit: &str) -> (r: bool)
    ensures
        r == (v@ == lit@),
{
    crate::text::eq_str(v, lit)
}

/// Turns the TUN device off: within each `tun:` section the first
/// `enable:` line has `enable: true` replaced by `enable: false`.
pub fn ensure_tun_disabled(config: &str) -> (r: String)
    ensures
        r@ == tun_disabled(config@),
{
    let ls = lines_chars(&chars_of(config));
    let ghost all = seqs_of(ls@);
    let mut out: Vec<Vec<char>> = Vec::new();
    let mut in_tun = false;
    let mut i: usize = 0;
    assert(all.skip(0) =~= all);
    assert(seqs_of(out@) + disable_lines(all, false) =~= disable_lines(all, false));
    while i < ls.len()
        invariant
            i <= ls@.len(),
            all == seqs_of(ls@),
            seqs_of(out@) + disable_lines(all.skip(i as int), in_tun) == disable_lines(all, false),
        decreases ls@.len() - i,
    {
        let line = &ls[i];
        let t = trim_chars(line);
        let ghost rest = all.skip(i as int);
        assert(rest[0] == line@);
        assert(rest.drop_first() =~= all.skip(i + 1));
        let ghost old_in = in_tun;
        let mut new_line = copy_chars(line);
        if eq_lit(&t, "tun:") {
            in_tun = true;
        } else if in_tun && starts_with_str(&t, "enable:") {
            proof {
                reveal_strlit("enable: true");
            }
            new_line = replace_chars(line, "enable: true", "enable: false");
            in_tun = false;
        } else if in_tun && t.len() > 0 && !is_indented(line) {
            in_tun = false;
        }
        assert((new_line@, in_tun) == disable_step(old_in, rest[0]));
        let ghost old_out = out@;
        out.push(new_line);
        proof {
            crate::text::lemma_seqs_push(old_out, out@.last());
            assert(out@ == old_out.push(out@.last()));
            assert(seqs_of(out@) + disable_lines(all.skip(i + 1), in_tun) =~= seqs_of(old_out)
                + disable_lines(rest, old_in));
        }
        i = i + 1;
    }
    assert(all.skip(ls@.len() as int) =~= Seq::<Seq<char>>::empty());
    assert(seqs_of(out@) + Seq::<Seq<char>>::empty() =~= seqs_of(out@));
    let joined = join_chars(&out, "\n");
    string_of(&joined)
}

/// Whether some `tun:` section already has a `device:` line.
fn find_device_field(ls: &Vec<Vec<char>>) -> (r: bool)
    ensures
        r == has_device_field(seqs_of(ls@)),
{
    let ghost all = seqs_of(ls@);
    let mut in_tun = false;
    let mut found = false;
    let mut i: usize = 0;
    assert(all.skip(0) =~= all);
    while i < ls.len()
        invariant
            i <= ls@.len(),
            all == seqs_of(ls@),
            device_scan(all.skip(i as int), in_tun, found) == has_device_field(all),
        decreases ls@.len() - i,
    {
        let line = &ls[i];
        let t = trim_chars(line);
        let ghost rest = all.skip(i as int);
        assert(rest[0] == line@);
        assert(rest.drop_first() =~= all.skip(i + 1));
        if eq_lit(&t, "tun:") {
            in_tun = true;
        } else if in_tun && t.len() > 0 && !is_indented(line) {
            in_tun = false;
        } else if in_tun && t.len() > 0 && starts_with_str(&t, "device:") {
            found = true;
        }
        i = i + 1;
    }
    assert(all.skip(ls@.len() as int) =~= Seq::<Seq<char>>::empty());
    found
}

/// Turns the TUN device on: within each `tun:` section `enable: false`
/// becomes `enable: true` on the `enable:` lines, `device:` lines
/// name `device_name`, and when no section had a device line one is
/// written, indented like the section, after the first `enable:` line.
pub fn ensure_tun_enabled(config: &str, device_name: &str) -> (r: String)
    ensures
        r@ == tun_enabled(config@, device_name@),
{
    let ls = lines_chars(&chars_of(config));
    let ghost all = seqs_of(ls@);
    let dev = chars_of(device_name);
    let mut has_device = find_device_field(&ls);
    let mut in_tun = false;
    let mut indent = chars_of("  ");
    let mut out: Vec<Vec<char>> = Vec::new();
    let mut i: usize = 0;
    let ghost init = EnableState { in_tun: false, has_device: has_device_field(all), indent: "  "@ };
    assert(all.skip(0) =~= all);
    assert(seqs_of(out@) + enable_lines(all, init, device_name@) =~= enable_lines(all, init, device_name@));
    while i < ls.len()
        invariant
            i <= ls@.len(),
            all == seqs_of(ls@),
            dev@ == device_name@,
            init == (EnableState { in_tun: false, has_device: has_device_field(all), indent: "  "@ }),
            seqs_of(out@) + enable_lines(
                all.skip(i as int),
                EnableState { in_tun, has_device, indent: indent@ },
                device_name@,
            ) == enable_lines(all, init, device_name@),
        decreases ls@.len() - i,
    {
        let line = &ls[i];
        let t = trim_chars(line);
        let ghost rest = all.skip(i as int);
        let ghost st = EnableState { in_tun, has_device, indent: indent@ };
        assert(rest[0] == line@);
        assert(rest.drop_first() =~= all.skip(i + 1));
        let ghost old_out = out@;
        if eq_lit(&t, "tun:") {
            in_tun = true;
            out.push(copy_chars(line));
        } else {
            if in_tun && t.len() > 0 && !is_indented(line) {
                in_tun = false;
            }
            if !in_tun {
                out.push(copy_chars(line));
            } else {
                if is_indented(line) {
                    indent = leading_whitespace(line);
                }
                if starts_with_str(&t, "enable:") {
                    let l = if contains_str(line, "false") {
                        proof {
                            reveal_strlit("enable: false");
                        }
                        replace_chars(line, "enable: false", "enable: true")
                    } else {
                        copy_chars(line)
                    };
                    out.push(l);
                    if !has_device {
                        let mut d = copy_chars(&indent);
                        push_str(&mut d, "device: ");
                        push_chars(&mut d, &dev);
                        out.push(d);
                        has_device = true;
                    }
                } else if starts_with_str(&t, "device:") {
                    let l = match find_char(line, ':') {
                        Some(idx) => {
                            proof {
                                lemma_index_of(line@, ':');
                            }
                            let n = line.len();
                            let mut d = slice_chars(line, 0, idx + 1);
                            push_str(&mut d, " ");
                            push_chars(&mut d, &dev);
                            d
                        },
                        None => copy_chars(line),
                    };
                    out.push(l);
                } else {
                    out.push(copy_chars(line));
                }
            }
        }
        proof {
            let (o, s2) = enable_step(st, rest[0], device_name@);
            assert(s2 == EnableState { in_tun, has_device, indent: indent@ });
            assert(seqs_of(out@) =~= seqs_of(old_out) + o);
            assert(seqs_of(out@) + enable_lines(all.skip(i + 1), s2, device_name@) =~= seqs_of(
                old_out,
            ) + enable_lines(rest, st, device_name@));
        }
        i = i + 1;
    }
    assert(all.skip(ls@.len() as int) =~= Seq::<Seq<char>>::empty());
    assert(seqs_of(out@) + Seq::<Seq<char>>::empty() =~= seqs_of(out@));
    let joined = join_chars(&out, "\n");
    string_of(&joined)
}

} // verus!
