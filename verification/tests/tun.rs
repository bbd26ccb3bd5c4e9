use fusiontunx::tun::{ensure_tun_disabled, ensure_tun_enabled, replace_chars};

#[test]
fn disable_turns_tun_off() {
    let cfg = "tun:\n  enable: true\n  stack: system\ndns:\n  enable: true";
    assert_eq!(
        ensure_tun_disabled(cfg),
        "tun:\n  enable: false\n  stack: system\ndns:\n  enable: true"
    );
}

#[test]
fn disable_leaves_other_sections() {
    let cfg = "dns:\n  enable: true\nport: 7890\n";
    assert_eq!(ensure_tun_disabled(cfg), "dns:\n  enable: true\nport: 7890");
}

#[test]
fn disable_stops_at_next_section() {
    let cfg = "tun:\n  stack: system\ndns:\n  enable: true";
    assert_eq!(ensure_tun_disabled(cfg), cfg);
}

#[test]
fn enable_turns_tun_on_and_adds_device() {
    let cfg = "tun:\n  enable: false\n  stack: system\ndns:\n  enable: true";
    assert_eq!(
        ensure_tun_enabled(cfg, "Meta"),
        "tun:\n  enable: true\n  device: Meta\n  stack: system\ndns:\n  enable: true"
    );
}

#[test]
fn enable_rewrites_existing_device() {
    let cfg = "tun:\n  enable: true\n  device: utun\n  stack: gvisor";
    assert_eq!(
        ensure_tun_enabled(cfg, "tun0"),
        "tun:\n  enable: true\n  device: tun0\n  stack: gvisor"
    );
}

#[test]
fn enable_without_tun_section() {
    let cfg = "mixed-port: 7890\nmode: rule";
    assert_eq!(ensure_tun_enabled(cfg, "Meta"), cfg);
}

#[test]
fn enable_uses_section_indent() {
    let cfg = "tun:\n\tenable: false";
    assert_eq!(ensure_tun_enabled(cfg, "Meta"), "tun:\n\tenable: true\n\tdevice: Meta");
}

#[test]
fn replace_all_occurrences() {
    let v: Vec<char> = "a-b-c".chars().collect();
    assert_eq!(replace_chars(&v, "-", "+").iter().collect::<String>(), "a+b+c");
    let w: Vec<char> = "aaa".chars().collect();
    assert_eq!(replace_chars(&w, "aa", "b").iter().collect::<String>(), "ba");
}

#[test]
fn disable_twice_is_disable_once() {
    let cfg = "tun:\n  enable: true\n  device: Meta\ndns:\n  enable: true";
    let once = ensure_tun_disabled(cfg);
    assert_eq!(ensure_tun_disabled(&once), once);
}

#[test]
fn overlapping_enable_text_rewrites_again() {
    let cfg = "tun:\n  enable: truenable: true";
    let once = ensure_tun_disabled(cfg);
    assert_eq!(once, "tun:\n  enable: falsenable: true");
    assert_eq!(ensure_tun_disabled(&once), "tun:\n  enable: falsenable: false");
}

#[test]
fn trailing_blank_line_is_dropped_by_each_pass() {
    let once = ensure_tun_disabled("a\n\n");
    assert_eq!(once, "a\n");
    assert_eq!(ensure_tun_disabled(&once), "a");
}

#[test]
fn line_endings_are_normalised_without_section() {
    assert_eq!(ensure_tun_disabled("a: 1\r\nb: 2\r\n"), "a: 1\nb: 2");
    assert_eq!(ensure_tun_enabled("a: 1\r\nb: 2\r\n", "Meta"), "a: 1\nb: 2");
}

#[test]
fn enable_twice_is_enable_once() {
    for cfg in [
        "tun:\n  enable: false\n  stack: system\ndns:\n  enable: true",
        "tun:\n  enable: true\n  device: utun\n",
        "mode: rule",
        "tun:\n\tenable: false\ntun:\n  enable: false",
    ] {
        let once = ensure_tun_enabled(cfg, "Meta");
        assert_eq!(ensure_tun_enabled(&once, "Meta"), once, "{:?}", cfg);
    }
}

#[test]
fn overlapping_disable_text_rewrites_again_when_enabling() {
    let once = ensure_tun_enabled("tun:\n  enable: falsenable: false\n  device: x", "Meta");
    assert_eq!(once, "tun:\n  enable: truenable: false\n  device: Meta");
    assert_eq!(ensure_tun_enabled(&once, "Meta"), "tun:\n  enable: truenable: true\n  device: Meta");
}

#[test]
fn lone_newline_is_stable() {
    assert_eq!(ensure_tun_enabled("\n", "Meta"), "");
    assert_eq!(ensure_tun_enabled("", "Meta"), "");
    assert_eq!(ensure_tun_disabled("\n"), "");
    assert_eq!(ensure_tun_disabled(""), "");
}

#[test]
fn replace_with_empty_pattern_as_std() {
    for (s, to) in [("abc", "-"), ("", "-"), ("x", ""), ("héllo", "<>")] {
        let v: Vec<char> = s.chars().collect();
        assert_eq!(replace_chars(&v, "", to).iter().collect::<String>(), s.replace("", to));
    }
}

#[test]
fn carriage_return_before_break_is_dropped_by_each_pass() {
    let once = ensure_tun_disabled("a\r\r\nb");
    assert_eq!(once, "a\r\nb");
    assert_eq!(ensure_tun_disabled(&once), "a\nb");
}
