//! Log levels: reading them from configuration text, naming them, and
//! filtering messages by severity.
use vstd::prelude::*;
use crate::text::chars_of;

verus! {

/// Severity of a log message, least severe first.
#[derive(Debug, Clone, Copy, PartialEq, Eq, Structural)]
pub enum LogLevel {
    Debug,
    Info,
    Warn,
    Error,
}

/// What `str::to_lowercase` gives for `s`.
pub uninterp spec fn lowercase(s: Seq<char>) -> Seq<char>;

/// ASCII letters lowered, other characters kept.
pub open spec fn ascii_lower(s: Seq<char>) -> Seq<char> {
    s.map_values(|c: char| if 'A' <= c && c <= 'Z' { ((c as u32) + 32) as char } else { c })
}

/// All characters are ASCII.
pub open spec fn all_ascii(s: Seq<char>) -> bool {
    forall|i: int| 0 <= i < s.len() ==> (s[i] as u32) < 128
}

/// Calls `str::to_lowercase`; the result is named, and on ASCII text it
/// is the ASCII lowering (Unicode lower-cases `A`-`Z` to `a`-`z` and
/// leaves other ASCII characters alone).
#[verifier::external_body]
fn to_lowercase(s: &str) -> (r: String)
    ensures
        r@ == lowercase(s@),
        all_ascii(s@) ==> r@ == ascii_lower(s@),
{
    s.to_lowercase()
}

/// The level a lower-cased name stands for; anything unrecognised means `Info`.
pub open spec fn level_of_lower(l: Seq<char>) -> LogLevel {
    if l == "debug"@ {
        LogLevel::Debug
    } else if l == "info"@ {
        LogLevel::Info
    } else if l == "warn"@ || l == "warning"@ {
        LogLevel::Warn
    } else if l == "error"@ {
        LogLevel::Error
    } else {
        LogLevel::Info
    }
}

/// The level a configuration value names, case-insensitively.
pub open spec fn level_named(s: Seq<char>) -> LogLevel {
    level_of_lower(lowercase(s))
}

/// Upper-case label of a level.
pub open spec fn level_label(l: LogLevel) -> Seq<char> {
    match l {
        LogLevel::Debug => "DEBUG"@,
        LogLevel::Info => "INFO"@,
        LogLevel::Warn => "WARN"@,
        LogLevel::Error => "ERROR"@,
    }
}

/// Position of a level in the severity order.
pub open spec fn level_rank(l: LogLevel) -> int {
    match l {
        LogLevel::Debug => 0,
        LogLevel::Info => 1,
        LogLevel::Warn => 2,
        LogLevel::Error => 3,
    }
}

impl LogLevel {
    /// Reads a level name, case-insensitively (`warning` also means
    /// `Warn`); unknown names mean `Info`.
    pub fn from_str(s: &str) -> (r: LogLevel)
        ensures
            r == level_named(s@),
            all_ascii(s@) ==> r == level_of_lower(ascii_lower(s@)),
    {
        let l = to_lowercase(s);
        let lc = chars_of(l.as_str());
        if crate::text::eq_str(&lc, "debug") {
            LogLevel::Debug
        } else if crate::text::eq_str(&lc, "info") {
            LogLevel::Info
        } else if crate::text::eq_str(&lc, "warn") || crate::text::eq_str(&lc, "warning") {
            LogLevel::Warn
        } else if crate::text::eq_str(&lc, "error") {
            LogLevel::Error
        } else {
            LogLevel::Info
        }
    }

    /// Upper-case label used in log lines.
    pub fn as_str(&self) -> (r: &'static str)
        ensures
            r@ == level_label(*self),
    {
        match self {
            LogLevel::Debug => "DEBUG",
            LogLevel::Info => "INFO",
            LogLevel::Warn => "WARN",
            LogLevel::Error => "ERROR",
        }
    }

    /// Position in the severity order (`Debug` is 0, `Error` is 3).
    pub fn rank(&self) -> (r: u8)
        ensures
            r as int == level_rank(*self),
    {
        match self {
            LogLevel::Debug => 0,
            LogLevel::Info => 1,
            LogLevel::Warn => 2,
            LogLevel::Error => 3,
        }
    }

    /// Whether a message of this level is written by a logger set to
    /// `threshold`: it is at least as severe.
    pub fn passes(&self, threshold: LogLevel) -> (r: bool)
        ensures
            r == (level_rank(*self) >= level_rank(threshold)),
    {
        self.rank() >= threshold.rank()
    }
}

/// A log line: `<timestamp> [<LABEL>] <message>`.
pub fn log_line(timestamp: &str, level: LogLevel, message: &str) -> (r: String)
    ensures
        r@ == timestamp@ + " ["@ + level_label(level) + "] "@ + message@,
{
    let mut v = chars_of(timestamp);
    crate::text::push_str(&mut v, " [");
    crate::text::push_str(&mut v, level.as_str());
    crate::text::push_str(&mut v, "] ");
    crate::text::push_str(&mut v, message);
    crate::text::string_of(&v)
}

/// Severity strictly rises from `Debug` through `Info` and `Warn` to
/// `Error`: a logger passes every message at least as severe as its own
/// level and drops every less severe one, so at the default level `info`
/// warnings are written and debug lines are not, and at level `warn`
/// info lines are dropped.
pub proof fn lemma_severity_order()
    ensures
        level_rank(LogLevel::Debug) < level_rank(LogLevel::Info),
        level_rank(LogLevel::Info) < level_rank(LogLevel::Warn),
        level_rank(LogLevel::Warn) < level_rank(LogLevel::Error),
        forall|a: LogLevel, b: LogLevel| (level_rank(a) == level_rank(b)) <==> a == b,
{
}

/// Reading a level's label gives the level back, and so does reading
/// the label lower-cased: `LogLevel::from_str(l.as_str()) == l` and
/// `LogLevel::from_str(&l.as_str().to_lowercase()) == l` (labels are
/// ASCII, so lower-casing is the ASCII lowering, which is the same once
/// or twice).
pub proof fn lemma_label_roundtrip(l: LogLevel)
    ensures
        all_ascii(level_label(l)),
        level_of_lower(ascii_lower(level_label(l))) == l,
        all_ascii(ascii_lower(level_label(l))),
        level_of_lower(ascii_lower(ascii_lower(level_label(l)))) == l,
{
    lemma_label_lower(l);
    lemma_ascii_lower_twice(level_label(l));
}

/// ASCII text stays ASCII when lowered, and lowering it again changes nothing.
pub proof fn lemma_ascii_lower_twice(s: Seq<char>)
    requires
        all_ascii(s),
    ensures
        all_ascii(ascii_lower(s)),
        ascii_lower(ascii_lower(s)) == ascii_lower(s),
{
    let t = ascii_lower(s);
    assert forall|i: int| 0 <= i < t.len() implies (t[i] as u32) < 128 by {
        assert((s[i] as u32) < 128);
    }
    assert(ascii_lower(t) =~= t);
}

proof fn lemma_label_lower(l: LogLevel)
    ensures
        all_ascii(level_label(l)),
        level_of_lower(ascii_lower(level_label(l))) == l,
{
    reveal_strlit("DEBUG");
    reveal_strlit("INFO");
    reveal_strlit("WARN");
    reveal_strlit("ERROR");
    reveal_strlit("debug");
    reveal_strlit("info");
    reveal_strlit("warn");
    reveal_strlit("warning");
    reveal_strlit("error");
    let lab = level_label(l);
    let low = ascii_lower(lab);
    match l {
        LogLevel::Debug => {
            assert(low =~= "debug"@);
        },
        LogLevel::Info => {
            assert(low =~= "info"@);
            assert(low.len() != "debug"@.len());
        },
        LogLevel::Warn => {
            assert(low =~= "warn"@);
            assert(low.len() != "debug"@.len());
            assert(low[0] != "info"@[0]);
        },
        LogLevel::Error => {
            assert(low =~= "error"@);
            assert(low[0] != "debug"@[0]);
            assert(low.len() != "info"@.len());
            assert(low.len() != "warn"@.len());
            assert(low.len() != "warning"@.len());
        },
    }
}

} // verus!
