//! Decimal integers: parsing with the standard library's error kinds and
//! rendering in the standard decimal form.
use vstd::prelude::*;
use crate::text::{chars_of, string_of, push_chars};

verus! {

/// Why a decimal integer could not be read.
#[derive(Debug, Clone, Copy, PartialEq, Eq, Structural)]
pub enum IntErrorKind {
    Empty,
    InvalidDigit,
    PosOverflow,
    NegOverflow,
}

/// Whether `c` is an ASCII decimal digit.
pub open spec fn is_digit(c: char) -> bool {
    '0' <= c && c <= '9'
}

/// The value of an ASCII decimal digit.
pub open spec fn digit_value(c: char) -> int {
    (c as u32) - ('0' as u32)
}

/// Accumulates digits left to right, failing on the first non-digit or
/// the first step that leaves `[lo, hi]`.
pub open spec fn accumulate_digits(ds: Seq<char>, neg: bool, acc: int, lo: int, hi: int) -> Result<
    int,
    IntErrorKind,
>
    decreases ds.len(),
{
    if ds.len() == 0 {
        Ok(acc)
    } else if !is_digit(ds[0]) {
        Err(IntErrorKind::InvalidDigit)
    } else {
        let n = if neg {
            acc * 10 - digit_value(ds[0])
        } else {
            acc * 10 + digit_value(ds[0])
        };
        if n > hi {
            Err(IntErrorKind::PosOverflow)
        } else if n < lo {
            Err(IntErrorKind::NegOverflow)
        } else {
            accumulate_digits(ds.drop_first(), neg, n, lo, hi)
        }
    }
}

/// Decimal reading of `s` into the range `[lo, hi]` (`str::parse` for an
/// integer type with that range; a leading `-` is only taken when `lo < 0`).
pub open spec fn parse_int(s: Seq<char>, lo: int, hi: int) -> Result<int, IntErrorKind> {
    if s.len() == 0 {
        Err(IntErrorKind::Empty)
    } else if s.len() == 1 && (s[0] == '+' || s[0] == '-') {
        Err(IntErrorKind::InvalidDigit)
    } else if s[0] == '+' {
        accumulate_digits(s.drop_first(), false, 0, lo, hi)
    } else if s[0] == '-' && lo < 0 {
        accumulate_digits(s.drop_first(), true, 0, lo, hi)
    } else {
        accumulate_digits(s, false, 0, lo, hi)
    }
}

/// `str::parse::<i32>`.
pub open spec fn parse_i32(s: Seq<char>) -> Result<int, IntErrorKind> {
    parse_int(s, i32::MIN as int, i32::MAX as int)
}

/// `str::parse::<u64>`.
pub open spec fn parse_u64(s: Seq<char>) -> Result<int, IntErrorKind> {
    parse_int(s, 0, u64::MAX as int)
}

/// The message the standard library shows for each kind.
pub open spec fn int_error_message(k: IntErrorKind) -> Seq<char> {
    match k {
        IntErrorKind::Empty => "cannot parse integer from empty string"@,
        IntErrorKind::InvalidDigit => "invalid digit found in string"@,
        IntErrorKind::PosOverflow => "number too large to fit in target type"@,
        IntErrorKind::NegOverflow => "number too small to fit in target type"@,
    }
}

/// The character of a digit value.
pub open spec fn digit_char(d: int) -> char {
    (d + ('0' as u32)) as char
}

/// Decimal digits of a natural number, most significant first.
pub open spec fn decimal_nat(n: nat) -> Seq<char>
    decreases n,
{
    if n < 10 {
        seq![digit_char(n as int)]
    } else {
        decimal_nat(n / 10).push(digit_char((n % 10) as int))
    }
}

/// Decimal rendering of an integer (the `Display` form).
pub open spec fn decimal(n: int) -> Seq<char> {
    if n < 0 {
        seq!['-'] + decimal_nat((-n) as nat)
    } else {
        decimal_nat(n as nat)
    }
}

proof fn lemma_accumulate_skip(s: Seq<char>, i: int, neg: bool, acc: int, lo: int, hi: int)
    requires
        0 <= i < s.len(),
    ensures
        accumulate_digits(s.skip(i), neg, acc, lo, hi) == if !is_digit(s[i]) {
            Err(IntErrorKind::InvalidDigit)
        } else {
            let n = if neg {
                acc * 10 - digit_value(s[i])
            } else {
                acc * 10 + digit_value(s[i])
            };
            if n > hi {
                Err(IntErrorKind::PosOverflow)
            } else if n < lo {
                Err(IntErrorKind::NegOverflow)
            } else {
                accumulate_digits(s.skip(i + 1), neg, n, lo, hi)
            }
        },
{
    assert(s.skip(i).drop_first() =~= s.skip(i + 1));
}

/// Reads `v[from..]` as digits, with the running value kept in `[lo, hi]`.
fn accumulate_exec(v: &[char], from: usize, neg: bool, lo: i128, hi: i128) -> (r: Result<
    i128,
    IntErrorKind,
>)
    requires
        from <= v@.len(),
        -0x1_0000_0000_0000_0000 <= lo <= 0 <= hi <= 0x1_0000_0000_0000_0000,
    ensures
        match r {
            Ok(n) => accumulate_digits(v@.skip(from as int), neg, 0, lo as int, hi as int) == Ok::<
                int,
                IntErrorKind,
            >(n as int),
            Err(k) => accumulate_digits(v@.skip(from as int), neg, 0, lo as int, hi as int) == Err::<
                int,
                IntErrorKind,
            >(k),
        },
{
    let mut acc: i128 = 0;
    let mut i = from;
    while i < v.len()
        invariant
            from <= i <= v@.len(),
            lo <= acc <= hi,
            -0x1_0000_0000_0000_0000 <= lo <= 0 <= hi <= 0x1_0000_0000_0000_0000,
            accumulate_digits(v@.skip(from as int), neg, 0, lo as int, hi as int)
                == accumulate_digits(v@.skip(i as int), neg, acc as int, lo as int, hi as int),
        decreases v@.len() - i,
    {
        let c = v[i];
        proof {
            lemma_accumulate_skip(v@, i as int, neg, acc as int, lo as int, hi as int);
        }
        if !('0' <= c && c <= '9') {
            return Err(IntErrorKind::InvalidDigit);
        }
        let d = ((c as u32) - ('0' as u32)) as i128;
        let n = if neg {
            acc * 10 - d
        } else {
            acc * 10 + d
        };
        if n > hi {
            return Err(IntErrorKind::PosOverflow);
        }
        if n < lo {
            return Err(IntErrorKind::NegOverflow);
        }
        acc = n;
        i = i + 1;
    }
    assert(v@.skip(i as int).len() == 0);
    Ok(acc)
}

/// Reads a decimal integer in `[lo, hi]` from characters.
fn parse_int_exec(v: &[char], lo: i128, hi: i128) -> (r: Result<i128, IntErrorKind>)
    requires
        -0x1_0000_0000_0000_0000 <= lo <= 0 <= hi <= 0x1_0000_0000_0000_0000,
    ensures
        match r {
            Ok(n) => parse_int(v@, lo as int, hi as int) == Ok::<int, IntErrorKind>(n as int),
            Err(k) => parse_int(v@, lo as int, hi as int) == Err::<int, IntErrorKind>(k),
        },
{
    if v.len() == 0 {
        return Err(IntErrorKind::Empty);
    }
    if v.len() == 1 && (v[0] == '+' || v[0] == '-') {
        return Err(IntErrorKind::InvalidDigit);
    }
    assert(v@.skip(1) =~= v@.drop_first());
    assert(v@.skip(0) =~= v@);
    if v[0] == '+' {
        accumulate_exec(v, 1, false, lo, hi)
    } else if v[0] == '-' && lo < 0 {
        accumulate_exec(v, 1, true, lo, hi)
    } else {
        accumulate_exec(v, 0, false, lo, hi)
    }
}

/// `str::parse::<i32>` over characters.
pub fn parse_i32_chars(v: &[char]) -> (r: Result<i32, IntErrorKind>)
    ensures
        match r {
            Ok(n) => parse_i32(v@) == Ok::<int, IntErrorKind>(n as int),
            Err(k) => parse_i32(v@) == Err::<int, IntErrorKind>(k),
        },
{
    match parse_int_exec(v, i32::MIN as i128, i32::MAX as i128) {
        Ok(n) => {
            proof {
                lemma_parse_int_range(v@, i32::MIN as int, i32::MAX as int);
            }
            Ok(n as i32)
        },
        Err(k) => Err(k),
    }
}

/// `str::parse::<u64>` over characters.
pub fn parse_u64_chars(v: &[char]) -> (r: Result<u64, IntErrorKind>)
    ensures
        match r {
            Ok(n) => parse_u64(v@) == Ok::<int, IntErrorKind>(n as int),
            Err(k) => parse_u64(v@) == Err::<int, IntErrorKind>(k),
        },
{
    match parse_int_exec(v, 0, u64::MAX as i128) {
        Ok(n) => {
            proof {
                lemma_parse_int_range(v@, 0, u64::MAX as int);
            }
            Ok(n as u64)
        },
        Err(k) => Err(k),
    }
}

proof fn lemma_accumulate_range(ds: Seq<char>, neg: bool, acc: int, lo: int, hi: int)
    requires
        lo <= acc <= hi,
    ensures
        accumulate_digits(ds, neg, acc, lo, hi) matches Ok(n) ==> lo <= n <= hi,
    decreases ds.len(),
{
    if ds.len() > 0 && is_digit(ds[0]) {
        let n = if neg {
            acc * 10 - digit_value(ds[0])
        } else {
            acc * 10 + digit_value(ds[0])
        };
        if lo <= n <= hi {
            lemma_accumulate_range(ds.drop_first(), neg, n, lo, hi);
        }
    }
}

/// A successful reading lies in the requested range.
pub proof fn lemma_parse_int_range(s: Seq<char>, lo: int, hi: int)
    requires
        lo <= 0 <= hi,
    ensures
        parse_int(s, lo, hi) matches Ok(n) ==> lo <= n <= hi,
{
    if s.len() > 0 {
        lemma_accumulate_range(s.drop_first(), true, 0, lo, hi);
        lemma_accumulate_range(s.drop_first(), false, 0, lo, hi);
        lemma_accumulate_range(s, false, 0, lo, hi);
    }
}

proof fn lemma_accumulate_push(s: Seq<char>, c: char, neg: bool, acc: int, lo: int, hi: int)
    ensures
        accumulate_digits(s.push(c), neg, acc, lo, hi) == match accumulate_digits(s, neg, acc, lo, hi) {
            Ok(v) => accumulate_digits(seq![c], neg, v, lo, hi),
            Err(e) => Err(e),
        },
    decreases s.len(),
{
    if s.len() == 0 {
        assert(s.push(c) =~= seq![c]);
    } else {
        assert(s.push(c).drop_first() =~= s.drop_first().push(c));
        assert(s.push(c)[0] == s[0]);
        if is_digit(s[0]) {
            let n = if neg {
                acc * 10 - digit_value(s[0])
            } else {
                acc * 10 + digit_value(s[0])
            };
            lemma_accumulate_push(s.drop_first(), c, neg, n, lo, hi);
        }
    }
}

proof fn lemma_digit_char(d: int)
    requires
        0 <= d < 10,
    ensures
        is_digit(digit_char(d)),
        digit_value(digit_char(d)) == d,
{
    assert(((d + 48) as char) as u32 == d + 48);
}

proof fn lemma_decimal_nat_first(m: nat)
    ensures
        decimal_nat(m).len() >= 1,
        is_digit(decimal_nat(m)[0]),
    decreases m,
{
    if m < 10 {
        lemma_digit_char(m as int);
    } else {
        lemma_decimal_nat_first(m / 10);
    }
}

proof fn lemma_accumulate_decimal(m: nat, neg: bool, lo: int, hi: int)
    requires
        lo <= 0 <= hi,
        neg ==> -m >= lo,
        !neg ==> m <= hi,
    ensures
        accumulate_digits(decimal_nat(m), neg, 0, lo, hi) == Ok::<int, IntErrorKind>(
            if neg {
                -m
            } else {
                m as int
            },
        ),
    decreases m,
{
    reveal_with_fuel(accumulate_digits, 2);
    if m < 10 {
        lemma_digit_char(m as int);
        assert(decimal_nat(m) == seq![digit_char(m as int)]);
        assert(decimal_nat(m).drop_first() =~= Seq::<char>::empty());
    } else {
        let q = m / 10;
        let d = (m % 10) as int;
        lemma_digit_char(d);
        lemma_accumulate_decimal(q, neg, lo, hi);
        lemma_accumulate_push(decimal_nat(q), digit_char(d), neg, 0, lo, hi);
        let v: int = if neg {
            -q
        } else {
            q as int
        };
        assert(seq![digit_char(d)].drop_first() =~= Seq::<char>::empty());
        assert(q * 10 + d == m);
        assert(decimal_nat(m) == decimal_nat(q).push(digit_char(d)));
        let n = if neg {
            v * 10 - d
        } else {
            v * 10 + d
        };
        assert(n == if neg {
            -m
        } else {
            m as int
        });
        assert(accumulate_digits(seq![digit_char(d)], neg, v, lo, hi) == accumulate_digits(
            seq![digit_char(d)].drop_first(),
            neg,
            n,
            lo,
            hi,
        ));
    }
}

/// Decimal rendering reads back: `decimal(n)` parses as `n` for every
/// value in the range (ports written into names read back as the port).
pub proof fn lemma_decimal_parses_back(n: int, lo: int, hi: int)
    requires
        lo <= 0 <= hi,
        lo <= n <= hi,
    ensures
        parse_int(decimal(n), lo, hi) == Ok::<int, IntErrorKind>(n),
{
    if n < 0 {
        let m = (-n) as nat;
        lemma_accumulate_decimal(m, true, lo, hi);
        lemma_decimal_nat_first(m);
        assert((seq!['-'] + decimal_nat(m)).drop_first() =~= decimal_nat(m));
    } else {
        let m = n as nat;
        lemma_accumulate_decimal(m, false, lo, hi);
        lemma_decimal_nat_first(m);
        assert(decimal_nat(m)[0] != '+' && decimal_nat(m)[0] != '-');
    }
}

/// The standard library's message for a parse failure.
pub fn int_error_text(k: IntErrorKind) -> (r: &'static str)
    ensures
        r@ == int_error_message(k),
{
    match k {
        IntErrorKind::Empty => "cannot parse integer from empty string",
        IntErrorKind::InvalidDigit => "invalid digit found in string",
        IntErrorKind::PosOverflow => "number too large to fit in target type",
        IntErrorKind::NegOverflow => "number too small to fit in target type",
    }
}

/// Decimal digits of `n`.
pub fn decimal_u64_chars(n: u64) -> (r: Vec<char>)
    ensures
        r@ == decimal_nat(n as nat),
    decreases n,
{
    let d = (n % 10) as u32;
    let c = char_of_digit(d);
    if n < 10 {
        let mut r: Vec<char> = Vec::new();
        r.push(c);
        assert(r@ =~= seq![digit_char(n as int)]);
        r
    } else {
        let mut r = decimal_u64_chars(n / 10);
        r.push(c);
        r
    }
}

fn char_of_digit(d: u32) -> (c: char)
    requires
        d < 10,
    ensures
        c == digit_char(d as int),
{
    if d == 0 { '0' }
    else if d == 1 { '1' }
    else if d == 2 { '2' }
    else if d == 3 { '3' }
    else if d == 4 { '4' }
    else if d == 5 { '5' }
    else if d == 6 { '6' }
    else if d == 7 { '7' }
    else if d == 8 { '8' }
    else { '9' }
}

/// Decimal rendering of an `i32` (`i32::to_string`).
pub fn decimal_i32_chars(n: i32) -> (r: Vec<char>)
    ensures
        r@ == decimal(n as int),
{
    if n < 0 {
        let m = (-(n as i64)) as u64;
        let digits = decimal_u64_chars(m);
        let mut r: Vec<char> = Vec::new();
        r.push('-');
        push_chars(&mut r, &digits);
        assert(r@ =~= seq!['-'] + digits@);
        r
    } else {
        decimal_u64_chars(n as u64)
    }
}

/// Decimal rendering of an `i32` as a string.
pub fn decimal_i32(n: i32) -> (r: String)
    ensures
        r@ == decimal(n as int),
{
    let v = decimal_i32_chars(n);
    string_of(&v)
}

/// `str::parse::<i32>` on a string slice.
pub fn parse_i32_str(s: &str) -> (r: Result<i32, IntErrorKind>)
    ensures
        match r {
            Ok(n) => parse_i32(s@) == Ok::<int, IntErrorKind>(n as int),
            Err(k) => parse_i32(s@) == Err::<int, IntErrorKind>(k),
        },
{
    let v = chars_of(s);
    parse_i32_chars(&v)
}

} // verus!
