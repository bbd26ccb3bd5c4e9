//! Character-level text utilities over `Seq<char>`, mirroring the
//! behaviour of the standard string operations the service relies on
//! (`trim`, `find`, `split`, `splitn(2, _)`, `lines`, `starts_with`, ...).
use vstd::prelude::*;

verus! {

// ---------------------------------------------------------------------
// Specifications
// ---------------------------------------------------------------------

/// Unicode `White_Space`, the set used by `char::is_whitespace`.
pub open spec fn is_ws(c: char) -> bool {
    let u = c as u32;
    ||| 0x09 <= u <= 0x0D
    ||| u == 0x20
    ||| u == 0x85
    ||| u == 0xA0
    ||| u == 0x1680
    ||| 0x2000 <= u <= 0x200A
    ||| u == 0x2028
    ||| u == 0x2029
    ||| u == 0x202F
    ||| u == 0x205F
    ||| u == 0x3000
}

/// Drops leading whitespace.
pub open spec fn trim_start(s: Seq<char>) -> Seq<char>
    decreases s.len(),
{
    if s.len() > 0 && is_ws(s[0]) {
        trim_start(s.drop_first())
    } else {
        s
    }
}

/// Drops trailing whitespace.
pub open spec fn trim_end(s: Seq<char>) -> Seq<char>
    decreases s.len(),
{
    if s.len() > 0 && is_ws(s.last()) {
        trim_end(s.drop_last())
    } else {
        s
    }
}

/// Drops whitespace on both ends (`str::trim`).
pub open spec fn trim(s: Seq<char>) -> Seq<char> {
    trim_end(trim_start(s))
}

/// Index of the first occurrence of `c` in `s`, or -1.
#[verifier::opaque]
pub open spec fn index_of(s: Seq<char>, c: char) -> int {
    if s.contains(c) {
        choose|i: int| 0 <= i < s.len() && s[i] == c && forall|j: int| 0 <= j < i ==> s[j] != c
    } else {
        -1
    }
}

/// `s` begins with `p`.
pub open spec fn starts_with(s: Seq<char>, p: Seq<char>) -> bool {
    p.len() <= s.len() && s.take(p.len() as int) == p
}

/// `s` ends with `p`.
pub open spec fn ends_with(s: Seq<char>, p: Seq<char>) -> bool {
    p.len() <= s.len() && s.skip(s.len() - p.len()) == p
}

/// `p` occurs in `s` starting at position `i`.
pub open spec fn occurs_at(s: Seq<char>, p: Seq<char>, i: int) -> bool {
    0 <= i && i + p.len() <= s.len() && s.subrange(i, i + p.len()) == p
}

/// `p` occurs somewhere in `s` (`str::contains` with a string pattern).
pub open spec fn contains_seq(s: Seq<char>, p: Seq<char>) -> bool {
    exists|i: int| occurs_at(s, p, i)
}

/// Start of the last occurrence of `p` in `s` (`str::rfind`), or -1.
pub open spec fn last_index_of_seq(s: Seq<char>, p: Seq<char>) -> int {
    if contains_seq(s, p) {
        choose|i: int| occurs_at(s, p, i) && forall|j: int| i < j ==> !occurs_at(s, p, j)
    } else {
        -1
    }
}

/// Removes every leading repetition of a non-empty prefix (`str::trim_start_matches`).
pub open spec fn trim_start_matches(s: Seq<char>, p: Seq<char>) -> Seq<char>
    decreases s.len(),
{
    if p.len() > 0 && starts_with(s, p) {
        trim_start_matches(s.skip(p.len() as int), p)
    } else {
        s
    }
}

/// Pieces of `s` between occurrences of `c` (`str::split` with a char).
#[verifier::opaque]
pub open spec fn split(s: Seq<char>, c: char) -> Seq<Seq<char>>
    decreases s.len(),
{
    let i = index_of(s, c);
    if i < 0 {
        seq![s]
    } else {
        proof {
            lemma_index_of(s, c);
        }
        seq![s.take(i)] + split(s.skip(i + 1), c)
    }
}

/// At most two pieces, split at the first `c` (`str::splitn(2, c)`).
pub open spec fn split_once(s: Seq<char>, c: char) -> Seq<Seq<char>> {
    let i = index_of(s, c);
    if i < 0 {
        seq![s]
    } else {
        seq![s.take(i), s.skip(i + 1)]
    }
}

/// Removes one trailing carriage return.
pub open spec fn strip_cr(s: Seq<char>) -> Seq<char> {
    if s.len() > 0 && s.last() == '\r' {
        s.drop_last()
    } else {
        s
    }
}

/// Lines of `s` (`str::lines`): split at `\n`, a `\r` right before the
/// `\n` is dropped, and a final line ending is optional.
#[verifier::opaque]
pub open spec fn lines(s: Seq<char>) -> Seq<Seq<char>>
    decreases s.len(),
{
    if s.len() == 0 {
        seq![]
    } else {
        let i = index_of(s, '\n');
        if i < 0 {
            seq![s]
        } else {
            proof {
                lemma_index_of(s, '\n');
            }
            seq![strip_cr(s.take(i))] + lines(s.skip(i + 1))
        }
    }
}

/// Joins the pieces with a separator in between (`slice::join`).
pub open spec fn join(pieces: Seq<Seq<char>>, sep: Seq<char>) -> Seq<char>
    decreases pieces.len(),
{
    if pieces.len() == 0 {
        seq![]
    } else if pieces.len() == 1 {
        pieces[0]
    } else {
        join(pieces.drop_last(), sep) + sep + pieces.last()
    }
}

/// The character sequences held by a vector of character vectors.
pub open spec fn seqs_of(v: Seq<Vec<char>>) -> Seq<Seq<char>> {
    Seq::new(v.len(), |i: int| v[i]@)
}

/// Number of bytes in the UTF-8 encoding of a character.
pub open spec fn utf8_width(c: char) -> nat {
    let u = c as u32;
    if u < 0x80 {
        1
    } else if u < 0x800 {
        2
    } else if u < 0x10000 {
        3
    } else {
        4
    }
}

/// Number of bytes in the UTF-8 encoding of a character sequence.
pub open spec fn utf8_len(s: Seq<char>) -> nat
    decreases s.len(),
{
    if s.len() == 0 {
        0
    } else {
        utf8_len(s.drop_last()) + utf8_width(s.last())
    }
}

/// Number of leading characters of `s` whose encoding fits in `limit`
/// bytes when the next character's encoding would not.
pub open spec fn utf8_cut(s: Seq<char>, limit: int) -> int {
    choose|j: int|
        0 <= j <= s.len() && utf8_len(#[trigger] s.take(j)) <= limit && (j < s.len() ==> utf8_len(
            s.take(j),
        ) + utf8_width(s[j]) > limit)
}

// ---------------------------------------------------------------------
// Lemmas
// ---------------------------------------------------------------------

/// `utf8_len` grows with the prefix length.
pub proof fn lemma_utf8_len_take_mono(s: Seq<char>, a: int, b: int)
    requires
        0 <= a <= b <= s.len(),
    ensures
        utf8_len(s.take(a)) + (if a < b { utf8_width(s[a]) } else { 0 }) <= utf8_len(s.take(b)),
    decreases b - a,
{
    if a < b {
        if a + 1 == b {
            assert(s.take(b).drop_last() =~= s.take(a));
        } else {
            lemma_utf8_len_take_mono(s, a, b - 1);
            assert(s.take(b).drop_last() =~= s.take(b - 1));
        }
    }
}

/// The cut point is the unique one with its property.
pub proof fn lemma_utf8_cut_is(s: Seq<char>, limit: int, k: int)
    requires
        0 <= k <= s.len(),
        utf8_len(s.take(k)) <= limit,
        k < s.len() ==> utf8_len(s.take(k)) + utf8_width(s[k]) > limit,
    ensures
        utf8_cut(s, limit) == k,
{
    assert(exists|j: int|
        0 <= j <= s.len() && utf8_len(#[trigger] s.take(j)) <= limit && (j < s.len() ==> utf8_len(
            s.take(j),
        ) + utf8_width(s[j]) > limit)) by {
        assert(utf8_len(s.take(k)) <= limit);
    }
    let c = utf8_cut(s, limit);
    assert(0 <= c <= s.len() && utf8_len(s.take(c)) <= limit && (c < s.len() ==> utf8_len(
        s.take(c),
    ) + utf8_width(s[c]) > limit));
    if c < k {
        lemma_utf8_len_take_mono(s, c, k);
    } else if k < c {
        lemma_utf8_len_take_mono(s, k, c);
    }
}

/// Characterises `index_of`.
pub proof fn lemma_index_of(s: Seq<char>, c: char)
    ensures
        -1 <= index_of(s, c) < s.len(),
        index_of(s, c) == -1 <==> !s.contains(c),
        index_of(s, c) >= 0 ==> s[index_of(s, c)] == c,
        forall|j: int| 0 <= j < index_of(s, c) ==> s[j] != c,
        index_of(s, c) == -1 ==> forall|j: int| 0 <= j < s.len() ==> s[j] != c,
{
    reveal(index_of);
    if s.contains(c) {
        let k = choose|k: int| 0 <= k < s.len() && s[k] == c;
        lemma_first_exists(s, c, k);
    }
}

proof fn lemma_first_exists(s: Seq<char>, c: char, k: int)
    requires
        0 <= k < s.len(),
        s[k] == c,
    ensures
        exists|i: int| 0 <= i < s.len() && s[i] == c && forall|j: int| 0 <= j < i ==> s[j] != c,
    decreases k,
{
    if exists|j: int| 0 <= j < k && s[j] == c {
        let j = choose|j: int| 0 <= j < k && s[j] == c;
        lemma_first_exists(s, c, j);
    }
}

/// The first occurrence is the one with no earlier occurrence.
pub proof fn lemma_index_of_is(s: Seq<char>, c: char, i: int)
    requires
        0 <= i < s.len(),
        s[i] == c,
        forall|j: int| 0 <= j < i ==> s[j] != c,
    ensures
        index_of(s, c) == i,
{
    lemma_index_of(s, c);
    let k = index_of(s, c);
    if k < i {
        assert(s[k] == c);
    } else if k > i {
        assert(s[i] != c);
    }
}

/// No occurrence means -1.
pub proof fn lemma_index_of_none(s: Seq<char>, c: char)
    requires
        forall|j: int| 0 <= j < s.len() ==> s[j] != c,
    ensures
        index_of(s, c) == -1,
{
    lemma_index_of(s, c);
    if index_of(s, c) >= 0 {
        assert(s[index_of(s, c)] == c);
    }
}

/// Characterises `last_index_of_seq`.
pub proof fn lemma_last_index_of_seq(s: Seq<char>, p: Seq<char>, i: int)
    requires
        occurs_at(s, p, i),
        forall|j: int| i < j ==> !occurs_at(s, p, j),
    ensures
        last_index_of_seq(s, p) == i,
{
    assert(contains_seq(s, p));
    let k = last_index_of_seq(s, p);
    assert(occurs_at(s, p, k) && forall|j: int| k < j ==> !occurs_at(s, p, j));
    if k < i {
        assert(!occurs_at(s, p, i));
    } else if k > i {
        assert(!occurs_at(s, p, k));
    }
}

/// A found last occurrence is an occurrence.
pub proof fn lemma_last_index_of_seq_props(s: Seq<char>, p: Seq<char>)
    ensures
        last_index_of_seq(s, p) >= 0 ==> occurs_at(s, p, last_index_of_seq(s, p)),
{
    if contains_seq(s, p) {
        let k = choose|k: int| occurs_at(s, p, k);
        lemma_last_exists(s, p, k);
    }
}

proof fn lemma_last_exists(s: Seq<char>, p: Seq<char>, k: int)
    requires
        occurs_at(s, p, k),
    ensures
        exists|i: int| occurs_at(s, p, i) && forall|j: int| i < j ==> !occurs_at(s, p, j),
    decreases s.len() - k,
{
    if exists|j: int| k < j && occurs_at(s, p, j) {
        let j = choose|j: int| k < j && occurs_at(s, p, j);
        lemma_last_exists(s, p, j);
    }
}

pub(crate) proof fn lemma_trim_start_shape(s: Seq<char>)
    ensures
        exists|k: int| 0 <= k <= s.len() && trim_start(s) == s.skip(k),
        trim_start(s).len() > 0 ==> !is_ws(trim_start(s)[0]),
    decreases s.len(),
{
    if s.len() > 0 && is_ws(s[0]) {
        lemma_trim_start_shape(s.drop_first());
        let k = choose|k: int| 0 <= k <= s.drop_first().len() && trim_start(s.drop_first()) == s.drop_first().skip(k);
        assert(s.drop_first().skip(k) =~= s.skip(k + 1));
    } else {
        assert(s.skip(0) =~= s);
    }
}

pub(crate) proof fn lemma_trim_end_shape(s: Seq<char>)
    ensures
        exists|k: int| 0 <= k <= s.len() && trim_end(s) == s.take(k),
        trim_end(s).len() > 0 ==> !is_ws(trim_end(s).last()),
    decreases s.len(),
{
    if s.len() > 0 && is_ws(s.last()) {
        lemma_trim_end_shape(s.drop_last());
        let k = choose|k: int| 0 <= k <= s.drop_last().len() && trim_end(s.drop_last()) == s.drop_last().take(k);
        assert(s.drop_last().take(k) =~= s.take(k));
    } else {
        assert(s.take(s.len() as int) =~= s);
    }
}

/// Trimming twice is trimming once.
pub proof fn lemma_trim_idempotent(s: Seq<char>)
    ensures
        trim(trim(s)) == trim(s),
{
    let t = trim_start(s);
    let u = trim_end(t);
    lemma_trim_start_shape(s);
    lemma_trim_end_shape(t);
    let k = choose|k: int| 0 <= k <= t.len() && trim_end(t) == t.take(k);
    if u.len() > 0 {
        assert(u[0] == t[0]);
        assert(!is_ws(u[0]));
    }
    assert(trim_start(u) == u);
    lemma_trim_end_shape(u);
    if u.len() > 0 {
        assert(!is_ws(u.last()));
    }
    assert(trim_end(u) == u);
}

pub(crate) proof fn lemma_trim_start_skip(s: Seq<char>, i: int)
    requires
        0 <= i <= s.len(),
        forall|j: int| 0 <= j < i ==> is_ws(s[j]),
    ensures
        trim_start(s) == trim_start(s.skip(i)),
    decreases i,
{
    if i > 0 {
        assert(s.drop_first().skip(i - 1) =~= s.skip(i));
        lemma_trim_start_skip(s.drop_first(), i - 1);
    } else {
        assert(s.skip(0) =~= s);
    }
}

proof fn lemma_trim_end_take(s: Seq<char>, i: int)
    requires
        0 <= i <= s.len(),
        forall|j: int| i <= j < s.len() ==> is_ws(s[j]),
    ensures
        trim_end(s) == trim_end(s.take(i)),
    decreases s.len() - i,
{
    if i < s.len() {
        assert(s.drop_last().take(i) =~= s.take(i));
        lemma_trim_end_take(s.drop_last(), i);
    } else {
        assert(s.take(i) =~= s);
    }
}

/// `utf8_len` distributes over concatenation.
pub proof fn lemma_utf8_len_add(a: Seq<char>, b: Seq<char>)
    ensures
        utf8_len(a + b) == utf8_len(a) + utf8_len(b),
    decreases b.len(),
{
    if b.len() == 0 {
        assert(a + b =~= a);
    } else {
        assert((a + b).drop_last() =~= a + b.drop_last());
        lemma_utf8_len_add(a, b.drop_last());
    }
}

/// Pushing onto a vector of vectors pushes the view.
pub proof fn lemma_seqs_push(out: Seq<Vec<char>>, x: Vec<char>)
    ensures
        seqs_of(out.push(x)) == seqs_of(out).push(x@),
{
    assert(seqs_of(out.push(x)) =~= seqs_of(out).push(x@));
}

proof fn lemma_split_step(v: Seq<char>, c: char, start: int, i: int)
    requires
        0 <= start <= i < v.len(),
        v[i] == c,
        forall|j: int| start <= j < i ==> v[j] != c,
    ensures
        split(v.skip(start), c) == seq![v.subrange(start, i)] + split(v.skip(i + 1), c),
{
    let s = v.skip(start);
    let k = i - start;
    assert forall|j: int| 0 <= j < k implies s[j] != c by {
        assert(s[j] == v[start + j]);
    }
    lemma_index_of_is(s, c, k);
    assert(s.take(k) =~= v.subrange(start, i));
    assert(s.skip(k + 1) =~= v.skip(i + 1));
    reveal(split);
}

proof fn lemma_split_last(v: Seq<char>, c: char, start: int)
    requires
        0 <= start <= v.len(),
        forall|j: int| start <= j < v.len() ==> v[j] != c,
    ensures
        split(v.skip(start), c) == seq![v.skip(start)],
{
    let s = v.skip(start);
    assert forall|j: int| 0 <= j < s.len() implies s[j] != c by {
        assert(s[j] == v[start + j]);
    }
    lemma_index_of_none(s, c);
    reveal(split);
}

proof fn lemma_lines_step(v: Seq<char>, start: int, i: int)
    requires
        0 <= start <= i < v.len(),
        v[i] == '\n',
        forall|j: int| start <= j < i ==> v[j] != '\n',
    ensures
        lines(v.skip(start)) == seq![strip_cr(v.subrange(start, i))] + lines(v.skip(i + 1)),
{
    let s = v.skip(start);
    let k = i - start;
    assert forall|j: int| 0 <= j < k implies s[j] != '\n' by {
        assert(s[j] == v[start + j]);
    }
    lemma_index_of_is(s, '\n', k);
    assert(s.take(k) =~= v.subrange(start, i));
    assert(s.skip(k + 1) =~= v.skip(i + 1));
    reveal(lines);
}

proof fn lemma_lines_last(v: Seq<char>, start: int)
    requires
        0 <= start <= v.len(),
        forall|j: int| start <= j < v.len() ==> v[j] != '\n',
    ensures
        start < v.len() ==> lines(v.skip(start)) == seq![v.skip(start)],
        start == v.len() ==> lines(v.skip(start)) == Seq::<Seq<char>>::empty(),
{
    let s = v.skip(start);
    assert forall|j: int| 0 <= j < s.len() implies s[j] != '\n' by {
        assert(s[j] == v[start + j]);
    }
    lemma_index_of_none(s, '\n');
    reveal(lines);
}

/// Splitting always gives at least one piece.
pub proof fn lemma_split_nonempty(s: Seq<char>, c: char)
    ensures
        split(s, c).len() >= 1,
{
    reveal(split);
    lemma_index_of(s, c);
}

// ---------------------------------------------------------------------
// Executable operations
// ---------------------------------------------------------------------

/// Copies the characters of a string slice into a vector.
pub fn chars_of(s: &str) -> (r: Vec<char>)
    ensures
        r@ == s@,
{
    let mut r: Vec<char> = Vec::new();
    for c in it: s.chars()
        invariant
            r@ == it.seq().take(it.index() as int),
            it.seq() == s@,
    {
        r.push(c);
    }
    r
}

/// Builds an owned string from its characters.
#[verifier::external_body]
pub(crate) fn string_of(v: &[char]) -> (r: String)
    ensures
        r@ == v@,
{
    v.iter().collect()
}

/// Copies `v[from..to]`.
pub fn slice_chars(v: &[char], from: usize, to: usize) -> (r: Vec<char>)
    requires
        from <= to <= v@.len(),
    ensures
        r@ == v@.subrange(from as int, to as int),
{
    let mut r: Vec<char> = Vec::new();
    let mut i = from;
    while i < to
        invariant
            from <= i <= to <= v@.len(),
            r@ == v@.subrange(from as int, i as int),
        decreases to - i,
    {
        r.push(v[i]);
        i = i + 1;
        assert(r@ =~= v@.subrange(from as int, i as int));
    }
    r
}

/// A copy of `v`.
pub fn copy_chars(v: &[char]) -> (r: Vec<char>)
    ensures
        r@ == v@,
{
    let r = slice_chars(v, 0, v.len());
    assert(r@ =~= v@);
    r
}

/// Appends the characters of `s` to `v`.
pub fn push_str(v: &mut Vec<char>, s: &str)
    ensures
        final(v)@ == old(v)@ + s@,
{
    let cs = chars_of(s);
    push_chars(v, &cs);
}

/// Appends `w` to `v`.
pub fn push_chars(v: &mut Vec<char>, w: &[char])
    ensures
        final(v)@ == old(v)@ + w@,
{
    let mut i: usize = 0;
    while i < w.len()
        invariant
            0 <= i <= w@.len(),
            v@ == old(v)@ + w@.take(i as int),
        decreases w@.len() - i,
    {
        v.push(w[i]);
        i = i + 1;
        assert(v@ =~= old(v)@ + w@.take(i as int));
    }
    assert(w@.take(w@.len() as int) =~= w@);
}

/// Whitespace test (`char::is_whitespace`).
pub fn is_whitespace(c: char) -> (r: bool)
    ensures
        r == is_ws(c),
{
    let u = c as u32;
    (0x09 <= u && u <= 0x0D) || u == 0x20 || u == 0x85 || u == 0xA0 || u == 0x1680 || (0x2000
        <= u && u <= 0x200A) || u == 0x2028 || u == 0x2029 || u == 0x202F || u == 0x205F || u
        == 0x3000
}

/// `str::trim` on a character sequence.
pub fn trim_chars(v: &[char]) -> (r: Vec<char>)
    ensures
        r@ == trim(v@),
{
    let n = v.len();
    let mut a: usize = 0;
    while a < n && is_whitespace(v[a])
        invariant
            0 <= a <= n == v@.len(),
            forall|j: int| 0 <= j < a ==> is_ws(v@[j]),
        decreases n - a,
    {
        a = a + 1;
    }
    let mut b: usize = n;
    while b > a && is_whitespace(v[b - 1])
        invariant
            a <= b <= n == v@.len(),
            forall|j: int| b <= j < n ==> is_ws(v@[j]),
        decreases b - a,
    {
        b = b - 1;
    }
    let r = slice_chars(v, a, b);
    proof {
        lemma_trim_start_skip(v@, a as int);
        let t = v@.skip(a as int);
        if a < n {
            assert(!is_ws(t[0]));
        }
        assert(trim_start(t) == t);
        lemma_trim_end_take(t, (b - a) as int);
        let u = t.take((b - a) as int);
        if b > a {
            assert(u.last() == v@[b - 1]);
        }
        assert(trim_end(u) == u);
        assert(u =~= v@.subrange(a as int, b as int));
    }
    r
}

/// `str::trim` on a string slice, as characters.
pub fn trim_str(s: &str) -> (r: Vec<char>)
    ensures
        r@ == trim(s@),
{
    let v = chars_of(s);
    trim_chars(&v)
}

/// First position of `c` (`str::find` with a char).
pub fn find_char(v: &[char], c: char) -> (r: Option<usize>)
    ensures
        match r {
            Some(i) => index_of(v@, c) == i,
            None => index_of(v@, c) == -1,
        },
{
    let mut i: usize = 0;
    while i < v.len()
        invariant
            0 <= i <= v@.len(),
            forall|j: int| 0 <= j < i ==> v@[j] != c,
        decreases v@.len() - i,
    {
        if v[i] == c {
            proof {
                lemma_index_of_is(v@, c, i as int);
            }
            return Some(i);
        }
        i = i + 1;
    }
    proof {
        lemma_index_of_none(v@, c);
    }
    None
}

/// Whether `c` occurs in `v`.
pub fn has_char(v: &[char], c: char) -> (r: bool)
    ensures
        r == v@.contains(c),
{
    let f = find_char(v, c);
    proof {
        lemma_index_of(v@, c);
    }
    f.is_some()
}

/// Whether `v` begins with the characters of `p`.
pub fn starts_with_str(v: &[char], p: &str) -> (r: bool)
    ensures
        r == starts_with(v@, p@),
{
    let pc = chars_of(p);
    starts_with_chars(v, &pc)
}

/// Whether `v` begins with `p`.
pub fn starts_with_chars(v: &[char], p: &[char]) -> (r: bool)
    ensures
        r == starts_with(v@, p@),
{
    if p.len() > v.len() {
        return false;
    }
    let mut i: usize = 0;
    while i < p.len()
        invariant
            0 <= i <= p@.len() <= v@.len(),
            forall|j: int| 0 <= j < i ==> v@[j] == p@[j],
        decreases p@.len() - i,
    {
        if v[i] != p[i] {
            assert(v@.take(p@.len() as int)[i as int] != p@[i as int]);
            return false;
        }
        i = i + 1;
    }
    assert(v@.take(p@.len() as int) =~= p@);
    true
}

/// Whether `v` ends with the characters of `p`.
pub fn ends_with_str(v: &[char], p: &str) -> (r: bool)
    ensures
        r == ends_with(v@, p@),
{
    let pc = chars_of(p);
    if pc.len() > v.len() {
        return false;
    }
    let off = v.len() - pc.len();
    let mut i: usize = 0;
    while i < pc.len()
        invariant
            0 <= i <= pc@.len() <= v@.len(),
            off == v@.len() - pc@.len(),
            pc@ == p@,
            v@.len() <= usize::MAX,
            forall|j: int| 0 <= j < i ==> v@[off + j] == pc@[j],
        decreases pc@.len() - i,
    {
        assert(off + i < v@.len());
        if v[off + i] != pc[i] {
            assert(v@.skip(off as int)[i as int] != pc@[i as int]);
            return false;
        }
        i = i + 1;
    }
    assert(v@.skip(off as int) =~= pc@);
    true
}

/// Whether `v` equals the characters of `p`.
pub fn eq_str(v: &[char], p: &str) -> (r: bool)
    ensures
        r == (v@ == p@),
{
    let pc = chars_of(p);
    let b = starts_with_chars(v, &pc);
    if b && v.len() == pc.len() {
        assert(v@ =~= v@.take(pc@.len() as int));
        true
    } else {
        proof {
            if v@ == pc@ {
                assert(v@.take(pc@.len() as int) =~= v@);
            }
        }
        false
    }
}

/// Whether `p` occurs in `v` at position `i`.
pub fn occurs_at_exec(v: &[char], p: &[char], i: usize) -> (r: bool)
    ensures
        r == occurs_at(v@, p@, i as int),
{
    if i > v.len() || p.len() > v.len() - i {
        return false;
    }
    let mut k: usize = 0;
    while k < p.len()
        invariant
            0 <= k <= p@.len(),
            i + p@.len() <= v@.len(),
            v@.len() <= usize::MAX,
            forall|j: int| 0 <= j < k ==> v@[i + j] == p@[j],
        decreases p@.len() - k,
    {
        assert(i + k < v@.len());
        if v[i + k] != p[k] {
            assert(v@.subrange(i as int, i + p@.len())[k as int] != p@[k as int]);
            return false;
        }
        k = k + 1;
    }
    assert(v@.subrange(i as int, i + p@.len()) =~= p@);
    true
}

/// Whether the characters of `p` occur in `v` (`str::contains`).
pub fn contains_str(v: &[char], p: &str) -> (r: bool)
    ensures
        r == contains_seq(v@, p@),
{
    let pc = chars_of(p);
    if pc.len() == 0 {
        assert(v@.subrange(0, 0) =~= p@);
        assert(occurs_at(v@, p@, 0));
        return true;
    }
    if pc.len() > v.len() {
        assert forall|j: int| !occurs_at(v@, p@, j) by {}
        return false;
    }
    let last = v.len() - pc.len();
    let mut i: usize = 0;
    while i <= last
        invariant
            0 <= i <= last + 1,
            last == v@.len() - pc@.len(),
            v@.len() <= usize::MAX,
            pc@.len() >= 1,
            pc@ == p@,
            forall|j: int| 0 <= j < i ==> !occurs_at(v@, p@, j),
        decreases last + 1 - i,
    {
        if occurs_at_exec(v, &pc, i) {
            return true;
        }
        i = i + 1;
    }
    assert forall|j: int| !occurs_at(v@, p@, j) by {
        if 0 <= j < i {
        }
    }
    false
}

/// Start of the last occurrence of the characters of `p` (`str::rfind`).
pub fn rfind_str(v: &[char], p: &str) -> (r: Option<usize>)
    ensures
        match r {
            Some(i) => last_index_of_seq(v@, p@) == i,
            None => last_index_of_seq(v@, p@) == -1,
        },
{
    let pc = chars_of(p);
    if pc.len() > v.len() {
        assert forall|j: int| !occurs_at(v@, p@, j) by {}
        assert(!contains_seq(v@, p@));
        return None;
    }
    let mut i: usize = v.len() - pc.len();
    loop
        invariant
            0 <= i <= v@.len() - pc@.len(),
            pc@ == p@,
            forall|j: int| i < j ==> !occurs_at(v@, p@, j),
        ensures
            forall|j: int| 0 <= j ==> !occurs_at(v@, p@, j),
        decreases i,
    {
        if occurs_at_exec(v, &pc, i) {
            proof {
                lemma_last_index_of_seq(v@, p@, i as int);
            }
            return Some(i);
        }
        if i == 0 {
            break;
        }
        i = i - 1;
    }
    assert(!contains_seq(v@, p@));
    None
}

/// `str::trim_start_matches` with a string prefix (an empty prefix
/// removes nothing).
pub fn trim_start_matches_str(v: &[char], p: &str) -> (r: Vec<char>)
    ensures
        r@ == trim_start_matches(v@, p@),
{
    if p.is_empty() {
        return copy_chars(v);
    }
    let pc = chars_of(p);
    let mut start: usize = 0;
    let ghost n = pc@.len();
    assert(v@.skip(0) =~= v@);
    while start <= v.len() && pc.len() <= v.len() - start && occurs_at_exec(v, &pc, start)
        invariant
            0 <= start <= v@.len(),
            pc@ == p@,
            n > 0,
            n == pc@.len(),
            trim_start_matches(v@, p@) == trim_start_matches(v@.skip(start as int), p@),
        decreases v@.len() - start,
    {
        let ghost s = v@.skip(start as int);
        assert(s.take(n as int) =~= v@.subrange(start as int, start + n));
        assert(s.skip(n as int) =~= v@.skip(start + n));
        start = start + pc.len();
    }
    let r = slice_chars(v, start, v.len());
    proof {
        let s = v@.skip(start as int);
        if starts_with(s, p@) {
            assert(v@.subrange(start as int, start + n) =~= s.take(n as int));
            assert(occurs_at(v@, p@, start as int));
        }
        assert(r@ =~= s);
    }
    r
}

/// Pieces between occurrences of `c` (`str::split` with a char).
pub fn split_chars(v: &[char], c: char) -> (r: Vec<Vec<char>>)
    ensures
        seqs_of(r@) == split(v@, c),
{
    let mut out: Vec<Vec<char>> = Vec::new();
    let mut start: usize = 0;
    let mut i: usize = 0;
    assert(v@.skip(0) =~= v@);
    assert(seqs_of(out@) + split(v@, c) =~= split(v@, c));
    while i < v.len()
        invariant
            0 <= start <= i <= v@.len(),
            forall|j: int| start <= j < i ==> v@[j] != c,
            seqs_of(out@) + split(v@.skip(start as int), c) == split(v@, c),
        decreases v@.len() - i,
    {
        if v[i] == c {
            let piece = slice_chars(v, start, i);
            proof {
                lemma_split_step(v@, c, start as int, i as int);
                lemma_seqs_push(out@, piece);
                assert(seqs_of(out@).push(piece@) + split(v@.skip(i + 1), c) =~= seqs_of(out@)
                    + split(v@.skip(start as int), c));
            }
            out.push(piece);
            start = i + 1;
        }
        i = i + 1;
    }
    let last = slice_chars(v, start, v.len());
    proof {
        lemma_split_last(v@, c, start as int);
        assert(last@ =~= v@.skip(start as int));
        lemma_seqs_push(out@, last);
        assert(seqs_of(out@).push(last@) =~= seqs_of(out@) + split(v@.skip(start as int), c));
    }
    out.push(last);
    out
}

/// At most two pieces split at the first `c` (`str::splitn(2, c)`).
pub fn split_once_chars(v: &[char], c: char) -> (r: Vec<Vec<char>>)
    ensures
        seqs_of(r@) == split_once(v@, c),
{
    let mut out: Vec<Vec<char>> = Vec::new();
    let n = v.len();
    match find_char(v, c) {
        Some(i) => {
            proof {
                lemma_index_of(v@, c);
            }
            let a = slice_chars(v, 0, i);
            let b = slice_chars(v, i + 1, v.len());
            assert(a@ =~= v@.take(i as int));
            assert(b@ =~= v@.skip(i + 1));
            out.push(a);
            out.push(b);
            assert(seqs_of(out@) =~= split_once(v@, c));
        },
        None => {
            let a = slice_chars(v, 0, v.len());
            assert(a@ =~= v@);
            out.push(a);
            assert(seqs_of(out@) =~= split_once(v@, c));
        },
    }
    out
}

/// Lines of `v` (`str::lines`).
pub fn lines_chars(v: &[char]) -> (r: Vec<Vec<char>>)
    ensures
        seqs_of(r@) == lines(v@),
{
    let mut out: Vec<Vec<char>> = Vec::new();
    let mut start: usize = 0;
    let mut i: usize = 0;
    assert(v@.skip(0) =~= v@);
    assert(seqs_of(out@) + lines(v@) =~= lines(v@));
    while i < v.len()
        invariant
            0 <= start <= i <= v@.len(),
            forall|j: int| start <= j < i ==> v@[j] != '\n',
            seqs_of(out@) + lines(v@.skip(start as int)) == lines(v@),
        decreases v@.len() - i,
    {
        if v[i] == '\n' {
            let end = if i > start && v[i - 1] == '\r' {
                i - 1
            } else {
                i
            };
            let piece = slice_chars(v, start, end);
            proof {
                lemma_lines_step(v@, start as int, i as int);
                assert(strip_cr(v@.subrange(start as int, i as int)) =~= piece@);
                lemma_seqs_push(out@, piece);
                assert(seqs_of(out@).push(piece@) + lines(v@.skip(i + 1)) =~= seqs_of(out@)
                    + lines(v@.skip(start as int)));
            }
            out.push(piece);
            start = i + 1;
        }
        i = i + 1;
    }
    proof {
        lemma_lines_last(v@, start as int);
    }
    if start < v.len() {
        let last = slice_chars(v, start, v.len());
        proof {
            assert(last@ =~= v@.skip(start as int));
            lemma_seqs_push(out@, last);
            assert(seqs_of(out@).push(last@) =~= seqs_of(out@) + lines(v@.skip(start as int)));
        }
        out.push(last);
    } else {
        assert(seqs_of(out@) =~= seqs_of(out@) + lines(v@.skip(start as int)));
    }
    out
}

/// Joins pieces with a separator (`slice::join`).
pub fn join_chars(pieces: &Vec<Vec<char>>, sep: &str) -> (r: Vec<char>)
    ensures
        r@ == join(seqs_of(pieces@), sep@),
{
    let sc = chars_of(sep);
    let mut out: Vec<char> = Vec::new();
    let mut i: usize = 0;
    while i < pieces.len()
        invariant
            0 <= i <= pieces@.len(),
            sc@ == sep@,
            out@ == join(seqs_of(pieces@).take(i as int), sep@),
        decreases pieces@.len() - i,
    {
        let ghost pre = seqs_of(pieces@).take(i as int);
        let ghost nxt = seqs_of(pieces@).take(i + 1);
        assert(nxt.drop_last() =~= pre);
        if i > 0 {
            push_chars(&mut out, &sc);
        }
        push_chars(&mut out, &pieces[i]);
        proof {
            if i == 0 {
                assert(out@ =~= nxt[0]);
            }
        }
        i = i + 1;
    }
    assert(seqs_of(pieces@).take(pieces@.len() as int) =~= seqs_of(pieces@));
    out
}

/// The byte length of the longest prefix of `v` that fits in `limit`
/// bytes, with the number of characters in it.
pub fn utf8_prefix(v: &[char], limit: usize) -> (r: (usize, usize))
    ensures
        r.0 <= v@.len(),
        r.1 == utf8_len(v@.take(r.0 as int)),
        r.1 <= limit,
        r.0 < v@.len() ==> r.1 + utf8_width(v@[r.0 as int]) > limit,
{
    let mut k: usize = 0;
    let mut bytes: usize = 0;
    assert(v@.take(0) =~= Seq::<char>::empty());
    while k < v.len()
        invariant
            0 <= k <= v@.len(),
            bytes == utf8_len(v@.take(k as int)),
            bytes <= limit,
        decreases v@.len() - k,
    {
        let c = v[k];
        let u = c as u32;
        let w: usize = if u < 0x80 {
            1
        } else if u < 0x800 {
            2
        } else if u < 0x10000 {
            3
        } else {
            4
        };
        assert(w == utf8_width(v@[k as int]));
        if w > limit - bytes {
            return (k, bytes);
        }
        assert(v@.take(k + 1).drop_last() =~= v@.take(k as int));
        bytes = bytes + w;
        k = k + 1;
    }
    (k, bytes)
}

} // verus!
