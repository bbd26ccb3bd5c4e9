//! `application/x-www-form-urlencoded` query strings, decoded by the
//! `form_urlencoded` crate (re-exported by `url`).
use vstd::prelude::*;
use crate::text::{string_of, push_str, push_chars};
use crate::converter::types::str_pairs;

verus! {

/// The (name, value) pairs that `form_urlencoded::parse` yields for
/// `input`, percent-decoded, in order.
pub uninterp spec fn form_pairs(input: Seq<char>) -> Seq<(Seq<char>, Seq<char>)>;

/// Calls `url::form_urlencoded::parse` on the UTF-8 bytes of `input` and
/// collects the owned pairs; the contract only names the result.
#[verifier::external_body]
fn form_parse(input: &str) -> (r: Vec<(String, String)>)
    ensures
        str_pairs(r@) == form_pairs(input@),
{
    url::form_urlencoded::parse(input.as_bytes()).into_owned().collect()
}

/// Value of the last pair named `key` (a map collected from the pairs).
pub open spec fn param(pairs: Seq<(Seq<char>, Seq<char>)>, key: Seq<char>) -> Option<Seq<char>>
    decreases pairs.len(),
{
    if pairs.len() == 0 {
        None
    } else if pairs.last().0 == key {
        Some(pairs.last().1)
    } else {
        param(pairs.drop_last(), key)
    }
}

/// Value of the first pair named `key` (`Iterator::find`).
pub open spec fn first_param(pairs: Seq<(Seq<char>, Seq<char>)>, key: Seq<char>) -> Option<
    Seq<char>,
>
    decreases pairs.len(),
{
    if pairs.len() == 0 {
        None
    } else if pairs[0].0 == key {
        Some(pairs[0].1)
    } else {
        first_param(pairs.drop_first(), key)
    }
}

/// Percent-decoding of a link component: the value of the first `k`
/// pair of `k=<s>`, or `s` unchanged when there is none.
pub open spec fn url_decoded(s: Seq<char>) -> Seq<char> {
    match first_param(form_pairs("k="@ + s), "k"@) {
        Some(v) => v,
        None => s,
    }
}

/// Parsed query parameters.
pub struct Params {
    pub pairs: Vec<(String, String)>,
}

impl View for Params {
    type V = Seq<(Seq<char>, Seq<char>)>;

    open spec fn view(&self) -> Seq<(Seq<char>, Seq<char>)> {
        str_pairs(self.pairs@)
    }
}

/// Parses a query string into its pairs.
pub fn parse_params(query: &str) -> (r: Params)
    ensures
        r@ == form_pairs(query@),
{
    Params { pairs: form_parse(query) }
}

impl Params {
    /// Value of the last pair named `key`.
    pub fn get(&self, key: &str) -> (r: Option<String>)
        ensures
            opt_view(r) == param(self@, key@),
    {
        let k = String::from_str(key);
        let mut i = self.pairs.len();
        assert(self@.take(i as int) =~= self@);
        while i > 0
            invariant
                i <= self.pairs@.len(),
                k@ == key@,
                param(self@, key@) == param(self@.take(i as int), key@),
            decreases i,
        {
            let ghost t = self@.take(i as int);
            assert(t.drop_last() =~= self@.take(i - 1));
            if self.pairs[i - 1].0 == k {
                return Some(self.pairs[i - 1].1.clone());
            }
            i = i - 1;
        }
        None
    }

    /// Value of the first pair named `key`.
    pub fn get_first(&self, key: &str) -> (r: Option<String>)
        ensures
            opt_view(r) == first_param(self@, key@),
    {
        let k = String::from_str(key);
        let mut i: usize = 0;
        assert(self@.skip(0) =~= self@);
        while i < self.pairs.len()
            invariant
                i <= self.pairs@.len(),
                k@ == key@,
                first_param(self@, key@) == first_param(self@.skip(i as int), key@),
            decreases self.pairs@.len() - i,
        {
            assert(self@.skip(i as int).drop_first() =~= self@.skip(i + 1));
            if self.pairs[i].0 == k {
                return Some(self.pairs[i].1.clone());
            }
            i = i + 1;
        }
        None
    }
}

/// View of an optional string.
pub open spec fn opt_view(o: Option<String>) -> Option<Seq<char>> {
    match o {
        Some(s) => Some(s@),
        None => None,
    }
}

/// Percent-decodes a link component (`k=<s>` parsed as a form).
pub fn url_decode(s: &[char]) -> (r: String)
    ensures
        r@ == url_decoded(s@),
{
    let mut q: Vec<char> = Vec::new();
    push_str(&mut q, "k=");
    push_chars(&mut q, s);
    let qs = string_of(&q);
    let params = parse_params(qs.as_str());
    match params.get_first("k") {
        Some(v) => v,
        None => string_of(s),
    }
}

} // verus!
