//! Subscription documents: base64-encoded or plain lists of share links.
use vstd::prelude::*;
use crate::text::{trim, lines, seqs_of, chars_of, trim_chars, lines_chars, string_of};
use crate::converter::types::{Proxy, strs};
use crate::converter::encoding::{decoded_base64, utf8_lossy, decode_base64, lossy_string};
use crate::converter::parser::{links_ok, links_proxies, proxies_result, parse_links, link_excerpt_ok, excerpt_ok};

verus! {

/// The text of a subscription: its base64 decoding when it decodes, else itself.
pub open spec fn subscription_text(content: Seq<char>) -> Seq<char> {
    match decoded_base64(content) {
        Some(b) => utf8_lossy(b),
        None => content,
    }
}

/// Trimmed, non-blank lines.
pub open spec fn nonblank(ls: Seq<Seq<char>>) -> Seq<Seq<char>>
    decreases ls.len(),
{
    if ls.len() == 0 {
        seq![]
    } else {
        let t = trim(ls.last());
        if t.len() > 0 {
            nonblank(ls.drop_last()).push(t)
        } else {
            nonblank(ls.drop_last())
        }
    }
}

/// The links a subscription lists.
pub open spec fn subscription_links(content: Seq<char>) -> Seq<Seq<char>> {
    nonblank(lines(subscription_text(content)))
}

/// The trimmed non-blank lines of a subscription.
pub fn subscription_lines(content: &str) -> (r: Vec<String>)
    ensures
        strs(r@) == subscription_links(content@),
{
    let text = match decode_base64(content) {
        Ok(b) => lossy_string(&b),
        Err(_) => String::from_str(content),
    };
    let ls = lines_chars(&chars_of(text.as_str()));
    let ghost all = seqs_of(ls@);
    let mut out: Vec<String> = Vec::new();
    let mut i: usize = 0;
    assert(all.take(0) =~= Seq::<Seq<char>>::empty());
    assert(strs(out@) =~= nonblank(all.take(0)));
    while i < ls.len()
        invariant
            i <= ls@.len(),
            all == seqs_of(ls@),
            all == lines(subscription_text(content@)),
            strs(out@) == nonblank(all.take(i as int)),
        decreases ls@.len() - i,
    {
        let ghost tk = all.take(i + 1);
        assert(tk.drop_last() =~= all.take(i as int));
        assert(tk.last() == ls@[i as int]@);
        let t = trim_chars(&ls[i]);
        if t.len() > 0 {
            let ghost before = strs(out@);
            out.push(string_of(&t));
            assert(strs(out@) =~= before.push(t@));
        }
        i = i + 1;
    }
    assert(all.take(ls@.len() as int) =~= all);
    out
}

/// Parses a subscription: every non-blank line as a share link.
pub fn parse_subscription(content: &str) -> (r: Result<Vec<Proxy>, String>)
    requires
        links_ok(subscription_links(content@)),
    ensures
        proxies_result(r) == links_proxies(subscription_links(content@)),
{
    let ls = subscription_lines(content);
    parse_links(ls.as_slice())
}

/// Parses a subscription when every error excerpt can be formed, and
/// gives `None` for a subscription on which the parse would abort.
pub fn try_parse_subscription(content: &str) -> (r: Option<Result<Vec<Proxy>, String>>)
    ensures
        r is None <==> !links_ok(subscription_links(content@)),
        r matches Some(x) ==> proxies_result(x) == links_proxies(subscription_links(content@)),
{
    let ls = subscription_lines(content);
    let ghost v = strs(ls@);
    let mut i: usize = 0;
    while i < ls.len()
        invariant
            i <= ls@.len(),
            v == strs(ls@),
            v == subscription_links(content@),
            forall|j: int| 0 <= j < i ==> excerpt_ok(trim(trim(#[trigger] v[j]))),
        decreases ls@.len() - i,
    {
        let t = trim_chars(&chars_of(ls[i].as_str()));
        let ts = string_of(&t);
        if !link_excerpt_ok(ts.as_str()) {
            assert(v[i as int] == ls@[i as int]@);
            assert(!excerpt_ok(trim(trim(v[i as int]))));
            assert(!links_ok(v));
            return None;
        }
        i = i + 1;
    }
    Some(parse_subscription(content))
}

} // verus!
