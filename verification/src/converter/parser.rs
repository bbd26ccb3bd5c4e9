//! Dispatch of share links to the protocol parsers, and lists of links.
use vstd::prelude::*;
use crate::text::{
    trim, starts_with, utf8_len, utf8_cut, join, lemma_utf8_cut_is, chars_of, trim_chars,
    starts_with_str, utf8_prefix, slice_chars, string_of, push_str, push_chars,
};
use crate::converter::types::{Proxy, ProxyView, proxy_result, proxies, strs};
use crate::converter::vmess::{vmess_link, parse_vmess};
use crate::converter::vless::{vless_link, parse_vless};
use crate::converter::trojan::{trojan_link, parse_trojan};
use crate::converter::ss::{ss_link, parse_ss};

verus! {

/// Whether a (trimmed) link has one of the supported schemes.
pub open spec fn known_scheme(l: Seq<char>) -> bool {
    starts_with(l, "vmess://"@) || starts_with(l, "vless://"@) || starts_with(l, "trojan://"@)
        || starts_with(l, "ss://"@)
}

/// The first at most 20 bytes of a link, for error messages.
pub open spec fn link_excerpt(l: Seq<char>) -> Seq<char> {
    l.take(utf8_cut(l, 20))
}

/// Whether the error text for a (trimmed) link can be formed: the link
/// has a known scheme, is at most 20 bytes long, or a character ends at
/// byte 20 (slicing there inside a character panics).
pub open spec fn excerpt_ok(l: Seq<char>) -> bool {
    known_scheme(l) || utf8_len(l) <= 20 || utf8_len(link_excerpt(l)) == 20
}

/// What a share link denotes, by its scheme after trimming.
pub open spec fn link_proxy(link: Seq<char>) -> Result<ProxyView, Seq<char>> {
    let l = trim(link);
    if starts_with(l, "vmess://"@) {
        vmess_link(l)
    } else if starts_with(l, "vless://"@) {
        vless_link(l)
    } else if starts_with(l, "trojan://"@) {
        trojan_link(l)
    } else if starts_with(l, "ss://"@) {
        ss_link(l)
    } else {
        Err("unsupported link format: "@ + link_excerpt(l))
    }
}

/// Surrounding whitespace does not change what a link denotes.
pub proof fn lemma_link_ignores_whitespace(link: Seq<char>)
    ensures
        link_proxy(trim(link)) == link_proxy(link),
{
    crate::text::lemma_trim_idempotent(link);
}

/// Characters and byte count of the excerpt of `l`.
fn excerpt(l: &[char]) -> (r: Vec<char>)
    ensures
        r@ == link_excerpt(l@),
{
    let (k, bytes) = utf8_prefix(l, 20);
    proof {
        lemma_utf8_cut_is(l@, 20, k as int);
    }
    slice_chars(l, 0, k)
}

/// Whether the excerpt of a link can be formed (see [`excerpt_ok`]).
pub fn link_excerpt_ok(link: &str) -> (r: bool)
    ensures
        r == excerpt_ok(trim(link@)),
{
    let l = trim_chars(&chars_of(link));
    if starts_with_str(&l, "vmess://") || starts_with_str(&l, "vless://") || starts_with_str(
        &l,
        "trojan://",
    ) || starts_with_str(&l, "ss://") {
        return true;
    }
    let (k, bytes) = utf8_prefix(&l, 20);
    proof {
        lemma_utf8_cut_is(l@, 20, k as int);
        if k == l@.len() {
            assert(l@.take(k as int) =~= l@);
        } else {
            crate::text::lemma_utf8_len_take_mono(l@, k as int, l@.len() as int);
            assert(l@.take(l@.len() as int) =~= l@);
        }
    }
    if k == l.len() {
        true
    } else {
        bytes == 20
    }
}

/// Parses one share link of any supported scheme.
pub fn parse_link(link: &str) -> (r: Result<Proxy, String>)
    requires
        excerpt_ok(trim(link@)),
    ensures
        proxy_result(r) == link_proxy(link@),
{
    let l = trim_chars(&chars_of(link));
    let ls = string_of(&l);
    if starts_with_str(&l, "vmess://") {
        parse_vmess(ls.as_str())
    } else if starts_with_str(&l, "vless://") {
        parse_vless(ls.as_str())
    } else if starts_with_str(&l, "trojan://") {
        parse_trojan(ls.as_str())
    } else if starts_with_str(&l, "ss://") {
        parse_ss(ls.as_str())
    } else {
        let mut msg = chars_of("unsupported link format: ");
        let ex = excerpt(&l);
        push_chars(&mut msg, &ex);
        Err(string_of(&msg))
    }
}

/// How `{:?}` renders a string: quoted, with escapes.
pub uninterp spec fn debug_str(s: Seq<char>) -> Seq<char>;

/// Formats a string with `{:?}`; the result is named.
#[verifier::external_body]
fn debug_quoted(s: &str) -> (r: String)
    ensures
        r@ == debug_str(s@),
{
    format!("{:?}", s)
}

/// How `{:?}` renders a list of strings.
pub open spec fn debug_list(es: Seq<Seq<char>>) -> Seq<char> {
    "["@ + join(es.map_values(|e: Seq<char>| debug_str(e)), ", "@) + "]"@
}

/// Proxies parsed and errors met, in order, over the non-blank links.
pub open spec fn link_outcomes(links: Seq<Seq<char>>) -> (Seq<ProxyView>, Seq<Seq<char>>)
    decreases links.len(),
{
    if links.len() == 0 {
        (seq![], seq![])
    } else {
        let (ps, es) = link_outcomes(links.drop_last());
        let t = trim(links.last());
        if t.len() == 0 {
            (ps, es)
        } else {
            match link_proxy(t) {
                Ok(p) => (ps.push(p), es),
                Err(e) => (ps, es.push(e)),
            }
        }
    }
}

/// What a list of links yields: the proxies, or an error listing every
/// failure when none parsed and at least one failed.
pub open spec fn links_proxies(links: Seq<Seq<char>>) -> Result<Seq<ProxyView>, Seq<char>> {
    let (ps, es) = link_outcomes(links);
    if ps.len() == 0 && es.len() > 0 {
        Err("failed to parse any links: "@ + debug_list(es))
    } else {
        Ok(ps)
    }
}

/// Every link's error excerpt can be formed.
pub open spec fn links_ok(links: Seq<Seq<char>>) -> bool {
    forall|i: int| 0 <= i < links.len() ==> excerpt_ok(trim(trim(#[trigger] links[i])))
}

/// View of a list outcome.
pub open spec fn proxies_result(r: Result<Vec<Proxy>, String>) -> Result<Seq<ProxyView>, Seq<char>> {
    match r {
        Ok(v) => Ok(proxies(v@)),
        Err(e) => Err(e@),
    }
}

/// `{:?}` of a list of strings.
fn debug_strings(es: &Vec<String>) -> (r: Vec<char>)
    ensures
        r@ == debug_list(strs(es@)),
{
    let mut quoted: Vec<Vec<char>> = Vec::new();
    let mut i: usize = 0;
    while i < es.len()
        invariant
            i <= es@.len(),
            crate::text::seqs_of(quoted@) == strs(es@).take(i as int).map_values(
                |e: Seq<char>| debug_str(e),
            ),
        decreases es@.len() - i,
    {
        let q = debug_quoted(es[i].as_str());
        let qc = chars_of(q.as_str());
        let ghost before = crate::text::seqs_of(quoted@);
        quoted.push(qc);
        assert(crate::text::seqs_of(quoted@) =~= before.push(debug_str(es@[i as int]@)));
        assert(strs(es@).take(i + 1).map_values(|e: Seq<char>| debug_str(e)) =~= strs(es@).take(
            i as int,
        ).map_values(|e: Seq<char>| debug_str(e)).push(debug_str(es@[i as int]@)));
        i = i + 1;
    }
    assert(strs(es@).take(es@.len() as int) =~= strs(es@));
    let mut r = chars_of("[");
    let body = crate::text::join_chars(&quoted, ", ");
    push_chars(&mut r, &body);
    push_str(&mut r, "]");
    r
}

/// Parses every non-blank link; fails only when none parsed and some failed.
pub fn parse_links(links: &[String]) -> (r: Result<Vec<Proxy>, String>)
    requires
        links_ok(strs(links@)),
    ensures
        proxies_result(r) == links_proxies(strs(links@)),
{
    let ghost ls = strs(links@);
    let mut out: Vec<Proxy> = Vec::new();
    let mut errors: Vec<String> = Vec::new();
    let mut i: usize = 0;
    assert(ls.take(0) =~= Seq::<Seq<char>>::empty());
    assert(proxies(out@) =~= Seq::<ProxyView>::empty());
    assert(strs(errors@) =~= Seq::<Seq<char>>::empty());
    while i < links.len()
        invariant
            i <= links@.len(),
            ls == strs(links@),
            links_ok(ls),
            (proxies(out@), strs(errors@)) == link_outcomes(ls.take(i as int)),
        decreases links@.len() - i,
    {
        let ghost t = ls.take(i + 1);
        assert(t.drop_last() =~= ls.take(i as int));
        assert(t.last() == links@[i as int]@);
        let trimmed = trim_chars(&chars_of(links[i].as_str()));
        if trimmed.len() > 0 {
            let ts = string_of(&trimmed);
            assert(excerpt_ok(trim(trim(ls[i as int]))));
            match parse_link(ts.as_str()) {
                Ok(p) => {
                    let ghost before = proxies(out@);
                    out.push(p);
                    assert(proxies(out@) =~= before.push(out@.last()@));
                },
                Err(e) => {
                    let ghost before = strs(errors@);
                    errors.push(e);
                    assert(strs(errors@) =~= before.push(errors@.last()@));
                },
            }
        }
        i = i + 1;
    }
    assert(ls.take(links@.len() as int) =~= ls);
    if out.len() == 0 && errors.len() > 0 {
        let mut msg = chars_of("failed to parse any links: ");
        let d = debug_strings(&errors);
        push_chars(&mut msg, &d);
        Err(string_of(&msg))
    } else {
        Ok(out)
    }
}

} // verus!
