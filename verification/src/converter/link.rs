//! Pieces shared by the URI-style share links (`scheme://userinfo@host:port?query#remark`).
use vstd::prelude::*;
use crate::text::{
    index_of, split, trim, seqs_of, trim_chars, lemma_index_of, slice_chars, find_char, split_chars, string_of,
    push_str, push_chars, chars_of,
};
use crate::num::{parse_i32, int_error_message, decimal, parse_i32_chars, int_error_text, decimal_i32_chars};
use crate::converter::types::{ProxyView, Proxy, strs, pairs_map, str_pairs};
use crate::converter::query::{url_decoded, param, url_decode, Params};

verus! {

/// Remark (percent-decoded fragment, or empty), query and body of a link
/// whose scheme has been removed: the fragment is cut at the first `#`,
/// then the query at the first `?`.
pub open spec fn link_parts(rest: Seq<char>) -> (Seq<char>, Seq<char>, Seq<char>) {
    let h = index_of(rest, '#');
    let remark = if h < 0 {
        Seq::<char>::empty()
    } else {
        url_decoded(rest.skip(h + 1))
    };
    let rest1 = if h < 0 {
        rest
    } else {
        rest.take(h)
    };
    let q = index_of(rest1, '?');
    let query = if q < 0 {
        Seq::<char>::empty()
    } else {
        rest1.skip(q + 1)
    };
    let body = if q < 0 {
        rest1
    } else {
        rest1.take(q)
    };
    (remark, query, body)
}

/// `host:port` read as exactly two `:`-separated pieces with a decimal `i32` port.
pub open spec fn server_port(s: Seq<char>) -> Result<(Seq<char>, int), Seq<char>> {
    let sp = split(s, ':');
    if sp.len() != 2 {
        Err("invalid server:port format"@)
    } else {
        match parse_i32(sp[1]) {
            Ok(port) => Ok((sp[0], port)),
            Err(k) => Err("invalid port: "@ + int_error_message(k)),
        }
    }
}

/// The remark, or `host:port` when the remark is empty.
pub open spec fn proxy_name(remark: Seq<char>, server: Seq<char>, port: int) -> Seq<char> {
    if remark.len() == 0 {
        server + ":"@ + decimal(port)
    } else {
        remark
    }
}

/// Comma-separated ALPN list with each entry trimmed.
pub open spec fn alpn_list(a: Seq<char>) -> Seq<Seq<char>> {
    split(a, ',').map_values(|x: Seq<char>| trim(x))
}

/// A non-empty `sni` parameter becomes the server name.
pub open spec fn with_sni(p: ProxyView, params: Seq<(Seq<char>, Seq<char>)>) -> ProxyView {
    match param(params, "sni"@) {
        Some(s) => if s.len() > 0 {
            ProxyView { sni: Some(s), ..p }
        } else {
            p
        },
        None => p,
    }
}

/// A non-empty `alpn` parameter becomes the ALPN list.
pub open spec fn with_alpn(p: ProxyView, params: Seq<(Seq<char>, Seq<char>)>) -> ProxyView {
    match param(params, "alpn"@) {
        Some(a) => if a.len() > 0 {
            ProxyView { alpn: Some(alpn_list(a)), ..p }
        } else {
            p
        },
        None => p,
    }
}

/// A map holding only the `Host` header.
pub open spec fn host_header(h: Seq<char>) -> Map<Seq<char>, Seq<char>> {
    Map::<Seq<char>, Seq<char>>::empty().insert("Host"@, h)
}

/// Transport options from the `type`, `path`, `host` and `serviceName`
/// parameters: a non-empty `type` names the network; websocket takes the
/// decoded path and the host header, gRPC the service name, and the HTTP
/// transports the decoded path.
pub open spec fn with_network(p: ProxyView, params: Seq<(Seq<char>, Seq<char>)>) -> ProxyView {
    match param(params, "type"@) {
        Some(net) => if net.len() == 0 {
            p
        } else {
            let path = match param(params, "path"@) {
                Some(x) => Some(url_decoded(x)),
                None => None,
            };
            let host = param(params, "host"@);
            let p1 = ProxyView { network: Some(net), ..p };
            if net == "ws"@ || net == "websocket"@ {
                let p2 = ProxyView { ws_path: path, ..p1 };
                match host {
                    Some(h) => ProxyView { ws_headers: Some(host_header(h)), ..p2 },
                    None => p2,
                }
            } else if net == "grpc"@ {
                match param(params, "serviceName"@) {
                    Some(sn) => ProxyView { grpc_service_name: Some(sn), ..p1 },
                    None => p1,
                }
            } else if net == "splithttp"@ {
                ProxyView { splithttp_path: path, ..p1 }
            } else if net == "xhttp"@ {
                ProxyView { xhttp_path: path, ..p1 }
            } else if net == "httpupgrade"@ {
                ProxyView { httpupgrade_path: path, ..p1 }
            } else {
                p1
            }
        },
        None => p,
    }
}

/// Whether a string equals a literal.
pub fn str_is(s: &String, lit: &str) -> (r: bool)
    ensures
        r == (s@ == lit@),
{
    let l = String::from_str(lit);
    *s == l
}

/// Splits a scheme-less link into remark, query and body.
pub fn split_link(rest: &[char]) -> (r: (String, Vec<char>, Vec<char>))
    ensures
        (r.0@, r.1@, r.2@) == link_parts(rest@),
{
    let mut remark = String::new();
    let mut body = slice_chars(rest, 0, rest.len());
    assert(body@ =~= rest@);
    if let Some(h) = find_char(rest, '#') {
        proof {
            lemma_index_of(rest@, '#');
        }
        let frag = slice_chars(rest, h + 1, rest.len());
        assert(frag@ =~= rest@.skip(h + 1));
        remark = url_decode(&frag);
        body = slice_chars(rest, 0, h);
        assert(body@ =~= rest@.take(h as int));
    }
    let mut query: Vec<char> = Vec::new();
    let ghost rest1 = body@;
    if let Some(q) = find_char(&body, '?') {
        proof {
            lemma_index_of(rest1, '?');
        }
        query = slice_chars(&body, q + 1, body.len());
        let b2 = slice_chars(&body, 0, q);
        assert(query@ =~= rest1.skip(q + 1));
        assert(b2@ =~= rest1.take(q as int));
        body = b2;
    } else {
        assert(query@ =~= Seq::<char>::empty());
    }
    proof {
        if index_of(rest@, '#') < 0 {
            assert(remark@ =~= Seq::<char>::empty());
        }
    }
    (remark, query, body)
}

/// Reads `host:port`.
pub fn parse_server_port(s: &[char]) -> (r: Result<(String, i32), String>)
    ensures
        match r {
            Ok((h, p)) => server_port(s@) == Ok::<(Seq<char>, int), Seq<char>>((h@, p as int)),
            Err(e) => server_port(s@) == Err::<(Seq<char>, int), Seq<char>>(e@),
        },
{
    let sp = split_chars(s, ':');
    if sp.len() != 2 {
        return Err(String::from_str("invalid server:port format"));
    }
    assert(seqs_of(sp@)[1] == sp@[1]@);
    assert(seqs_of(sp@)[0] == sp@[0]@);
    match parse_i32_chars(&sp[1]) {
        Ok(port) => Ok((string_of(&sp[0]), port)),
        Err(k) => {
            let mut msg: Vec<char> = Vec::new();
            push_str(&mut msg, "invalid port: ");
            push_str(&mut msg, int_error_text(k));
            Err(string_of(&msg))
        },
    }
}

/// The remark, or `host:port` when the remark is empty.
pub fn make_name(remark: String, server: &String, port: i32) -> (r: String)
    ensures
        r@ == proxy_name(remark@, server@, port as int),
{
    if remark.as_str().is_empty() {
        let mut v = chars_of(server.as_str());
        push_str(&mut v, ":");
        let d = decimal_i32_chars(port);
        push_chars(&mut v, &d);
        string_of(&v)
    } else {
        remark
    }
}

/// Trimmed pieces of a comma-separated list.
pub fn alpn_values(a: &String) -> (r: Vec<String>)
    ensures
        strs(r@) == alpn_list(a@),
{
    let v = chars_of(a.as_str());
    let pieces = split_chars(&v, ',');
    let ghost ps = seqs_of(pieces@);
    let mut out: Vec<String> = Vec::new();
    let mut i: usize = 0;
    while i < pieces.len()
        invariant
            0 <= i <= pieces@.len(),
            ps == seqs_of(pieces@),
            ps == split(a@, ','),
            strs(out@) == ps.take(i as int).map_values(|x: Seq<char>| trim(x)),
        decreases pieces@.len() - i,
    {
        let t = trim_chars(&pieces[i]);
        let st = string_of(&t);
        assert(ps[i as int] == pieces@[i as int]@);
        let ghost before = strs(out@);
        out.push(st);
        assert(strs(out@) =~= before.push(trim(ps[i as int])));
        assert(ps.take(i + 1).map_values(|x: Seq<char>| trim(x)) =~= ps.take(i as int).map_values(
            |x: Seq<char>| trim(x),
        ).push(trim(ps[i as int])));
        i = i + 1;
    }
    assert(ps.take(pieces@.len() as int) =~= ps);
    out
}

/// A one-entry header list holding the `Host` header.
pub fn host_header_entries(h: String) -> (r: Vec<(String, String)>)
    ensures
        pairs_map(str_pairs(r@)) == host_header(h@),
{
    let r = vec![(String::from_str("Host"), h)];
    proof {
        let sp = str_pairs(r@);
        assert(sp.drop_last() =~= Seq::<(Seq<char>, Seq<char>)>::empty());
        assert(pairs_map(sp.drop_last()) == Map::<Seq<char>, Seq<char>>::empty());
        assert(sp.last() == ("Host"@, h@));
        assert(pairs_map(sp) == pairs_map(sp.drop_last()).insert(sp.last().0, sp.last().1));
    }
    r
}

/// Applies the `sni` parameter.
pub fn apply_sni(p: &mut Proxy, params: &Params)
    ensures
        final(p)@ == with_sni(old(p)@, params@),
{
    if let Some(s) = params.get("sni") {
        if !s.as_str().is_empty() {
            p.sni = Some(s);
        }
    }
}

/// Applies the `alpn` parameter.
pub fn apply_alpn(p: &mut Proxy, params: &Params)
    ensures
        final(p)@ == with_alpn(old(p)@, params@),
{
    if let Some(a) = params.get("alpn") {
        if !a.as_str().is_empty() {
            p.alpn = Some(alpn_values(&a));
        }
    }
}

/// Applies the transport parameters.
pub fn apply_network(p: &mut Proxy, params: &Params)
    ensures
        final(p)@ == with_network(old(p)@, params@),
{
    if let Some(net) = params.get("type") {
        if !net.as_str().is_empty() {
            let path = match params.get("path") {
                Some(x) => {
                    let xc = chars_of(x.as_str());
                    Some(url_decode(&xc))
                },
                None => None,
            };
            let host = params.get("host");
            p.network = Some(net.clone());
            if str_is(&net, "ws") || str_is(&net, "websocket") {
                p.ws_path = path;
                if let Some(h) = host {
                    p.ws_headers = Some(host_header_entries(h));
                }
            } else if str_is(&net, "grpc") {
                if let Some(sn) = params.get("serviceName") {
                    p.grpc_service_name = Some(sn);
                }
            } else if str_is(&net, "splithttp") {
                p.splithttp_path = path;
            } else if str_is(&net, "xhttp") {
                p.xhttp_path = path;
            } else if str_is(&net, "httpupgrade") {
                p.httpupgrade_path = path;
            }
        }
    }
}

} // verus!
