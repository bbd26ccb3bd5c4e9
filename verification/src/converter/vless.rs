//! `vless://uuid@host:port?query#remark` links.
use vstd::prelude::*;
use crate::text::{starts_with, trim_start_matches, split, seqs_of, starts_with_str, trim_start_matches_str, split_chars, string_of};
use crate::converter::types::{Proxy, ProxyView, ProxyType, bare_proxy, new_bare_proxy, proxy_result};
use crate::converter::query::{param, form_pairs, parse_params};
use crate::converter::link::{link_parts, server_port, proxy_name, with_sni, with_alpn, with_network, split_link, parse_server_port, make_name, apply_sni, apply_alpn, apply_network, str_is};

verus! {

/// Options a vless query sets: `security=tls` or `security=reality`
/// turns TLS on, a non-empty `flow` is kept, then the server name, ALPN
/// list and transport.
pub open spec fn vless_query(p: ProxyView, params: Seq<(Seq<char>, Seq<char>)>) -> ProxyView {
    let sec = param(params, "security"@);
    let p1 = if sec == Some("tls"@) || sec == Some("reality"@) {
        ProxyView { tls: Some(true), ..p }
    } else {
        p
    };
    let p2 = match param(params, "flow"@) {
        Some(f) => if f.len() > 0 {
            ProxyView { flow: Some(f), ..p1 }
        } else {
            p1
        },
        None => p1,
    };
    with_network(with_alpn(with_sni(p2, params), params), params)
}

/// What a vless link denotes.
pub open spec fn vless_link(link: Seq<char>) -> Result<ProxyView, Seq<char>> {
    if !starts_with(link, "vless://"@) {
        Err("invalid vless link"@)
    } else {
        let (remark, query, body) = link_parts(trim_start_matches(link, "vless://"@));
        let parts = split(body, '@');
        if parts.len() != 2 {
            Err("invalid vless link format"@)
        } else {
            match server_port(parts[1]) {
                Err(e) => Err(e),
                Ok((server, port)) => {
                    let base = ProxyView {
                        uuid: Some(parts[0]),
                        udp: Some(true),
                        ..bare_proxy(proxy_name(remark, server, port), ProxyType::VLess, server, port)
                    };
                    if query.len() == 0 {
                        Ok(base)
                    } else {
                        Ok(vless_query(base, form_pairs(query)))
                    }
                },
            }
        }
    }
}

/// Parses a vless share link.
pub fn parse_vless(link: &str) -> (r: Result<Proxy, String>)
    ensures
        proxy_result(r) == vless_link(link@),
{
    let lc = crate::text::chars_of(link);
    if !starts_with_str(&lc, "vless://") {
        return Err(String::from_str("invalid vless link"));
    }
    proof {
        reveal_strlit("vless://");
    }
    let rest = trim_start_matches_str(&lc, "vless://");
    let (remark, query, body) = split_link(&rest);
    let parts = split_chars(&body, '@');
    if parts.len() != 2 {
        return Err(String::from_str("invalid vless link format"));
    }
    assert(seqs_of(parts@)[0] == parts@[0]@);
    assert(seqs_of(parts@)[1] == parts@[1]@);
    let uuid = string_of(&parts[0]);
    let (server, port) = match parse_server_port(&parts[1]) {
        Ok(sp) => sp,
        Err(e) => return Err(e),
    };
    let name = make_name(remark, &server, port);
    let mut proxy = new_bare_proxy(name, ProxyType::VLess, server, port);
    proxy.uuid = Some(uuid);
    proxy.udp = Some(true);
    if query.len() > 0 {
        let qs = string_of(&query);
        let params = parse_params(qs.as_str());
        if let Some(sec) = params.get("security") {
            if str_is(&sec, "tls") || str_is(&sec, "reality") {
                proxy.tls = Some(true);
            }
        }
        if let Some(f) = params.get("flow") {
            if !f.as_str().is_empty() {
                proxy.flow = Some(f);
            }
        }
        apply_sni(&mut proxy, &params);
        apply_alpn(&mut proxy, &params);
        apply_network(&mut proxy, &params);
    }
    Ok(proxy)
}

} // verus!
