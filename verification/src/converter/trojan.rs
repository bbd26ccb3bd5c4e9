//! `trojan://password@host:port?query#remark` links.
use vstd::prelude::*;
use crate::text::{starts_with, trim_start_matches, split, seqs_of, starts_with_str, trim_start_matches_str, split_chars, string_of};
use crate::converter::types::{Proxy, ProxyView, ProxyType, bare_proxy, new_bare_proxy, proxy_result};
use crate::converter::query::{param, form_pairs, parse_params};
use crate::converter::link::{link_parts, server_port, proxy_name, with_sni, with_alpn, with_network, split_link, parse_server_port, make_name, apply_sni, apply_alpn, apply_network, str_is};

verus! {

/// Options a trojan query sets: `security=tls` turns TLS on, then the
/// server name, ALPN list and transport.
pub open spec fn trojan_query(p: ProxyView, params: Seq<(Seq<char>, Seq<char>)>) -> ProxyView {
    let p1 = if param(params, "security"@) == Some("tls"@) {
        ProxyView { tls: Some(true), ..p }
    } else {
        p
    };
    with_network(with_alpn(with_sni(p1, params), params), params)
}

/// What a trojan link denotes.
pub open spec fn trojan_link(link: Seq<char>) -> Result<ProxyView, Seq<char>> {
    if !starts_with(link, "trojan://"@) {
        Err("invalid trojan link"@)
    } else {
        let (remark, query, body) = link_parts(trim_start_matches(link, "trojan://"@));
        let parts = split(body, '@');
        if parts.len() != 2 {
            Err("invalid trojan link format"@)
        } else {
            match server_port(parts[1]) {
                Err(e) => Err(e),
                Ok((server, port)) => {
                    let base = ProxyView {
                        password: Some(parts[0]),
                        udp: Some(true),
                        ..bare_proxy(proxy_name(remark, server, port), ProxyType::Trojan, server, port)
                    };
                    if query.len() == 0 {
                        Ok(base)
                    } else {
                        Ok(trojan_query(base, form_pairs(query)))
                    }
                },
            }
        }
    }
}

/// Parses a trojan share link.
pub fn parse_trojan(link: &str) -> (r: Result<Proxy, String>)
    ensures
        proxy_result(r) == trojan_link(link@),
{
    let lc = crate::text::chars_of(link);
    if !starts_with_str(&lc, "trojan://") {
        return Err(String::from_str("invalid trojan link"));
    }
    proof {
        reveal_strlit("trojan://");
    }
    let rest = trim_start_matches_str(&lc, "trojan://");
    let (remark, query, body) = split_link(&rest);
    let parts = split_chars(&body, '@');
    if parts.len() != 2 {
        return Err(String::from_str("invalid trojan link format"));
    }
    assert(seqs_of(parts@)[0] == parts@[0]@);
    assert(seqs_of(parts@)[1] == parts@[1]@);
    let password = string_of(&parts[0]);
    let (server, port) = match parse_server_port(&parts[1]) {
        Ok(sp) => sp,
        Err(e) => return Err(e),
    };
    let name = make_name(remark, &server, port);
    let mut proxy = new_bare_proxy(name, ProxyType::Trojan, server, port);
    proxy.password = Some(password);
    proxy.udp = Some(true);
    if query.len() > 0 {
        let qs = string_of(&query);
        let params = parse_params(qs.as_str());
        if let Some(sec) = params.get("security") {
            if str_is(&sec, "tls") {
                proxy.tls = Some(true);
            }
        }
        apply_sni(&mut proxy, &params);
        apply_alpn(&mut proxy, &params);
        apply_network(&mut proxy, &params);
    }
    Ok(proxy)
}

} // verus!
