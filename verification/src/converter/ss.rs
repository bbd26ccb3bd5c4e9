//! Shadowsocks `ss://` links, in the SIP002 form
//! (`ss://base64(method:password)@host:port?plugin=...#remark`) and the
//! legacy form (`ss://base64(method:password@host:port)#remark`).
use vstd::prelude::*;
use crate::text::{
    starts_with, trim_start_matches, split, split_once, seqs_of, starts_with_str,
    trim_start_matches_str, split_chars, copy_chars, split_once_chars, string_of, has_char, chars_of,
};
use crate::converter::types::{Proxy, ProxyView, ProxyType, bare_proxy, new_bare_proxy, proxy_result, pairs_map, str_pairs};
use crate::converter::query::{param, form_pairs, parse_params};
use crate::converter::link::{link_parts, server_port, proxy_name, split_link, parse_server_port, make_name};
use crate::converter::encoding::{decoded_base64, utf8_lossy, decode_base64, lossy_string};

verus! {

/// The `key=value` entries among plugin option pieces; pieces without `=` are skipped.
pub open spec fn plugin_pairs(opts: Seq<Seq<char>>) -> Seq<(Seq<char>, Seq<char>)>
    decreases opts.len(),
{
    if opts.len() == 0 {
        seq![]
    } else {
        let kv = split_once(opts.last(), '=');
        if kv.len() == 2 {
            plugin_pairs(opts.drop_last()).push((kv[0], kv[1]))
        } else {
            plugin_pairs(opts.drop_last())
        }
    }
}

/// The `plugin` parameter, `name;opt=value;...`: the name, and the
/// options when at least one is well-formed.
pub open spec fn ss_query(p: ProxyView, params: Seq<(Seq<char>, Seq<char>)>) -> ProxyView {
    match param(params, "plugin"@) {
        Some(ps) => {
            let pp = split_once(ps, ';');
            let p1 = ProxyView { plugin: Some(pp[0]), ..p };
            if pp.len() == 2 {
                let pairs = plugin_pairs(split(pp[1], ';'));
                if pairs.len() > 0 {
                    ProxyView { plugin_opts: Some(pairs_map(pairs)), ..p1 }
                } else {
                    p1
                }
            } else {
                p1
            }
        },
        None => p,
    }
}

/// Method, password and `host:port` text of the body of an ss link, or the error.
pub open spec fn ss_credentials(body: Seq<char>) -> Result<(Seq<char>, Seq<char>, Seq<char>), Seq<char>> {
    if body.contains('@') {
        let parts = split(body, '@');
        if parts.len() != 2 {
            Err("invalid ss link format"@)
        } else {
            match decoded_base64(parts[0]) {
                None => Err("failed to decode userinfo: Failed to decode base64"@),
                Some(bytes) => {
                    let mp = split_once(utf8_lossy(bytes), ':');
                    if mp.len() != 2 {
                        Err("invalid method:password format"@)
                    } else {
                        Ok((mp[0], mp[1], parts[1]))
                    }
                },
            }
        }
    } else {
        match decoded_base64(body) {
            None => Err("failed to decode ss link: Failed to decode base64"@),
            Some(bytes) => {
                let parts = split_once(utf8_lossy(bytes), '@');
                if parts.len() != 2 {
                    Err("invalid ss link format"@)
                } else {
                    let mp = split_once(parts[0], ':');
                    if mp.len() != 2 {
                        Err("invalid method:password format"@)
                    } else {
                        Ok((mp[0], mp[1], parts[1]))
                    }
                }
            },
        }
    }
}

/// What an ss link denotes.
pub open spec fn ss_link(link: Seq<char>) -> Result<ProxyView, Seq<char>> {
    if !starts_with(link, "ss://"@) {
        Err("invalid ss link"@)
    } else {
        let (remark, query, body) = link_parts(trim_start_matches(link, "ss://"@));
        match ss_credentials(body) {
            Err(e) => Err(e),
            Ok((method, password, sp)) => match server_port(sp) {
                Err(e) => Err(e),
                Ok((server, port)) => {
                    let base = ProxyView {
                        password: Some(password),
                        cipher: Some(method),
                        udp: Some(true),
                        ..bare_proxy(proxy_name(remark, server, port), ProxyType::SS, server, port)
                    };
                    if query.len() == 0 {
                        Ok(base)
                    } else {
                        Ok(ss_query(base, form_pairs(query)))
                    }
                },
            },
        }
    }
}

fn err_text(s: &str) -> (r: String)
    ensures
        r@ == s@,
{
    String::from_str(s)
}

/// Reads method, password and `host:port` from the body of an ss link.
fn parse_credentials(body: &[char]) -> (r: Result<(Vec<char>, Vec<char>, Vec<char>), String>)
    ensures
        match r {
            Ok((m, p, s)) => ss_credentials(body@) == Ok::<
                (Seq<char>, Seq<char>, Seq<char>),
                Seq<char>,
            >((m@, p@, s@)),
            Err(e) => ss_credentials(body@) == Err::<(Seq<char>, Seq<char>, Seq<char>), Seq<char>>(
                e@,
            ),
        },
{
    if has_char(body, '@') {
        let parts = split_chars(body, '@');
        if parts.len() != 2 {
            return Err(err_text("invalid ss link format"));
        }
        assert(seqs_of(parts@)[0] == parts@[0]@);
        assert(seqs_of(parts@)[1] == parts@[1]@);
        let userinfo = string_of(&parts[0]);
        let decoded = match decode_base64(userinfo.as_str()) {
            Ok(b) => b,
            Err(_) => return Err(err_text("failed to decode userinfo: Failed to decode base64")),
        };
        let ui = lossy_string(&decoded);
        let uic = chars_of(ui.as_str());
        let mp = split_once_chars(&uic, ':');
        if mp.len() != 2 {
            return Err(err_text("invalid method:password format"));
        }
        assert(seqs_of(mp@)[0] == mp@[0]@);
        assert(seqs_of(mp@)[1] == mp@[1]@);
        Ok((copy_chars(&mp[0]), copy_chars(&mp[1]), copy_chars(&parts[1])))
    } else {
        let bs = string_of(body);
        let decoded = match decode_base64(bs.as_str()) {
            Ok(b) => b,
            Err(_) => return Err(err_text("failed to decode ss link: Failed to decode base64")),
        };
        let ds = lossy_string(&decoded);
        let dsc = chars_of(ds.as_str());
        let parts = split_once_chars(&dsc, '@');
        if parts.len() != 2 {
            return Err(err_text("invalid ss link format"));
        }
        assert(seqs_of(parts@)[0] == parts@[0]@);
        assert(seqs_of(parts@)[1] == parts@[1]@);
        let mp = split_once_chars(&parts[0], ':');
        if mp.len() != 2 {
            return Err(err_text("invalid method:password format"));
        }
        assert(seqs_of(mp@)[0] == mp@[0]@);
        assert(seqs_of(mp@)[1] == mp@[1]@);
        Ok((copy_chars(&mp[0]), copy_chars(&mp[1]), copy_chars(&parts[1])))
    }
}

/// The well-formed `key=value` plugin options.
fn plugin_entries(opts: &Vec<Vec<char>>) -> (r: Vec<(String, String)>)
    ensures
        str_pairs(r@) == plugin_pairs(seqs_of(opts@)),
{
    let ghost os = seqs_of(opts@);
    let mut out: Vec<(String, String)> = Vec::new();
    let mut i: usize = 0;
    assert(os.take(0) =~= Seq::<Seq<char>>::empty());
    assert(str_pairs(out@) =~= plugin_pairs(os.take(0)));
    while i < opts.len()
        invariant
            0 <= i <= opts@.len(),
            os == seqs_of(opts@),
            str_pairs(out@) == plugin_pairs(os.take(i as int)),
        decreases opts@.len() - i,
    {
        let kv = split_once_chars(&opts[i], '=');
        let ghost t = os.take(i + 1);
        assert(t.drop_last() =~= os.take(i as int));
        assert(t.last() == opts@[i as int]@);
        if kv.len() == 2 {
            assert(seqs_of(kv@)[0] == kv@[0]@);
            assert(seqs_of(kv@)[1] == kv@[1]@);
            let ghost before = str_pairs(out@);
            out.push((string_of(&kv[0]), string_of(&kv[1])));
            assert(str_pairs(out@) =~= before.push((kv@[0]@, kv@[1]@)));
        }
        i = i + 1;
    }
    assert(os.take(opts@.len() as int) =~= os);
    out
}

/// Parses a shadowsocks share link.
pub fn parse_ss(link: &str) -> (r: Result<Proxy, String>)
    ensures
        proxy_result(r) == ss_link(link@),
{
    let lc = chars_of(link);
    if !starts_with_str(&lc, "ss://") {
        return Err(err_text("invalid ss link"));
    }
    proof {
        reveal_strlit("ss://");
    }
    let rest = trim_start_matches_str(&lc, "ss://");
    let (remark, query, body) = split_link(&rest);
    let (method, password, sp) = match parse_credentials(&body) {
        Ok(c) => c,
        Err(e) => return Err(e),
    };
    let (server, port) = match parse_server_port(&sp) {
        Ok(x) => x,
        Err(e) => return Err(e),
    };
    let name = make_name(remark, &server, port);
    let mut proxy = new_bare_proxy(name, ProxyType::SS, server, port);
    proxy.password = Some(string_of(&password));
    proxy.cipher = Some(string_of(&method));
    proxy.udp = Some(true);
    if query.len() > 0 {
        let qs = string_of(&query);
        let params = parse_params(qs.as_str());
        if let Some(ps) = params.get("plugin") {
            let psc = chars_of(ps.as_str());
            let pp = split_once_chars(&psc, ';');
            assert(seqs_of(pp@)[0] == pp@[0]@);
            proxy.plugin = Some(string_of(&pp[0]));
            if pp.len() == 2 {
                assert(seqs_of(pp@)[1] == pp@[1]@);
                let opts = split_chars(&pp[1], ';');
                let entries = plugin_entries(&opts);
                if entries.len() > 0 {
                    proxy.plugin_opts = Some(entries);
                }
            }
        }
    }
    Ok(proxy)
}

} // verus!
