//! `vmess://base64(json)` links.
use vstd::prelude::*;
use crate::text::{starts_with, trim_start_matches, chars_of, starts_with_str, trim_start_matches_str, string_of, push_str};
use crate::num::{parse_i32, int_error_message, parse_i32_str, int_error_text};
use crate::converter::types::{Proxy, ProxyView, ProxyType, bare_proxy, new_bare_proxy, proxy_result, strs};
use crate::converter::link::{proxy_name, alpn_list, host_header, make_name, alpn_values, host_header_entries, str_is};
use crate::converter::encoding::{decoded_base64, decode_base64};
use crate::converter::json::{JsonField, JsonFieldView, member, members, json_object_members, parse_json_members, get_member, opt_strs};

verus! {

/// The string content of a member that is a JSON string.
pub open spec fn str_member(fields: Seq<(Seq<char>, JsonFieldView)>, key: Seq<char>) -> Option<Seq<char>> {
    match member(fields, key) {
        Some(JsonFieldView::Str(s)) => Some(s),
        _ => None,
    }
}

/// The string content of a member, or `default`.
pub open spec fn str_or(fields: Seq<(Seq<char>, JsonFieldView)>, key: Seq<char>, default: Seq<char>) -> Seq<char> {
    match str_member(fields, key) {
        Some(s) => s,
        None => default,
    }
}

/// A string, number or boolean member as text; anything else as empty text.
pub open spec fn text_member(fields: Seq<(Seq<char>, JsonFieldView)>, key: Seq<char>) -> Seq<char> {
    match member(fields, key) {
        Some(JsonFieldView::Str(s)) => s,
        Some(JsonFieldView::Number(n)) => n,
        Some(JsonFieldView::Bool(b)) => if b {
            "true"@
        } else {
            "false"@
        },
        _ => Seq::<char>::empty(),
    }
}

/// The string elements of an array, in order.
pub open spec fn string_items(items: Seq<Option<Seq<char>>>) -> Seq<Seq<char>>
    decreases items.len(),
{
    if items.len() == 0 {
        seq![]
    } else {
        match items.last() {
            Some(s) => string_items(items.drop_last()).push(s),
            None => string_items(items.drop_last()),
        }
    }
}

/// The `alterId` of a vmess config: its decimal text, or 0.
pub open spec fn alter_id_of(fields: Seq<(Seq<char>, JsonFieldView)>) -> int {
    match parse_i32(text_member(fields, "aid"@)) {
        Ok(a) => a,
        Err(_) => 0,
    }
}

/// Cipher of a vmess config: `scy` when it is a non-empty string, else `auto`.
pub open spec fn cipher_of(fields: Seq<(Seq<char>, JsonFieldView)>) -> Seq<char> {
    let scy = str_or(fields, "scy"@, "auto"@);
    if scy.len() == 0 {
        "auto"@
    } else {
        scy
    }
}

/// TLS, server name and ALPN options of a vmess config.
pub open spec fn vmess_security(p: ProxyView, fields: Seq<(Seq<char>, JsonFieldView)>) -> ProxyView {
    let p1 = if str_member(fields, "tls"@) == Some("tls"@) {
        ProxyView { tls: Some(true), ..p }
    } else {
        p
    };
    let p2 = match str_member(fields, "sni"@) {
        Some(s) => if s.len() > 0 {
            ProxyView { sni: Some(s), ..p1 }
        } else {
            p1
        },
        None => p1,
    };
    match member(fields, "alpn"@) {
        Some(JsonFieldView::Str(s)) => if s.len() > 0 {
            ProxyView { alpn: Some(alpn_list(s)), ..p2 }
        } else {
            p2
        },
        Some(JsonFieldView::Array(items)) => ProxyView { alpn: Some(string_items(items)), ..p2 },
        _ => p2,
    }
}

/// Transport options of a vmess config from `net`, `path` and `host`;
/// empty values are left out.
pub open spec fn vmess_transport(p: ProxyView, fields: Seq<(Seq<char>, JsonFieldView)>) -> ProxyView {
    let net = str_or(fields, "net"@, Seq::<char>::empty());
    let path = str_or(fields, "path"@, Seq::<char>::empty());
    let host = str_or(fields, "host"@, Seq::<char>::empty());
    if net.len() == 0 {
        p
    } else {
        let p1 = ProxyView { network: Some(net), ..p };
        if net == "ws"@ || net == "websocket"@ {
            let p2 = if path.len() > 0 {
                ProxyView { ws_path: Some(path), ..p1 }
            } else {
                p1
            };
            if host.len() > 0 {
                ProxyView { ws_headers: Some(host_header(host)), ..p2 }
            } else {
                p2
            }
        } else if path.len() == 0 {
            p1
        } else if net == "grpc"@ {
            ProxyView { grpc_service_name: Some(path), ..p1 }
        } else if net == "splithttp"@ {
            ProxyView { splithttp_path: Some(path), ..p1 }
        } else if net == "xhttp"@ {
            ProxyView { xhttp_path: Some(path), ..p1 }
        } else if net == "httpupgrade"@ {
            ProxyView { httpupgrade_path: Some(path), ..p1 }
        } else {
            p1
        }
    }
}

/// The proxy a vmess JSON config describes.
pub open spec fn vmess_config(fields: Seq<(Seq<char>, JsonFieldView)>) -> Result<ProxyView, Seq<char>> {
    let ps = str_or(fields, "ps"@, Seq::<char>::empty());
    let add = str_or(fields, "add"@, Seq::<char>::empty());
    match parse_i32(text_member(fields, "port"@)) {
        Err(k) => Err("invalid port: "@ + int_error_message(k)),
        Ok(port) => {
            let base = ProxyView {
                uuid: Some(str_or(fields, "id"@, Seq::<char>::empty())),
                cipher: Some(cipher_of(fields)),
                udp: Some(true),
                alter_id: Some(alter_id_of(fields)),
                ..bare_proxy(proxy_name(ps, add, port), ProxyType::VMess, add, port)
            };
            Ok(vmess_transport(vmess_security(base, fields), fields))
        },
    }
}

/// What a vmess link denotes.
pub open spec fn vmess_link(link: Seq<char>) -> Result<ProxyView, Seq<char>> {
    if !starts_with(link, "vmess://"@) {
        Err("invalid vmess link"@)
    } else {
        match decoded_base64(trim_start_matches(link, "vmess://"@)) {
            None => Err("failed to decode vmess link: Failed to decode base64"@),
            Some(bytes) => match json_object_members(bytes) {
                Err(e) => Err("failed to parse vmess config: "@ + e),
                Ok(fields) => vmess_config(fields),
            },
        }
    }
}

/// A vmess config reads `port` and `aid` only as text: configs whose
/// other members agree, and whose `port` and `aid` read as the same text,
/// describe the same proxy.
pub proof fn lemma_vmess_reads_text(f1: Seq<(Seq<char>, JsonFieldView)>, f2: Seq<(Seq<char>, JsonFieldView)>)
    requires
        forall|k: Seq<char>| k != "port"@ && k != "aid"@ ==> #[trigger] member(f1, k) == member(f2, k),
        text_member(f1, "port"@) == text_member(f2, "port"@),
        text_member(f1, "aid"@) == text_member(f2, "aid"@),
    ensures
        vmess_config(f1) == vmess_config(f2),
{
    reveal_strlit("port");
    reveal_strlit("aid");
    reveal_strlit("ps");
    reveal_strlit("add");
    reveal_strlit("id");
    reveal_strlit("scy");
    reveal_strlit("tls");
    reveal_strlit("sni");
    reveal_strlit("alpn");
    reveal_strlit("net");
    reveal_strlit("path");
    reveal_strlit("host");
    assert("ps"@.len() != "port"@.len() && "ps"@.len() != "aid"@.len());
    assert(member(f1, "ps"@) == member(f2, "ps"@));
    assert("add"@[1] != "aid"@[1] && "add"@.len() != "port"@.len());
    assert(member(f1, "add"@) == member(f2, "add"@));
    assert(member(f1, "id"@) == member(f2, "id"@));
    assert(member(f1, "scy"@) == member(f2, "scy"@));
    assert(member(f1, "tls"@) == member(f2, "tls"@));
    assert(member(f1, "sni"@) == member(f2, "sni"@));
    assert("alpn"@[0] != "port"@[0] && "alpn"@.len() != "aid"@.len());
    assert(member(f1, "alpn"@) == member(f2, "alpn"@));
    assert(member(f1, "net"@) == member(f2, "net"@));
    assert("path"@[1] != "port"@[1] && "path"@.len() != "aid"@.len());
    assert(member(f1, "path"@) == member(f2, "path"@));
    assert("host"@[0] != "port"@[0] && "host"@.len() != "aid"@.len());
    assert(member(f1, "host"@) == member(f2, "host"@));
}

/// A port (or alterId) given as the string `"443"` and one given as the
/// number `443`, which reads as the text `443`, describe the same proxy;
/// its port is the number the text reads as, and its alterId the number
/// the `aid` text reads as, or 0.
pub proof fn lemma_vmess_port_string_or_number(
    f1: Seq<(Seq<char>, JsonFieldView)>,
    f2: Seq<(Seq<char>, JsonFieldView)>,
    port: Seq<char>,
    aid: Seq<char>,
    p: int,
)
    requires
        forall|k: Seq<char>| k != "port"@ && k != "aid"@ ==> #[trigger] member(f1, k) == member(f2, k),
        member(f1, "port"@) == Some(JsonFieldView::Str(port)),
        member(f2, "port"@) == Some(JsonFieldView::Number(port)),
        member(f1, "aid"@) == Some(JsonFieldView::Str(aid)) || member(f1, "aid"@) == Some(JsonFieldView::Number(aid)),
        member(f2, "aid"@) == Some(JsonFieldView::Str(aid)) || member(f2, "aid"@) == Some(JsonFieldView::Number(aid)),
        parse_i32(port) == Ok::<int, crate::num::IntErrorKind>(p),
    ensures
        vmess_config(f1) == vmess_config(f2),
        vmess_config(f1) is Ok,
        vmess_config(f1)->Ok_0.port == p,
        vmess_config(f1)->Ok_0.alter_id == Some(
            match parse_i32(aid) {
                Ok(a) => a,
                Err(_) => 0,
            },
        ),
{
    lemma_vmess_reads_text(f1, f2);
}

fn text(s: &str) -> (r: String)
    ensures
        r@ == s@,
{
    String::from_str(s)
}

/// The string content of a member that is a JSON string.
fn get_str(fields: &Vec<(String, JsonField)>, key: &str) -> (r: Option<String>)
    ensures
        match r {
            Some(s) => str_member(members(fields@), key@) == Some(s@),
            None => str_member(members(fields@), key@) is None,
        },
{
    match get_member(fields, key) {
        Some(JsonField::Str(s)) => Some(s),
        _ => None,
    }
}

/// The string content of a member, or `default`.
fn get_str_or(fields: &Vec<(String, JsonField)>, key: &str, default: &str) -> (r: String)
    ensures
        r@ == str_or(members(fields@), key@, default@),
{
    match get_str(fields, key) {
        Some(s) => s,
        None => text(default),
    }
}

/// A string, number or boolean member as text.
fn get_text(fields: &Vec<(String, JsonField)>, key: &str) -> (r: String)
    ensures
        r@ == text_member(members(fields@), key@),
{
    match get_member(fields, key) {
        Some(JsonField::Str(s)) => s,
        Some(JsonField::Number(n)) => n,
        Some(JsonField::Bool(b)) => if b {
            text("true")
        } else {
            text("false")
        },
        _ => String::new(),
    }
}

/// The string elements of an array, in order.
fn strings_in(items: &Vec<Option<String>>) -> (r: Vec<String>)
    ensures
        strs(r@) == string_items(opt_strs(items@)),
{
    let ghost os = opt_strs(items@);
    let mut out: Vec<String> = Vec::new();
    let mut i: usize = 0;
    assert(os.take(0) =~= Seq::<Option<Seq<char>>>::empty());
    assert(strs(out@) =~= string_items(os.take(0)));
    while i < items.len()
        invariant
            i <= items@.len(),
            os == opt_strs(items@),
            strs(out@) == string_items(os.take(i as int)),
        decreases items@.len() - i,
    {
        let ghost t = os.take(i + 1);
        assert(t.drop_last() =~= os.take(i as int));
        if let Some(s) = &items[i] {
            let ghost before = strs(out@);
            out.push(s.clone());
            assert(strs(out@) =~= before.push(s@));
        }
        i = i + 1;
    }
    assert(os.take(items@.len() as int) =~= os);
    out
}

/// Builds the proxy a vmess JSON config describes, from the config's members.
pub fn vmess_from_members(fields: &Vec<(String, JsonField)>) -> (r: Result<Proxy, String>)
    ensures
        proxy_result(r) == vmess_config(members(fields@)),
{
    proof {
        reveal_strlit("");
        assert(""@ =~= Seq::<char>::empty());
    }
    let ps = get_str_or(fields, "ps", "");
    let add = get_str_or(fields, "add", "");
    let port_text = get_text(fields, "port");
    let port = match parse_i32_str(port_text.as_str()) {
        Ok(p) => p,
        Err(k) => {
            let mut msg: Vec<char> = Vec::new();
            push_str(&mut msg, "invalid port: ");
            push_str(&mut msg, int_error_text(k));
            return Err(string_of(&msg));
        },
    };
    let id = get_str_or(fields, "id", "");
    let aid_text = get_text(fields, "aid");
    let alter_id = match parse_i32_str(aid_text.as_str()) {
        Ok(a) => a,
        Err(_) => 0,
    };
    let scy = get_str_or(fields, "scy", "auto");
    let cipher = if scy.as_str().is_empty() {
        text("auto")
    } else {
        scy
    };
    let name = make_name(ps, &add, port);
    let mut proxy = new_bare_proxy(name, ProxyType::VMess, add, port);
    proxy.uuid = Some(id);
    proxy.cipher = Some(cipher);
    proxy.udp = Some(true);
    proxy.alter_id = Some(alter_id);
    if let Some(t) = get_str(fields, "tls") {
        if str_is(&t, "tls") {
            proxy.tls = Some(true);
        }
    }
    if let Some(s) = get_str(fields, "sni") {
        if !s.as_str().is_empty() {
            proxy.sni = Some(s);
        }
    }
    match get_member(fields, "alpn") {
        Some(JsonField::Str(s)) => {
            if !s.as_str().is_empty() {
                proxy.alpn = Some(alpn_values(&s));
            }
        },
        Some(JsonField::Array(items)) => {
            proxy.alpn = Some(strings_in(&items));
        },
        _ => {},
    }
    let ghost mid = proxy@;
    assert(mid == vmess_security(
        ProxyView {
            uuid: Some(str_or(members(fields@), "id"@, Seq::<char>::empty())),
            cipher: Some(cipher_of(members(fields@))),
            udp: Some(true),
            alter_id: Some(alter_id_of(members(fields@))),
            ..bare_proxy(proxy_name(ps@, add@, port as int), ProxyType::VMess, add@, port as int)
        },
        members(fields@),
    ));
    let net = get_str_or(fields, "net", "");
    let path = get_str_or(fields, "path", "");
    let host = get_str_or(fields, "host", "");
    if !net.as_str().is_empty() {
        proxy.network = Some(net.clone());
        if str_is(&net, "ws") || str_is(&net, "websocket") {
            if !path.as_str().is_empty() {
                proxy.ws_path = Some(path);
            }
            if !host.as_str().is_empty() {
                proxy.ws_headers = Some(host_header_entries(host));
            }
        } else if str_is(&net, "grpc") {
            if !path.as_str().is_empty() {
                proxy.grpc_service_name = Some(path);
            }
        } else if str_is(&net, "splithttp") {
            if !path.as_str().is_empty() {
                proxy.splithttp_path = Some(path);
            }
        } else if str_is(&net, "xhttp") {
            if !path.as_str().is_empty() {
                proxy.xhttp_path = Some(path);
            }
        } else if str_is(&net, "httpupgrade") {
            if !path.as_str().is_empty() {
                proxy.httpupgrade_path = Some(path);
            }
        }
    }
    assert(proxy@ == vmess_transport(mid, members(fields@)));
    Ok(proxy)
}

/// Parses a vmess share link.
pub fn parse_vmess(link: &str) -> (r: Result<Proxy, String>)
    ensures
        proxy_result(r) == vmess_link(link@),
{
    let lc = chars_of(link);
    if !starts_with_str(&lc, "vmess://") {
        return Err(text("invalid vmess link"));
    }
    proof {
        reveal_strlit("vmess://");
    }
    let encoded = trim_start_matches_str(&lc, "vmess://");
    let es = string_of(&encoded);
    let bytes = match decode_base64(es.as_str()) {
        Ok(b) => b,
        Err(_) => return Err(text("failed to decode vmess link: Failed to decode base64")),
    };
    let fields = match parse_json_members(&bytes) {
        Ok(f) => f,
        Err(e) => {
            let mut msg = chars_of("failed to parse vmess config: ");
            push_str(&mut msg, e.as_str());
            return Err(string_of(&msg));
        },
    };
    vmess_from_members(&fields)
}

} // verus!
