//! The proxy record produced by the link parsers, and its abstract view.
use vstd::prelude::*;

verus! {

/// Protocol of a proxy.
#[derive(Debug, Clone, Copy, PartialEq, Eq, Structural)]
pub enum ProxyType {
    VMess,
    VLess,
    Trojan,
    SS,
}

/// One proxy endpoint with its protocol options.
///
/// `ws_headers` and `plugin_opts` hold map entries in insertion order; a
/// later entry for a key overrides an earlier one.
#[derive(Debug, Clone)]
pub struct Proxy {
    pub name: String,
    pub proxy_type: ProxyType,
    pub server: String,
    pub port: i32,
    pub uuid: Option<String>,
    pub password: Option<String>,
    pub cipher: Option<String>,
    pub udp: Option<bool>,
    pub tls: Option<bool>,
    pub sni: Option<String>,
    pub alpn: Option<Vec<String>>,
    pub network: Option<String>,
    pub ws_path: Option<String>,
    pub ws_headers: Option<Vec<(String, String)>>,
    pub grpc_service_name: Option<String>,
    pub splithttp_path: Option<String>,
    pub xhttp_path: Option<String>,
    pub httpupgrade_path: Option<String>,
    pub flow: Option<String>,
    pub alter_id: Option<i32>,
    pub plugin: Option<String>,
    pub plugin_opts: Option<Vec<(String, String)>>,
    pub skip_cert_verify: Option<bool>,
}

/// Abstract value of a [`Proxy`]: text as character sequences and the
/// key/value lists as maps.
#[verifier::ext_equal]
pub struct ProxyView {
    pub name: Seq<char>,
    pub proxy_type: ProxyType,
    pub server: Seq<char>,
    pub port: int,
    pub uuid: Option<Seq<char>>,
    pub password: Option<Seq<char>>,
    pub cipher: Option<Seq<char>>,
    pub udp: Option<bool>,
    pub tls: Option<bool>,
    pub sni: Option<Seq<char>>,
    pub alpn: Option<Seq<Seq<char>>>,
    pub network: Option<Seq<char>>,
    pub ws_path: Option<Seq<char>>,
    pub ws_headers: Option<Map<Seq<char>, Seq<char>>>,
    pub grpc_service_name: Option<Seq<char>>,
    pub splithttp_path: Option<Seq<char>>,
    pub xhttp_path: Option<Seq<char>>,
    pub httpupgrade_path: Option<Seq<char>>,
    pub flow: Option<Seq<char>>,
    pub alter_id: Option<int>,
    pub plugin: Option<Seq<char>>,
    pub plugin_opts: Option<Map<Seq<char>, Seq<char>>>,
    pub skip_cert_verify: Option<bool>,
}

/// View of an optional string.
pub open spec fn opt_str(o: Option<String>) -> Option<Seq<char>> {
    match o {
        Some(s) => Some(s@),
        None => None,
    }
}

/// Views of a sequence of strings.
pub open spec fn strs(v: Seq<String>) -> Seq<Seq<char>> {
    Seq::new(v.len(), |i: int| v[i]@)
}

/// Views of a sequence of string pairs.
pub open spec fn str_pairs(v: Seq<(String, String)>) -> Seq<(Seq<char>, Seq<char>)> {
    Seq::new(v.len(), |i: int| (v[i].0@, v[i].1@))
}

/// The map given by key/value entries, later entries overriding earlier ones.
pub open spec fn pairs_map(v: Seq<(Seq<char>, Seq<char>)>) -> Map<Seq<char>, Seq<char>>
    decreases v.len(),
{
    if v.len() == 0 {
        Map::empty()
    } else {
        pairs_map(v.drop_last()).insert(v.last().0, v.last().1)
    }
}

impl View for Proxy {
    type V = ProxyView;

    open spec fn view(&self) -> ProxyView {
        ProxyView {
            name: self.name@,
            proxy_type: self.proxy_type,
            server: self.server@,
            port: self.port as int,
            uuid: opt_str(self.uuid),
            password: opt_str(self.password),
            cipher: opt_str(self.cipher),
            udp: self.udp,
            tls: self.tls,
            sni: opt_str(self.sni),
            alpn: match self.alpn {
                Some(v) => Some(strs(v@)),
                None => None,
            },
            network: opt_str(self.network),
            ws_path: opt_str(self.ws_path),
            ws_headers: match self.ws_headers {
                Some(v) => Some(pairs_map(str_pairs(v@))),
                None => None,
            },
            grpc_service_name: opt_str(self.grpc_service_name),
            splithttp_path: opt_str(self.splithttp_path),
            xhttp_path: opt_str(self.xhttp_path),
            httpupgrade_path: opt_str(self.httpupgrade_path),
            flow: opt_str(self.flow),
            alter_id: match self.alter_id {
                Some(a) => Some(a as int),
                None => None,
            },
            plugin: opt_str(self.plugin),
            plugin_opts: match self.plugin_opts {
                Some(v) => Some(pairs_map(str_pairs(v@))),
                None => None,
            },
            skip_cert_verify: self.skip_cert_verify,
        }
    }
}

/// A proxy with only its identity set and every option absent.
pub open spec fn bare_proxy(name: Seq<char>, t: ProxyType, server: Seq<char>, port: int) -> ProxyView {
    ProxyView {
        name,
        proxy_type: t,
        server,
        port,
        uuid: None,
        password: None,
        cipher: None,
        udp: None,
        tls: None,
        sni: None,
        alpn: None,
        network: None,
        ws_path: None,
        ws_headers: None,
        grpc_service_name: None,
        splithttp_path: None,
        xhttp_path: None,
        httpupgrade_path: None,
        flow: None,
        alter_id: None,
        plugin: None,
        plugin_opts: None,
        skip_cert_verify: None,
    }
}

/// A proxy with only its identity set and every option absent.
pub fn new_bare_proxy(name: String, t: ProxyType, server: String, port: i32) -> (r: Proxy)
    ensures
        r@ == bare_proxy(name@, t, server@, port as int),
{
    Proxy {
        name,
        proxy_type: t,
        server,
        port,
        uuid: None,
        password: None,
        cipher: None,
        udp: None,
        tls: None,
        sni: None,
        alpn: None,
        network: None,
        ws_path: None,
        ws_headers: None,
        grpc_service_name: None,
        splithttp_path: None,
        xhttp_path: None,
        httpupgrade_path: None,
        flow: None,
        alter_id: None,
        plugin: None,
        plugin_opts: None,
        skip_cert_verify: None,
    }
}

/// The view of a parse outcome.
pub open spec fn proxy_result(r: Result<Proxy, String>) -> Result<ProxyView, Seq<char>> {
    match r {
        Ok(p) => Ok(p@),
        Err(e) => Err(e@),
    }
}

/// Views of a sequence of proxies.
pub open spec fn proxies(v: Seq<Proxy>) -> Seq<ProxyView> {
    Seq::new(v.len(), |i: int| v[i]@)
}

} // verus!
