//! The library against straightforward models written with std string
//! operations and the outside crates, on generated inputs.

use base64::engine::general_purpose::{STANDARD, STANDARD_NO_PAD, URL_SAFE, URL_SAFE_NO_PAD};
use base64::Engine;
use fusiontunx::converter::parser::{link_excerpt_ok, parse_link};
use fusiontunx::converter::ss::parse_ss;
use fusiontunx::converter::trojan::parse_trojan;
use fusiontunx::converter::types::{Proxy, ProxyType};
use fusiontunx::converter::vmess::parse_vmess;
use fusiontunx::tun::{ensure_tun_disabled, ensure_tun_enabled};
use std::collections::{BTreeMap, HashMap};

/// A small deterministic generator.
struct Gen(u64);

impl Gen {
    fn next(&mut self) -> u64 {
        self.0 = self.0.wrapping_mul(6364136223846793005).wrapping_add(1442695040888963407);
        self.0 >> 33
    }
    fn pick<'a>(&mut self, items: &[&'a str]) -> &'a str {
        items[(self.next() as usize) % items.len()]
    }
    fn chance(&mut self, percent: u64) -> bool {
        self.next() % 100 < percent
    }
}

#[derive(Debug, PartialEq, Default, Clone)]
struct Rec {
    name: String,
    kind: String,
    server: String,
    port: i32,
    uuid: Option<String>,
    password: Option<String>,
    cipher: Option<String>,
    udp: Option<bool>,
    tls: Option<bool>,
    sni: Option<String>,
    alpn: Option<Vec<String>>,
    network: Option<String>,
    ws_path: Option<String>,
    ws_headers: Option<BTreeMap<String, String>>,
    grpc_service_name: Option<String>,
    splithttp_path: Option<String>,
    xhttp_path: Option<String>,
    httpupgrade_path: Option<String>,
    alter_id: Option<i32>,
    plugin: Option<String>,
    plugin_opts: Option<BTreeMap<String, String>>,
}

fn map_of(pairs: &Option<Vec<(String, String)>>) -> Option<BTreeMap<String, String>> {
    pairs.as_ref().map(|v| v.iter().cloned().collect())
}

fn rec(p: &Proxy) -> Rec {
    Rec {
        name: p.name.clone(),
        kind: match p.proxy_type {
            ProxyType::VMess => "vmess",
            ProxyType::VLess => "vless",
            ProxyType::Trojan => "trojan",
            ProxyType::SS => "ss",
        }
        .to_string(),
        server: p.server.clone(),
        port: p.port,
        uuid: p.uuid.clone(),
        password: p.password.clone(),
        cipher: p.cipher.clone(),
        udp: p.udp,
        tls: p.tls,
        sni: p.sni.clone(),
        alpn: p.alpn.clone(),
        network: p.network.clone(),
        ws_path: p.ws_path.clone(),
        ws_headers: map_of(&p.ws_headers),
        grpc_service_name: p.grpc_service_name.clone(),
        splithttp_path: p.splithttp_path.clone(),
        xhttp_path: p.xhttp_path.clone(),
        httpupgrade_path: p.httpupgrade_path.clone(),
        alter_id: p.alter_id,
        plugin: p.plugin.clone(),
        plugin_opts: map_of(&p.plugin_opts),
    }
}

fn lib(r: Result<Proxy, String>) -> Result<Rec, String> {
    r.map(|p| rec(&p))
}

fn model_url_decode(s: &str) -> String {
    url::form_urlencoded::parse(format!("k={}", s).as_bytes())
        .find(|(k, _)| k == "k")
        .map(|(_, v)| v.into_owned())
        .unwrap_or_else(|| s.to_string())
}

fn model_b64(input: &str) -> Option<Vec<u8>> {
    let c = input.trim();
    URL_SAFE_NO_PAD
        .decode(c)
        .or_else(|_| URL_SAFE.decode(c))
        .or_else(|_| STANDARD_NO_PAD.decode(c))
        .or_else(|_| STANDARD.decode(c))
        .ok()
}

/// Splits off `#remark` and `?query`.
fn model_parts(rest: &str) -> (String, String, String) {
    let (body, remark) = match rest.find('#') {
        Some(i) => (&rest[..i], model_url_decode(&rest[i + 1..])),
        None => (rest, String::new()),
    };
    let (body, query) = match body.find('?') {
        Some(i) => (&body[..i], body[i + 1..].to_string()),
        None => (body, String::new()),
    };
    (remark, query, body.to_string())
}

fn model_server_port(sp: &str) -> Result<(String, i32), String> {
    let parts: Vec<&str> = sp.split(':').collect();
    if parts.len() != 2 {
        return Err("invalid server:port format".to_string());
    }
    let port = parts[1].parse::<i32>().map_err(|e| format!("invalid port: {}", e))?;
    Ok((parts[0].to_string(), port))
}

fn named(remark: String, server: &str, port: i32) -> String {
    if remark.is_empty() {
        format!("{}:{}", server, port)
    } else {
        remark
    }
}

fn model_trojan(link: &str) -> Result<Rec, String> {
    if !link.starts_with("trojan://") {
        return Err("invalid trojan link".to_string());
    }
    let (remark, query, body) = model_parts(link.trim_start_matches("trojan://"));
    let parts: Vec<&str> = body.split('@').collect();
    if parts.len() != 2 {
        return Err("invalid trojan link format".to_string());
    }
    let (server, port) = model_server_port(parts[1])?;
    let mut r = Rec {
        name: named(remark, &server, port),
        kind: "trojan".to_string(),
        server,
        port,
        password: Some(parts[0].to_string()),
        udp: Some(true),
        ..Default::default()
    };
    if !query.is_empty() {
        let params: HashMap<String, String> = url::form_urlencoded::parse(query.as_bytes()).into_owned().collect();
        if params.get("security").map(|s| s == "tls").unwrap_or(false) {
            r.tls = Some(true);
        }
        if let Some(s) = params.get("sni").filter(|s| !s.is_empty()) {
            r.sni = Some(s.clone());
        }
        if let Some(a) = params.get("alpn").filter(|s| !s.is_empty()) {
            r.alpn = Some(a.split(',').map(|x| x.trim().to_string()).collect());
        }
        if let Some(net) = params.get("type").filter(|s| !s.is_empty()) {
            r.network = Some(net.clone());
            let path = params.get("path").map(|p| model_url_decode(p));
            let host = params.get("host").cloned();
            match net.as_str() {
                "ws" | "websocket" => {
                    r.ws_path = path;
                    r.ws_headers = host.map(|h| [("Host".to_string(), h)].into_iter().collect());
                }
                "grpc" => r.grpc_service_name = params.get("serviceName").cloned(),
                "splithttp" => r.splithttp_path = path,
                "xhttp" => r.xhttp_path = path,
                "httpupgrade" => r.httpupgrade_path = path,
                _ => {}
            }
        }
    }
    Ok(r)
}

fn model_ss(link: &str) -> Result<Rec, String> {
    if !link.starts_with("ss://") {
        return Err("invalid ss link".to_string());
    }
    let (remark, query, body) = model_parts(link.trim_start_matches("ss://"));
    let (method, password, server, port);
    if body.contains('@') {
        let parts: Vec<&str> = body.split('@').collect();
        if parts.len() != 2 {
            return Err("invalid ss link format".to_string());
        }
        let decoded = model_b64(parts[0]).ok_or("failed to decode userinfo: Failed to decode base64".to_string())?;
        let info = String::from_utf8_lossy(&decoded).to_string();
        let mp: Vec<&str> = info.splitn(2, ':').collect();
        if mp.len() != 2 {
            return Err("invalid method:password format".to_string());
        }
        method = mp[0].to_string();
        password = mp[1].to_string();
        let sp = model_server_port(parts[1])?;
        server = sp.0;
        port = sp.1;
    } else {
        let decoded = model_b64(&body).ok_or("failed to decode ss link: Failed to decode base64".to_string())?;
        let text = String::from_utf8_lossy(&decoded).to_string();
        let parts: Vec<&str> = text.splitn(2, '@').collect();
        if parts.len() != 2 {
            return Err("invalid ss link format".to_string());
        }
        let mp: Vec<&str> = parts[0].splitn(2, ':').collect();
        if mp.len() != 2 {
            return Err("invalid method:password format".to_string());
        }
        method = mp[0].to_string();
        password = mp[1].to_string();
        let sp = model_server_port(parts[1])?;
        server = sp.0;
        port = sp.1;
    }
    let mut r = Rec {
        name: named(remark, &server, port),
        kind: "ss".to_string(),
        server,
        port,
        password: Some(password),
        cipher: Some(method),
        udp: Some(true),
        ..Default::default()
    };
    if !query.is_empty() {
        let params: HashMap<String, String> = url::form_urlencoded::parse(query.as_bytes()).into_owned().collect();
        if let Some(plugin) = params.get("plugin") {
            let mut it = plugin.splitn(2, ';');
            r.plugin = it.next().map(|p| p.to_string());
            if let Some(opts) = it.next() {
                let mut m = BTreeMap::new();
                for opt in opts.split(';') {
                    let mut kv = opt.splitn(2, '=');
                    if let (Some(k), Some(v)) = (kv.next(), kv.next()) {
                        m.insert(k.to_string(), v.to_string());
                    }
                }
                if !m.is_empty() {
                    r.plugin_opts = Some(m);
                }
            }
        }
    }
    Ok(r)
}

fn text_of(v: Option<&serde_json::Value>) -> String {
    match v {
        Some(serde_json::Value::String(s)) => s.clone(),
        Some(serde_json::Value::Number(n)) => n.to_string(),
        Some(serde_json::Value::Bool(b)) => b.to_string(),
        _ => String::new(),
    }
}

fn model_vmess(link: &str) -> Result<Rec, String> {
    if !link.starts_with("vmess://") {
        return Err("invalid vmess link".to_string());
    }
    let bytes = model_b64(link.trim_start_matches("vmess://"))
        .ok_or("failed to decode vmess link: Failed to decode base64".to_string())?;
    let v: serde_json::Value =
        serde_json::from_slice(&bytes).map_err(|e| format!("failed to parse vmess config: {}", e))?;
    let s = |k: &str| v.get(k).and_then(|x| x.as_str()).map(|x| x.to_string());
    let ps = s("ps").unwrap_or_default();
    let add = s("add").unwrap_or_default();
    let port = text_of(v.get("port")).parse::<i32>().map_err(|e| format!("invalid port: {}", e))?;
    let scy = s("scy").unwrap_or_else(|| "auto".to_string());
    let mut r = Rec {
        name: named(ps, &add, port),
        kind: "vmess".to_string(),
        server: add,
        port,
        uuid: Some(s("id").unwrap_or_default()),
        cipher: Some(if scy.is_empty() { "auto".to_string() } else { scy }),
        udp: Some(true),
        alter_id: Some(text_of(v.get("aid")).parse::<i32>().unwrap_or(0)),
        ..Default::default()
    };
    if s("tls").as_deref() == Some("tls") {
        r.tls = Some(true);
    }
    if let Some(sni) = s("sni").filter(|x| !x.is_empty()) {
        r.sni = Some(sni);
    }
    if let Some(a) = v.get("alpn") {
        if let Some(st) = a.as_str() {
            if !st.is_empty() {
                r.alpn = Some(st.split(',').map(|x| x.trim().to_string()).collect());
            }
        } else if let Some(arr) = a.as_array() {
            r.alpn = Some(arr.iter().filter_map(|x| x.as_str()).map(|x| x.to_string()).collect());
        }
    }
    let net = s("net").unwrap_or_default();
    let path = s("path").unwrap_or_default();
    let host = s("host").unwrap_or_default();
    if !net.is_empty() {
        r.network = Some(net.clone());
        let p = if path.is_empty() { None } else { Some(path.clone()) };
        match net.as_str() {
            "ws" | "websocket" => {
                r.ws_path = p;
                if !host.is_empty() {
                    r.ws_headers = Some([("Host".to_string(), host)].into_iter().collect());
                }
            }
            "grpc" => r.grpc_service_name = p,
            "splithttp" => r.splithttp_path = p,
            "xhttp" => r.xhttp_path = p,
            "httpupgrade" => r.httpupgrade_path = p,
            _ => {}
        }
    }
    Ok(r)
}

const PORTS: &[&str] = &["443", "8080", "0", "-1", "+80", "", "abc", "99999999999", "2147483647", "-2147483648", " 1", "1 "];
const HOSTS: &[&str] = &["example.com", "1.2.3.4", "", "h", "[::1]", "a:b", "x@y", "ex%41mple"];
const REMARKS: &[&str] = &["", "My%20Node", "a+b", "%E4%BD%A0%E5%A5%BD", "%zz", "x#y", "plain", "%", "é"];
const QUERIES: &[&str] = &[
    "", "security=tls", "security=none&security=tls", "security=tls&security=none", "sni=s.com", "sni=",
    "alpn=h2,%20http/1.1", "alpn=", "alpn=,,", "type=ws&path=%2Fws&host=h.com", "type=websocket&host=a&host=b",
    "type=ws", "type=grpc&serviceName=svc", "type=grpc", "type=splithttp&path=%2Fs", "type=xhttp&path=p",
    "type=httpupgrade&path=%2Fu", "type=tcp&path=x", "type=", "a=1&&b", "type=ws&path=a+b&host=", "=v&k",
    "plugin=obfs-local;obfs=http;obfs-host=a.com", "plugin=v2ray-plugin", "plugin=x;", "plugin=x;a=1;a=2",
    "plugin=x;=v;k", "plugin=", "plugin=p%3Bq%3Dr",
];

fn join_query(g: &mut Gen) -> String {
    let mut q = g.pick(QUERIES).to_string();
    if g.chance(30) {
        q.push('&');
        q.push_str(g.pick(QUERIES));
    }
    q
}

fn tail(g: &mut Gen) -> String {
    let mut t = String::new();
    if g.chance(60) {
        t.push('?');
        t.push_str(&join_query(g));
    }
    if g.chance(60) {
        t.push('#');
        t.push_str(g.pick(REMARKS));
    }
    t
}

#[test]
fn trojan_links_agree() {
    let mut g = Gen(7);
    for _ in 0..3000 {
        let mut link = g.pick(&["trojan://", "trojan://trojan://", "trojan:/", ""]).to_string();
        link.push_str(g.pick(&["pass", "", "p@ss", "p%40ss", "a:b"]));
        if g.chance(90) {
            link.push('@');
        }
        link.push_str(g.pick(HOSTS));
        if g.chance(90) {
            link.push(':');
            link.push_str(g.pick(PORTS));
        }
        link.push_str(&tail(&mut g));
        assert_eq!(lib(parse_trojan(&link)), model_trojan(&link), "{}", link);
    }
}

fn encode(g: &mut Gen, text: &str) -> String {
    match g.next() % 5 {
        0 => URL_SAFE_NO_PAD.encode(text),
        1 => URL_SAFE.encode(text),
        2 => STANDARD_NO_PAD.encode(text),
        3 => STANDARD.encode(text),
        _ => g.pick(&["!!!", "", "YWJj=", " YWVzOnB3 ", "%%%"]).to_string(),
    }
}

#[test]
fn ss_links_agree() {
    let mut g = Gen(11);
    let infos = ["aes-256-gcm:pass", "chacha20:p:w", "nocolon", ":", "m:", "\u{fffd}:x"];
    for _ in 0..3000 {
        let mut link = g.pick(&["ss://", "ss://ss://", "s://"]).to_string();
        if g.chance(50) {
            let info = g.pick(&infos).to_string();
            link.push_str(&encode(&mut g, &info));
            link.push('@');
            if g.chance(10) {
                link.push('@');
            }
            link.push_str(g.pick(HOSTS));
            link.push(':');
            link.push_str(g.pick(PORTS));
        } else {
            let inner = format!("{}@{}:{}", g.pick(&infos), g.pick(HOSTS), g.pick(PORTS));
            link.push_str(&encode(&mut g, &inner));
        }
        link.push_str(&tail(&mut g));
        assert_eq!(lib(parse_ss(&link)), model_ss(&link), "{}", link);
    }
}

#[test]
fn vmess_links_agree() {
    let mut g = Gen(13);
    let fields = [
        r#""ps":"node""#, r#""ps":"""#, r#""add":"v.com""#, r#""add":5"#, r#""port":443"#, r#""port":"8443""#,
        r#""port":4.5"#, r#""port":true"#, r#""port":"x""#, r#""port":null"#, r#""id":"uuid-1""#,
        r#""aid":"2""#, r#""aid":7"#, r#""aid":"x""#, r#""scy":"""#, r#""scy":"aes-128-gcm""#, r#""tls":"tls""#,
        r#""tls":true"#, r#""sni":"s""#, r#""sni":"""#, r#""alpn":"h2, http/1.1""#, r#""alpn":"""#,
        r#""alpn":["h2",1,"h3"]"#, r#""alpn":{}"#, r#""net":"ws""#, r#""net":"grpc""#, r#""net":"xhttp""#,
        r#""net":"splithttp""#, r#""net":"httpupgrade""#, r#""net":"tcp""#, r#""net":"""#, r#""path":"/p""#,
        r#""path":"""#, r#""host":"h""#, r#""port":1,"port":2"#,
    ];
    for _ in 0..3000 {
        let doc = if g.chance(90) {
            let n = (g.next() % 8) as usize;
            let mut parts = vec![r#""port":"443""#.to_string()];
            for _ in 0..n {
                parts.push(g.pick(&fields).to_string());
            }
            if g.chance(20) {
                parts.remove(0);
            }
            format!("{{{}}}", parts.join(","))
        } else {
            g.pick(&["[]", "1", "\"s\"", "{", "", "null", "{\"port\":\"1\",}"]).to_string()
        };
        let mut link = g.pick(&["vmess://", "vmess://vmess://", "vmes://"]).to_string();
        link.push_str(&encode(&mut g, &doc));
        assert_eq!(lib(parse_vmess(&link)), model_vmess(&link), "{} {}", link, doc);
    }
}

#[test]
fn dispatch_by_scheme() {
    let mut g = Gen(17);
    for _ in 0..500 {
        let mut link = g.pick(&["  ", "", "\t"]).to_string();
        link.push_str(g.pick(&["trojan://p@h:1", "ss://YWVzOnB3QGg6Mg", "vmess://e30", "http://x", "vless://", "日本語のリンクです、とても長い"]));
        link.push_str(g.pick(&["", " ", "\n"]));
        if !link_excerpt_ok(&link) {
            continue;
        }
        let t = link.trim();
        let expected = if t.starts_with("trojan://") {
            model_trojan(t)
        } else if t.starts_with("ss://") {
            model_ss(t)
        } else if t.starts_with("vmess://") {
            model_vmess(t)
        } else if t.starts_with("vless://") {
            lib(parse_link(t))
        } else {
            Err(format!("unsupported link format: {}", &t[..t.len().min(20)]))
        };
        assert_eq!(lib(parse_link(&link)), expected, "{:?}", link);
    }
}

fn model_disable(config: &str) -> String {
    let mut out = Vec::new();
    let mut in_tun = false;
    for line in config.lines() {
        let t = line.trim();
        let mut l = line.to_string();
        if t == "tun:" {
            in_tun = true;
            out.push(l);
            continue;
        }
        if in_tun && t.starts_with("enable:") {
            l = l.replace("enable: true", "enable: false");
            in_tun = false;
        }
        if in_tun && !t.is_empty() && !line.starts_with(' ') && !line.starts_with('\t') {
            in_tun = false;
        }
        out.push(l);
    }
    out.join("\n")
}

fn indented(l: &str) -> bool {
    l.starts_with(' ') || l.starts_with('\t')
}

fn model_enable(config: &str, device: &str) -> String {
    let lines: Vec<&str> = config.lines().collect();
    let mut has_device = false;
    let mut scan = false;
    for l in &lines {
        let t = l.trim();
        if t == "tun:" {
            scan = true;
        } else if scan && !t.is_empty() {
            if !indented(l) {
                scan = false;
            } else if t.starts_with("device:") {
                has_device = true;
            }
        }
    }
    let mut out = Vec::new();
    let mut in_tun = false;
    let mut indent = "  ".to_string();
    for l in &lines {
        let t = l.trim();
        if t == "tun:" {
            in_tun = true;
            out.push(l.to_string());
            continue;
        }
        if in_tun && !t.is_empty() && !indented(l) {
            in_tun = false;
        }
        if in_tun {
            if indented(l) {
                indent = l[..l.len() - l.trim_start().len()].to_string();
            }
            if t.starts_with("enable:") {
                out.push(if l.contains("false") { l.replace("enable: false", "enable: true") } else { l.to_string() });
                if !has_device {
                    out.push(format!("{}device: {}", indent, device));
                    has_device = true;
                }
                continue;
            }
            if t.starts_with("device:") {
                match l.find(':') {
                    Some(i) => out.push(format!("{} {}", &l[..i + 1], device)),
                    None => out.push(l.to_string()),
                }
                continue;
            }
        }
        out.push(l.to_string());
    }
    out.join("\n")
}

#[test]
fn tun_rewrites_agree() {
    let mut g = Gen(19);
    let pieces = [
        "tun:", " tun: ", "tun: ", "  enable: true", "  enable: false", "\tenable: false", "enable: true",
        "  enable: truenable: true", "  enable:false", "  device: utun", "    device:", "\tdevice:x:y", "  stack: system",
        "dns:", "  enable: true # false", "", "   ", "mode: rule", "tun:\r", "  # comment", "\u{3000}enable: false",
        "  enable: falsenable: false",
    ];
    for _ in 0..3000 {
        let n = (g.next() % 9) as usize;
        let mut cfg = String::new();
        for i in 0..n {
            if i > 0 {
                cfg.push_str(g.pick(&["\n", "\n", "\r\n"]));
            }
            cfg.push_str(g.pick(&pieces));
        }
        if g.chance(20) {
            cfg.push('\n');
        }
        let dev = g.pick(&["Meta", "utun9", ""]);
        assert_eq!(ensure_tun_disabled(&cfg), model_disable(&cfg), "{:?}", cfg);
        assert_eq!(ensure_tun_enabled(&cfg, dev), model_enable(&cfg, dev), "{:?} {}", cfg, dev);
    }
}
