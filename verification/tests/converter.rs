use base64::Engine;
use fusiontunx::text::trim_start_matches_str;
use fusiontunx::converter::encoding::decode_base64;
use fusiontunx::converter::parser::{link_excerpt_ok, parse_link, parse_links};
use fusiontunx::converter::query::url_decode;
use fusiontunx::converter::ss::parse_ss;
use fusiontunx::converter::subscription::{parse_subscription, subscription_lines, try_parse_subscription};
use fusiontunx::converter::trojan::parse_trojan;
use fusiontunx::converter::types::{Proxy, ProxyType};
use fusiontunx::converter::vless::parse_vless;
use fusiontunx::converter::vmess::{parse_vmess, vmess_from_members};
use fusiontunx::converter::json::JsonField;

fn chars(s: &str) -> Vec<char> {
    s.chars().collect()
}

fn headers(p: &Proxy) -> Option<Vec<(String, String)>> {
    p.ws_headers.clone()
}

#[test]
fn trojan_full_link() {
    let p = parse_trojan(
        "trojan://pass@example.com:443?security=tls&sni=sni.com&alpn=h2,%20http/1.1&type=ws&path=%2Fws&host=h.com#My%20Node",
    )
    .unwrap();
    assert_eq!(p.name, "My Node");
    assert_eq!(p.proxy_type, ProxyType::Trojan);
    assert_eq!(p.server, "example.com");
    assert_eq!(p.port, 443);
    assert_eq!(p.password.as_deref(), Some("pass"));
    assert_eq!(p.udp, Some(true));
    assert_eq!(p.tls, Some(true));
    assert_eq!(p.sni.as_deref(), Some("sni.com"));
    assert_eq!(p.alpn, Some(vec!["h2".to_string(), "http/1.1".to_string()]));
    assert_eq!(p.network.as_deref(), Some("ws"));
    assert_eq!(p.ws_path.as_deref(), Some("/ws"));
    assert_eq!(headers(&p), Some(vec![("Host".to_string(), "h.com".to_string())]));
    assert_eq!(p.uuid, None);
    assert_eq!(p.cipher, None);
}

#[test]
fn trojan_default_name_and_plus_remark() {
    let p = parse_trojan("trojan://pw@1.2.3.4:8443").unwrap();
    assert_eq!(p.name, "1.2.3.4:8443");
    assert_eq!(p.tls, None);
    let q = parse_trojan("trojan://pw@1.2.3.4:8443#My+Node").unwrap();
    assert_eq!(q.name, "My Node");
    let g = parse_trojan("trojan://pw@h:1?type=grpc&serviceName=svc&security=none").unwrap();
    assert_eq!(g.network.as_deref(), Some("grpc"));
    assert_eq!(g.grpc_service_name.as_deref(), Some("svc"));
    assert_eq!(g.tls, None);
    let x = parse_trojan("trojan://pw@h:1?type=xhttp&path=%252Fx").unwrap();
    assert_eq!(x.xhttp_path.as_deref(), Some("/x"));
}

#[test]
fn trojan_errors() {
    assert_eq!(parse_trojan("vmess://x").unwrap_err(), "invalid trojan link");
    assert_eq!(parse_trojan("trojan://host:1").unwrap_err(), "invalid trojan link format");
    assert_eq!(parse_trojan("trojan://pw@host").unwrap_err(), "invalid server:port format");
    assert_eq!(
        parse_trojan("trojan://pw@host:abc").unwrap_err(),
        "invalid port: invalid digit found in string"
    );
    assert_eq!(
        parse_trojan("trojan://pw@host:99999999999").unwrap_err(),
        "invalid port: number too large to fit in target type"
    );
    assert_eq!(
        parse_trojan("trojan://pw@host:").unwrap_err(),
        "invalid port: cannot parse integer from empty string"
    );
}

#[test]
fn trojan_repeated_scheme_is_stripped() {
    let p = parse_trojan("trojan://trojan://pw@h:2").unwrap();
    assert_eq!(p.password.as_deref(), Some("pw"));
    assert_eq!(p.port, 2);
}

#[test]
fn ss_sip002_link() {
    let p = parse_ss("ss://YWVzLTI1Ni1nY206cGFzc3dvcmQ=@1.2.3.4:8388#Node").unwrap();
    assert_eq!(p.name, "Node");
    assert_eq!(p.proxy_type, ProxyType::SS);
    assert_eq!(p.cipher.as_deref(), Some("aes-256-gcm"));
    assert_eq!(p.password.as_deref(), Some("password"));
    assert_eq!(p.server, "1.2.3.4");
    assert_eq!(p.port, 8388);
    assert_eq!(p.udp, Some(true));
    assert_eq!(p.plugin, None);
}

#[test]
fn ss_legacy_link() {
    let p = parse_ss("ss://Y2hhY2hhMjAtaWV0Zi1wb2x5MTMwNTpwd0BzZXJ2ZXIuY29tOjEyMzQ=").unwrap();
    assert_eq!(p.name, "server.com:1234");
    assert_eq!(p.cipher.as_deref(), Some("chacha20-ietf-poly1305"));
    assert_eq!(p.password.as_deref(), Some("pw"));
    assert_eq!(p.server, "server.com");
    assert_eq!(p.port, 1234);
}

#[test]
fn ss_plugin_options() {
    let p = parse_ss(
        "ss://YWVzLTI1Ni1nY206cGFzc3dvcmQ@h.com:443?plugin=obfs-local%3Bobfs%3Dhttp%3Bbad%3Bobfs-host%3Dexample.com#N",
    )
    .unwrap();
    assert_eq!(p.plugin.as_deref(), Some("obfs-local"));
    assert_eq!(
        p.plugin_opts,
        Some(vec![
            ("obfs".to_string(), "http".to_string()),
            ("obfs-host".to_string(), "example.com".to_string()),
        ])
    );
    let q = parse_ss("ss://YWVzLTI1Ni1nY206cGFzc3dvcmQ@h.com:443?plugin=v2ray").unwrap();
    assert_eq!(q.plugin.as_deref(), Some("v2ray"));
    assert_eq!(q.plugin_opts, None);
}

#[test]
fn ss_errors() {
    assert_eq!(parse_ss("trojan://x").unwrap_err(), "invalid ss link");
    assert_eq!(parse_ss("ss://a@b@c").unwrap_err(), "invalid ss link format");
    assert_eq!(
        parse_ss("ss://!!!@h:1").unwrap_err(),
        "failed to decode userinfo: Failed to decode base64"
    );
    assert_eq!(parse_ss("ss://!!!").unwrap_err(), "failed to decode ss link: Failed to decode base64");
    // base64("nocolon") as userinfo
    assert_eq!(parse_ss("ss://bm9jb2xvbg@h:1").unwrap_err(), "invalid method:password format");
}

#[test]
fn vmess_string_fields() {
    let link = "vmess://eyJ2IjoiMiIsInBzIjoidGVzdCBub2RlIiwiYWRkIjoiMS4yLjMuNCIsInBvcnQiOiI0NDMiLCJpZCI6ImFiY2QtdXVpZCIsImFpZCI6IjAiLCJuZXQiOiJ3cyIsInR5cGUiOiJub25lIiwiaG9zdCI6ImguY29tIiwicGF0aCI6Ii9wIiwidGxzIjoidGxzIiwic25pIjoicy5jb20iLCJhbHBuIjoiaDIsIGh0dHAvMS4xIn0=";
    let p = parse_vmess(link).unwrap();
    assert_eq!(p.name, "test node");
    assert_eq!(p.proxy_type, ProxyType::VMess);
    assert_eq!(p.server, "1.2.3.4");
    assert_eq!(p.port, 443);
    assert_eq!(p.uuid.as_deref(), Some("abcd-uuid"));
    assert_eq!(p.cipher.as_deref(), Some("auto"));
    assert_eq!(p.alter_id, Some(0));
    assert_eq!(p.tls, Some(true));
    assert_eq!(p.sni.as_deref(), Some("s.com"));
    assert_eq!(p.alpn, Some(vec!["h2".to_string(), "http/1.1".to_string()]));
    assert_eq!(p.network.as_deref(), Some("ws"));
    assert_eq!(p.ws_path.as_deref(), Some("/p"));
    assert_eq!(headers(&p), Some(vec![("Host".to_string(), "h.com".to_string())]));
}

#[test]
fn vmess_number_fields_and_array_alpn() {
    let link = "vmess://eyJhZGQiOiI1LjYuNy44IiwicG9ydCI6ODA4MCwiaWQiOiJ1MiIsImFpZCI6MiwibmV0IjoiZ3JwYyIsInBhdGgiOiJzdmMiLCJzY3kiOiIiLCJhbHBuIjpbImgyIiwxLCJodHRwLzEuMSJdfQ==";
    let p = parse_vmess(link).unwrap();
    assert_eq!(p.name, "5.6.7.8:8080");
    assert_eq!(p.port, 8080);
    assert_eq!(p.alter_id, Some(2));
    assert_eq!(p.cipher.as_deref(), Some("auto"));
    assert_eq!(p.network.as_deref(), Some("grpc"));
    assert_eq!(p.grpc_service_name.as_deref(), Some("svc"));
    assert_eq!(p.alpn, Some(vec!["h2".to_string(), "http/1.1".to_string()]));
    assert_eq!(p.tls, None);
}

#[test]
fn vmess_errors() {
    assert_eq!(parse_vmess("trojan://x").unwrap_err(), "invalid vmess link");
    assert_eq!(
        parse_vmess("vmess://!!!").unwrap_err(),
        "failed to decode vmess link: Failed to decode base64"
    );
    // base64("{}") decodes, but the port is missing
    assert_eq!(
        parse_vmess("vmess://e30=").unwrap_err(),
        "invalid port: cannot parse integer from empty string"
    );
    // base64("nojson") is not JSON
    let e = parse_vmess("vmess://bm9qc29u").unwrap_err();
    assert!(e.starts_with("failed to parse vmess config: "));
    assert!(e.len() > "failed to parse vmess config: ".len());
}

#[test]
fn vmess_members_directly() {
    let fields = vec![
        ("add".to_string(), JsonField::Str("h".to_string())),
        ("port".to_string(), JsonField::Bool(true)),
    ];
    assert_eq!(
        vmess_from_members(&fields).unwrap_err(),
        "invalid port: invalid digit found in string"
    );
    let fields = vec![
        ("add".to_string(), JsonField::Str("h".to_string())),
        ("port".to_string(), JsonField::Number("10".to_string())),
        ("scy".to_string(), JsonField::Str("aes-128-gcm".to_string())),
        ("net".to_string(), JsonField::Str("httpupgrade".to_string())),
        ("path".to_string(), JsonField::Str("/u".to_string())),
        ("host".to_string(), JsonField::Str("ignored".to_string())),
    ];
    let p = vmess_from_members(&fields).unwrap();
    assert_eq!(p.name, "h:10");
    assert_eq!(p.cipher.as_deref(), Some("aes-128-gcm"));
    assert_eq!(p.httpupgrade_path.as_deref(), Some("/u"));
    assert_eq!(p.ws_headers, None);
    assert_eq!(p.uuid.as_deref(), Some(""));
}

#[test]
fn vless_link() {
    let p = parse_vless(
        "vless://id-1@v.com:443?security=reality&flow=xtls-rprx-vision&sni=www.x.com&type=grpc&serviceName=g#V",
    )
    .unwrap();
    assert_eq!(p.name, "V");
    assert_eq!(p.proxy_type, ProxyType::VLess);
    assert_eq!(p.uuid.as_deref(), Some("id-1"));
    assert_eq!(p.tls, Some(true));
    assert_eq!(p.flow.as_deref(), Some("xtls-rprx-vision"));
    assert_eq!(p.sni.as_deref(), Some("www.x.com"));
    assert_eq!(p.grpc_service_name.as_deref(), Some("g"));
    assert_eq!(p.password, None);
    assert_eq!(parse_vless("vless://nohost").unwrap_err(), "invalid vless link format");
}

#[test]
fn link_dispatch_and_whitespace() {
    let p = parse_link("  trojan://pw@h:3  \n").unwrap();
    assert_eq!(p.server, "h");
    assert_eq!(p.port, 3);
    assert_eq!(
        parse_link("http://example.com/some/long/path").unwrap_err(),
        "unsupported link format: http://example.com/s"
    );
    assert_eq!(parse_link("short").unwrap_err(), "unsupported link format: short");
    assert!(link_excerpt_ok("http://example.com/some/long/path"));
    // a two-byte character across byte 20
    assert!(!link_excerpt_ok("http://example.com/\u{e9}xyz"));
    assert!(link_excerpt_ok("http://example.co/\u{e9}xyz"));
    assert_eq!(
        parse_link("http://example.co/\u{e9}xyz").unwrap_err(),
        "unsupported link format: http://example.co/\u{e9}"
    );
}

#[test]
fn links_list() {
    let all_blank: Vec<String> = vec!["".to_string(), "   ".to_string()];
    assert_eq!(parse_links(&all_blank).unwrap().len(), 0);
    let bad: Vec<String> = vec!["bad".to_string(), "".to_string(), "x\"y".to_string()];
    assert_eq!(
        parse_links(&bad).unwrap_err(),
        "failed to parse any links: [\"unsupported link format: bad\", \"unsupported link format: x\\\"y\"]"
    );
    let mixed: Vec<String> = vec!["bad".to_string(), " trojan://pw@h:1 ".to_string()];
    let ps = parse_links(&mixed).unwrap();
    assert_eq!(ps.len(), 1);
    assert_eq!(ps[0].name, "h:1");
}

#[test]
fn subscriptions() {
    let encoded = "dHJvamFuOi8vcHdAYS5jb206NDQzI0EKCnNzOi8vWVdWekxUSTFOaTFuWTIwNmNHRnpjM2R2Y21RPUBiLmNvbTo4Mzg4I0IK";
    let lines = subscription_lines(encoded);
    assert_eq!(lines.len(), 2);
    let ps = parse_subscription(encoded).unwrap();
    assert_eq!(ps.len(), 2);
    assert_eq!(ps[0].name, "A");
    assert_eq!(ps[1].name, "B");
    assert_eq!(ps[1].cipher.as_deref(), Some("aes-256-gcm"));
    let plain = "trojan://pw@a.com:443#A\r\n  \r\ntrojan://pw@b.com:1\n";
    let ps = parse_subscription(plain).unwrap();
    assert_eq!(ps.len(), 2);
    assert_eq!(ps[1].name, "b.com:1");
    assert!(try_parse_subscription("http://example.com/\u{e9}xyz").is_none());
    assert_eq!(
        try_parse_subscription("nothing here").unwrap().unwrap_err(),
        "failed to parse any links: [\"unsupported link format: nothing here\"]"
    );
}

#[test]
fn base64_is_lenient() {
    assert_eq!(decode_base64("aGVsbG8").unwrap(), b"hello".to_vec());
    assert_eq!(decode_base64(" aGVsbG8= \n").unwrap(), b"hello".to_vec());
    // standard alphabet only
    assert_eq!(decode_base64("YWVzLTEyOC1nY206cCt3Lz8=").unwrap(), b"aes-128-gcm:p+w/?".to_vec());
    // URL-safe alphabet only
    assert_eq!(decode_base64("YWVzLTEyOC1nY206cCt3Lz8").unwrap(), b"aes-128-gcm:p+w/?".to_vec());
    assert_eq!(decode_base64("YWVzLTEyOC1nY206cCt3Lz8".replace('+', "-").replace('/', "_").as_str()).unwrap(), b"aes-128-gcm:p+w/?".to_vec());
    assert_eq!(decode_base64("@@").unwrap_err(), "Failed to decode base64");
}

#[test]
fn url_decoding() {
    assert_eq!(url_decode(&chars("a%20b+c")), "a b c");
    assert_eq!(url_decode(&chars("a&b")), "a");
    assert_eq!(url_decode(&chars("x=y")), "x=y");
    assert_eq!(url_decode(&chars("")), "");
}

#[test]
fn vmess_port_as_string_or_number() {
    let enc = |j: &str| format!("vmess://{}", base64::engine::general_purpose::STANDARD.encode(j));
    let a = parse_vmess(&enc(r#"{"add":"h","port":"443","aid":"2","id":"u"}"#)).unwrap();
    let b = parse_vmess(&enc(r#"{"add":"h","port":443,"aid":2,"id":"u"}"#)).unwrap();
    assert_eq!(a.port, 443);
    assert_eq!(b.port, 443);
    assert_eq!(a.alter_id, Some(2));
    assert_eq!(b.alter_id, Some(2));
    assert_eq!(format!("{:?}", a), format!("{:?}", b));
}

#[test]
fn trim_prefix_with_empty_pattern() {
    let v = chars("ss://ss://x");
    assert_eq!(trim_start_matches_str(&v, "").iter().collect::<String>(), "ss://ss://x");
    assert_eq!(trim_start_matches_str(&v, "ss://").iter().collect::<String>(), "x");
}
