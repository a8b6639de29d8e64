use netpolicy::json::{copy, list, member, object, single, text, texts_list, Json};
use netpolicy::outbound::{
    build_balancers, build_dns, build_inbounds, config_document, http_settings,
    http_stream_settings, inbound_document, json_sniffing, node_to_outbound, outbound_document,
    shadowsocks_settings, socks_settings, stream_settings, trojan_settings, vless_settings,
    vmess_settings,
};
use netpolicy::web::{content_type_for_path, static_file_path, url_lines};
use netpolicy::xray::{build_xray_config, parse_proxy_urls, ProxyNode};

fn to_value(j: &Json) -> serde_json::Value {
    match j {
        Json::Null => serde_json::Value::Null,
        Json::Flag(b) => serde_json::Value::Bool(*b),
        Json::Number(n) => serde_json::Value::from(*n),
        Json::Text(s) => serde_json::Value::String(s.clone()),
        Json::List(items) => serde_json::Value::Array(items.iter().map(to_value).collect()),
        Json::Object(members) => {
            let mut map = serde_json::Map::new();
            for (k, v) in members {
                assert!(map.insert(k.clone(), to_value(v)).is_none(), "member {} twice", k);
            }
            serde_json::Value::Object(map)
        }
    }
}

fn parsed(text: &str) -> serde_json::Value {
    serde_json::from_str(text).expect("json")
}

fn node(protocol: &str) -> ProxyNode {
    ProxyNode {
        tag: "t".to_string(),
        protocol: protocol.to_string(),
        server: "s.example".to_string(),
        port: 443,
        uuid: None,
        password: None,
        username: None,
        method: None,
        plugin: None,
        plugin_opts: None,
        security: None,
        grpc_service: None,
        h2_path: None,
        h2_host: None,
        reality_public_key: None,
        reality_short_id: None,
        fingerprint: None,
        network: None,
        tls: false,
        sni: None,
        ws_path: None,
        ws_host: None,
    }
}

#[test]
fn json_builders() {
    let j = member(member(object(), "a", text("x")), "b", single(Json::Number(7)));
    assert_eq!(to_value(&j), parsed(r#"{"a":"x","b":[7]}"#));
    let names = vec!["p".to_string(), "q".to_string()];
    assert_eq!(to_value(&texts_list(&names)), parsed(r#"["p","q"]"#));
    assert_eq!(to_value(&member(text("x"), "k", Json::Null)), parsed(r#""x""#));
    match member(object(), "k", Json::Flag(true)) {
        Json::Object(members) => {
            assert_eq!(members.len(), 1);
            assert_eq!(members[0].0, "k");
        }
        other => panic!("expected an object, got {:?}", other),
    }
}

#[test]
fn protocol_settings() {
    let mut n = node("vmess");
    n.uuid = Some("u-1".to_string());
    assert_eq!(
        to_value(&vmess_settings(&n).unwrap()),
        parsed(r#"{"vnext":[{"address":"s.example","port":443,"users":[{"id":"u-1","alterId":0,"security":"auto"}]}]}"#)
    );
    assert_eq!(
        to_value(&vless_settings(&n).unwrap()),
        parsed(r#"{"vnext":[{"address":"s.example","port":443,"users":[{"id":"u-1","encryption":"none"}]}]}"#)
    );
    n.uuid = None;
    assert_eq!(
        to_value(&vless_settings(&n).unwrap()),
        parsed(r#"{"vnext":[{"address":"s.example","port":443,"users":[{"id":"","encryption":"none"}]}]}"#)
    );
    n.password = Some("pw".to_string());
    assert_eq!(
        to_value(&trojan_settings(&n).unwrap()),
        parsed(r#"{"servers":[{"address":"s.example","port":443,"password":"pw"}]}"#)
    );
    assert_eq!(
        to_value(&shadowsocks_settings(&n).unwrap()),
        parsed(r#"{"servers":[{"address":"s.example","port":443,"method":"aes-128-gcm","password":"pw"}]}"#)
    );
    n.method = Some("chacha20".to_string());
    n.plugin = Some("obfs".to_string());
    n.plugin_opts = Some("o=1".to_string());
    assert_eq!(
        to_value(&shadowsocks_settings(&n).unwrap()),
        parsed(r#"{"servers":[{"address":"s.example","port":443,"method":"chacha20","password":"pw","plugin":"obfs","pluginOpts":"o=1"}]}"#)
    );
    assert_eq!(
        to_value(&socks_settings(&n).unwrap()),
        parsed(r#"{"servers":[{"address":"s.example","port":443,"users":[{"user":"","pass":"pw"}]}]}"#)
    );
    n.password = None;
    assert_eq!(
        to_value(&http_settings(&n).unwrap()),
        parsed(r#"{"servers":[{"address":"s.example","port":443}]}"#)
    );
    n.username = Some("me".to_string());
    assert_eq!(
        to_value(&http_settings(&n).unwrap()),
        parsed(r#"{"servers":[{"address":"s.example","port":443,"users":[{"user":"me","pass":""}]}]}"#)
    );
    assert!(http_stream_settings(&n).is_none());
    n.tls = true;
    assert_eq!(
        to_value(&http_stream_settings(&n).unwrap()),
        parsed(r#"{"security":"tls","tlsSettings":{"serverName":"s.example"}}"#)
    );
}

#[test]
fn stream_settings_by_security_and_network() {
    let mut n = node("vless");
    assert_eq!(to_value(&stream_settings(&n).unwrap()), parsed(r#"{"network":"tcp"}"#));
    n.tls = true;
    assert_eq!(
        to_value(&stream_settings(&n).unwrap()),
        parsed(r#"{"network":"tcp","security":"tls"}"#)
    );
    n.sni = Some("front".to_string());
    n.network = Some("ws".to_string());
    assert_eq!(
        to_value(&stream_settings(&n).unwrap()),
        parsed(r#"{"network":"ws","security":"tls","tlsSettings":{"serverName":"front"},"wsSettings":{"path":"/","headers":{"Host":""}}}"#)
    );
    n.ws_path = Some("/w".to_string());
    n.ws_host = Some("h".to_string());
    n.security = Some("tls".to_string());
    n.tls = false;
    assert_eq!(
        to_value(&stream_settings(&n).unwrap()),
        parsed(r#"{"network":"ws","wsSettings":{"path":"/w","headers":{"Host":"h"}}}"#)
    );
    n.security = Some("TLS".to_string());
    n.tls = true;
    n.network = Some("grpc".to_string());
    assert_eq!(
        to_value(&stream_settings(&n).unwrap()),
        parsed(r#"{"network":"grpc","grpcSettings":{"serviceName":""}}"#)
    );
    n.grpc_service = Some("svc".to_string());
    n.security = Some("reality".to_string());
    assert_eq!(
        to_value(&stream_settings(&n).unwrap()),
        parsed(r#"{"network":"grpc","security":"reality","realitySettings":{"serverName":"front","publicKey":"","shortId":"","fingerprint":"chrome"},"grpcSettings":{"serviceName":"svc"}}"#)
    );
    n.reality_public_key = Some("K".to_string());
    n.reality_short_id = Some("S".to_string());
    n.fingerprint = Some("safari".to_string());
    n.sni = None;
    n.network = Some("h2".to_string());
    assert_eq!(
        to_value(&stream_settings(&n).unwrap()),
        parsed(r#"{"network":"h2","security":"reality","realitySettings":{"serverName":"","publicKey":"K","shortId":"S","fingerprint":"safari"},"httpSettings":{"path":"/","host":[""]}}"#)
    );
    n.h2_path = Some("/p".to_string());
    n.h2_host = Some("hh".to_string());
    n.security = None;
    n.tls = false;
    assert_eq!(
        to_value(&stream_settings(&n).unwrap()),
        parsed(r#"{"network":"h2","httpSettings":{"path":"/p","host":["hh"]}}"#)
    );
}

#[test]
fn outbound_of_each_protocol() {
    for (protocol, has_settings, has_stream) in [
        ("vmess", true, true),
        ("vless", true, true),
        ("trojan", true, true),
        ("shadowsocks", true, false),
        ("socks", true, false),
        ("http", true, false),
        ("wireguard", false, false),
    ] {
        let o = node_to_outbound(&node(protocol));
        assert_eq!(o.tag, "t");
        assert_eq!(o.protocol, protocol);
        assert_eq!(o.settings.is_some(), has_settings, "{}", protocol);
        assert_eq!(o.stream_settings.is_some(), has_stream, "{}", protocol);
    }
    let mut https = node("http");
    https.tls = true;
    assert!(node_to_outbound(&https).stream_settings.is_some());
}

#[test]
fn inbounds_by_host() {
    let common = build_inbounds(false);
    let tags: Vec<(&str, u16, &str)> =
        common.iter().map(|i| (i.tag.as_str(), i.port, i.protocol.as_str())).collect();
    assert_eq!(tags, vec![("http", 7890, "http"), ("socks", 7891, "socks"), ("mixed", 7893, "socks")]);
    assert!(common[0].settings.is_none());
    assert_eq!(to_value(common[1].settings.as_ref().unwrap()), parsed(r#"{"udp":true}"#));
    assert_eq!(to_value(common[2].settings.as_ref().unwrap()), parsed(r#"{"udp":true}"#));
    let linux = build_inbounds(true);
    let tags: Vec<(&str, u16, &str)> =
        linux.iter().map(|i| (i.tag.as_str(), i.port, i.protocol.as_str())).collect();
    assert_eq!(
        tags,
        vec![
            ("http", 7890, "http"),
            ("socks", 7891, "socks"),
            ("mixed", 7893, "socks"),
            ("redir", 7892, "dokodemo-door"),
            ("tproxy", 7895, "dokodemo-door"),
        ]
    );
    assert_eq!(
        to_value(linux[3].settings.as_ref().unwrap()),
        parsed(r#"{"network":"tcp,udp","followRedirect":true}"#)
    );
    assert_eq!(
        to_value(linux[4].settings.as_ref().unwrap()),
        parsed(r#"{"network":"tcp,udp","followRedirect":true,"tproxy":"tproxy"}"#)
    );
    for i in &linux {
        assert_eq!(i.listen, "0.0.0.0");
        assert_eq!(
            to_value(i.sniffing.as_ref().unwrap()),
            parsed(r#"{"enabled":true,"destOverride":["http","tls","quic"]}"#)
        );
    }
    assert_eq!(
        to_value(&json_sniffing()),
        parsed(r#"{"enabled":true,"destOverride":["http","tls","quic"]}"#)
    );
}

#[test]
fn balancers_and_resolvers() {
    assert!(build_balancers(&Vec::new()).is_empty());
    let tags = vec!["a".to_string(), "b".to_string()];
    let b: Vec<serde_json::Value> = build_balancers(&tags).iter().map(to_value).collect();
    assert_eq!(
        b,
        vec![
            parsed(r#"{"tag":"best_ping","selector":["a","b"],"strategy":{"type":"leastPing"}}"#),
            parsed(r#"{"tag":"load_balance","selector":["a","b"],"strategy":{"type":"random"}}"#),
            parsed(r#"{"tag":"fallback","selector":["a","b"],"strategy":{"type":"random"}}"#),
        ]
    );
    let dns = build_dns();
    assert_eq!(dns.query_strategy, "UseIPv4");
    let servers: Vec<serde_json::Value> = dns.servers.iter().map(to_value).collect();
    let want: Vec<serde_json::Value> = [
        "8.8.8.8",
        "1.0.0.1",
        "https://dns.google/dns-query",
        "dhcp",
        "https://doh.pub/dns-query",
        "https://dns.alidns.com/dns-query",
        "1.1.1.1",
        "8.8.4.4",
        "https://cloudflare-dns.com/dns-query",
        "112.215.203.254",
    ]
    .iter()
    .map(|a| parsed(&format!(r#"{{"address":"{}"}}"#, a)))
    .collect();
    assert_eq!(servers, want);
}

#[test]
fn whole_document() {
    let urls = vec![
        "vless://123e4567-e89b-12d3-a456-426614174000@example.com:443?type=ws&security=tls&sni=example.com&path=%2Fws#Test".to_string(),
        "socks5://127.0.0.1:1080".to_string(),
    ];
    let nodes = parse_proxy_urls(&urls).expect("nodes");
    for linux in [false, true] {
        let config = build_xray_config(&nodes, linux);
        assert_eq!(config.log.loglevel, "warning");
        assert_eq!(config.inbounds.len(), if linux { 5 } else { 3 });
        let tags: Vec<&str> = config.outbounds.iter().map(|o| o.tag.as_str()).collect();
        assert_eq!(tags, vec!["Test", "proxy-2", "direct", "reject"]);
        let protocols: Vec<&str> = config.outbounds.iter().map(|o| o.protocol.as_str()).collect();
        assert_eq!(protocols, vec!["vless", "socks", "freedom", "blackhole"]);
        assert!(config.outbounds[2].settings.is_none() && config.outbounds[2].stream_settings.is_none());
        assert!(config.outbounds[3].settings.is_none() && config.outbounds[3].stream_settings.is_none());
        assert_eq!(
            to_value(config.outbounds[0].stream_settings.as_ref().unwrap()),
            parsed(r#"{"network":"ws","security":"tls","tlsSettings":{"serverName":"example.com"},"wsSettings":{"path":"/ws","headers":{"Host":""}}}"#)
        );
        assert_eq!(config.routing.domain_strategy, "AsIs");
        assert!(config.routing.rules.is_empty());
        assert_eq!(config.routing.balancers.len(), 3);
        assert_eq!(
            to_value(&config.routing.balancers[0]),
            parsed(r#"{"tag":"best_ping","selector":["Test","proxy-2"],"strategy":{"type":"leastPing"}}"#)
        );
        assert_eq!(config.dns.servers.len(), 10);
        assert_eq!(config.dns.query_strategy, "UseIPv4");
    }
    let empty = build_xray_config(&[], false);
    let tags: Vec<&str> = empty.outbounds.iter().map(|o| o.tag.as_str()).collect();
    assert_eq!(tags, vec!["direct", "reject"]);
    assert!(empty.routing.balancers.is_empty());
}

#[test]
fn document_has_the_member_names_of_the_forwarder() {
    let urls = vec![
        "trojan://pw@t.example:443?type=grpc&serviceName=s#T".to_string(),
        "ss://m:p@h.example:1".to_string(),
    ];
    let nodes = parse_proxy_urls(&urls).expect("nodes");
    let config = build_xray_config(&nodes, false);
    let document = to_value(&config_document(&config));
    let sniff = r#"{"enabled":true,"destOverride":["http","tls","quic"]}"#;
    let want = format!(
        r#"{{
  "log": {{"loglevel": "warning"}},
  "inbounds": [
    {{"tag":"http","port":7890,"listen":"0.0.0.0","protocol":"http","sniffing":{sniff}}},
    {{"tag":"socks","port":7891,"listen":"0.0.0.0","protocol":"socks","settings":{{"udp":true}},"sniffing":{sniff}}},
    {{"tag":"mixed","port":7893,"listen":"0.0.0.0","protocol":"socks","settings":{{"udp":true}},"sniffing":{sniff}}}
  ],
  "outbounds": [
    {{"tag":"T","protocol":"trojan",
      "settings":{{"servers":[{{"address":"t.example","port":443,"password":"pw"}}]}},
      "streamSettings":{{"network":"grpc","security":"tls","grpcSettings":{{"serviceName":"s"}}}}}},
    {{"tag":"proxy-2","protocol":"shadowsocks",
      "settings":{{"servers":[{{"address":"h.example","port":1,"method":"m","password":"p"}}]}}}},
    {{"tag":"direct","protocol":"freedom"}},
    {{"tag":"reject","protocol":"blackhole"}}
  ],
  "routing": {{
    "domainStrategy": "AsIs",
    "balancers": [
      {{"tag":"best_ping","selector":["T","proxy-2"],"strategy":{{"type":"leastPing"}}}},
      {{"tag":"load_balance","selector":["T","proxy-2"],"strategy":{{"type":"random"}}}},
      {{"tag":"fallback","selector":["T","proxy-2"],"strategy":{{"type":"random"}}}}
    ]
  }},
  "dns": {{
    "servers": [
      {{"address":"8.8.8.8"}},{{"address":"1.0.0.1"}},{{"address":"https://dns.google/dns-query"}},
      {{"address":"dhcp"}},{{"address":"https://doh.pub/dns-query"}},
      {{"address":"https://dns.alidns.com/dns-query"}},{{"address":"1.1.1.1"}},
      {{"address":"8.8.4.4"}},{{"address":"https://cloudflare-dns.com/dns-query"}},
      {{"address":"112.215.203.254"}}
    ],
    "queryStrategy": "UseIPv4"
  }}
}}"#
    );
    assert_eq!(document, parsed(&want));
    let empty = to_value(&config_document(&build_xray_config(&[], true)));
    assert_eq!(empty["routing"], parsed(r#"{"domainStrategy":"AsIs"}"#));
    assert_eq!(empty["inbounds"].as_array().map(|a| a.len()), Some(5));
    assert_eq!(
        to_value(&inbound_document(&config.inbounds[0])),
        parsed(&format!(
            r#"{{"tag":"http","port":7890,"listen":"0.0.0.0","protocol":"http","sniffing":{}}}"#,
            sniff
        ))
    );
    assert_eq!(
        to_value(&outbound_document(&config.outbounds[3])),
        parsed(r#"{"tag":"reject","protocol":"blackhole"}"#)
    );
}

#[test]
fn json_copy_and_list() {
    let j = member(
        member(object(), "a", single(member(object(), "b", Json::Null))),
        "c",
        list(vec![Json::Flag(false), Json::Number(3), text("t")]),
    );
    assert_eq!(to_value(&copy(&j)), to_value(&j));
    assert_eq!(to_value(&copy(&j)), parsed(r#"{"a":[{"b":null}],"c":[false,3,"t"]}"#));
    assert_eq!(to_value(&list(Vec::new())), parsed("[]"));
}

#[test]
fn web_paths_and_content_types() {
    assert_eq!(content_type_for_path("index.html"), "text/html; charset=utf-8");
    assert_eq!(content_type_for_path("a/b.css"), "text/css; charset=utf-8");
    assert_eq!(content_type_for_path("app.js"), "application/javascript; charset=utf-8");
    assert_eq!(content_type_for_path("app.json"), "application/octet-stream");
    assert_eq!(content_type_for_path("HTML"), "application/octet-stream");
    assert_eq!(content_type_for_path(""), "application/octet-stream");
    assert_eq!(static_file_path("/"), Some("index.html".to_string()));
    assert_eq!(static_file_path(""), Some("index.html".to_string()));
    assert_eq!(static_file_path("///css/site.css"), Some("css/site.css".to_string()));
    assert_eq!(static_file_path("/a/../b"), None);
    assert_eq!(static_file_path("/.."), None);
    assert_eq!(static_file_path("/a.b"), Some("a.b".to_string()));
}

#[test]
fn link_lists() {
    assert_eq!(
        url_lines("# links\n  vless://a \r\n\n#x\nss://b\n   \n http://c#tag"),
        vec!["vless://a".to_string(), "ss://b".to_string(), "http://c#tag".to_string()]
    );
    assert_eq!(url_lines(""), Vec::<String>::new());
    assert_eq!(url_lines(" # only a comment"), Vec::<String>::new());
}
