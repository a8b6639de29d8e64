//! The outbound assembler: from proxy nodes to the configuration document
//! of the forwarder, with its inbounds, outbounds, routing and resolvers.

use crate::json::{
    copy, docs_view, empty_object, list, list_of_one, member, object, opt_doc, single, text,
    text_list, texts_list, with_member, Json, JsonDoc,
};
use crate::strings::{opt_view, str_eq, strings_view};
use crate::xray::{nodes_view, NodeView, ProxyNode};
use vstd::prelude::*;

verus! {

/// The whole configuration document.
#[derive(Debug)]
pub struct XrayConfig {
    pub log: XrayLog,
    pub inbounds: Vec<XrayInbound>,
    pub outbounds: Vec<XrayOutbound>,
    pub routing: XrayRouting,
    pub dns: XrayDns,
}

/// The logging section.
#[derive(Debug)]
pub struct XrayLog {
    pub loglevel: String,
}

/// One listener of the forwarder.
#[derive(Debug)]
pub struct XrayInbound {
    pub tag: String,
    pub port: u16,
    pub listen: String,
    pub protocol: String,
    pub settings: Option<Json>,
    pub sniffing: Option<Json>,
}

/// One way out of the forwarder.
#[derive(Debug)]
pub struct XrayOutbound {
    pub tag: String,
    pub protocol: String,
    pub settings: Option<Json>,
    pub stream_settings: Option<Json>,
}

/// The routing section.
#[derive(Debug)]
pub struct XrayRouting {
    pub domain_strategy: String,
    pub rules: Vec<Json>,
    pub balancers: Vec<Json>,
}

/// The resolver section.
#[derive(Debug)]
pub struct XrayDns {
    pub servers: Vec<Json>,
    pub query_strategy: String,
}

/// The model of an `XrayInbound`.
pub struct InboundView {
    pub tag: Seq<char>,
    pub port: u16,
    pub listen: Seq<char>,
    pub protocol: Seq<char>,
    pub settings: Option<JsonDoc>,
    pub sniffing: Option<JsonDoc>,
}

/// The model of an `XrayOutbound`.
pub struct OutboundView {
    pub tag: Seq<char>,
    pub protocol: Seq<char>,
    pub settings: Option<JsonDoc>,
    pub stream_settings: Option<JsonDoc>,
}

/// The model of an `XrayRouting`.
pub struct RoutingView {
    pub domain_strategy: Seq<char>,
    pub rules: Seq<JsonDoc>,
    pub balancers: Seq<JsonDoc>,
}

/// The model of an `XrayDns`.
pub struct DnsView {
    pub servers: Seq<JsonDoc>,
    pub query_strategy: Seq<char>,
}

/// The model of an `XrayConfig`.
pub struct ConfigView {
    pub loglevel: Seq<char>,
    pub inbounds: Seq<InboundView>,
    pub outbounds: Seq<OutboundView>,
    pub routing: RoutingView,
    pub dns: DnsView,
}

impl View for XrayLog {
    type V = Seq<char>;

    open spec fn view(&self) -> Seq<char> {
        self.loglevel@
    }
}

impl View for XrayInbound {
    type V = InboundView;

    open spec fn view(&self) -> InboundView {
        InboundView {
            tag: self.tag@,
            port: self.port,
            listen: self.listen@,
            protocol: self.protocol@,
            settings: opt_doc(self.settings),
            sniffing: opt_doc(self.sniffing),
        }
    }
}

impl View for XrayOutbound {
    type V = OutboundView;

    open spec fn view(&self) -> OutboundView {
        OutboundView {
            tag: self.tag@,
            protocol: self.protocol@,
            settings: opt_doc(self.settings),
            stream_settings: opt_doc(self.stream_settings),
        }
    }
}

impl View for XrayRouting {
    type V = RoutingView;

    open spec fn view(&self) -> RoutingView {
        RoutingView {
            domain_strategy: self.domain_strategy@,
            rules: docs_view(self.rules@),
            balancers: docs_view(self.balancers@),
        }
    }
}

impl View for XrayDns {
    type V = DnsView;

    open spec fn view(&self) -> DnsView {
        DnsView { servers: docs_view(self.servers@), query_strategy: self.query_strategy@ }
    }
}

/// The models of a sequence of inbounds.
pub open spec fn inbounds_view(v: Seq<XrayInbound>) -> Seq<InboundView> {
    Seq::new(v.len(), |i: int| v[i]@)
}

/// The models of a sequence of outbounds.
pub open spec fn outbounds_view(v: Seq<XrayOutbound>) -> Seq<OutboundView> {
    Seq::new(v.len(), |i: int| v[i]@)
}

impl View for XrayConfig {
    type V = ConfigView;

    open spec fn view(&self) -> ConfigView {
        ConfigView {
            loglevel: self.log@,
            inbounds: inbounds_view(self.inbounds@),
            outbounds: outbounds_view(self.outbounds@),
            routing: self.routing@,
            dns: self.dns@,
        }
    }
}

/// An optional text, or the fallback where it is absent.
pub open spec fn or_text(o: Option<Seq<char>>, fallback: Seq<char>) -> Seq<char> {
    match o {
        Some(s) => s,
        None => fallback,
    }
}

/// An optional string, or the fallback where it is absent.
fn text_or<'a>(o: &'a Option<String>, fallback: &'a str) -> (r: &'a str)
    ensures
        r@ == or_text(opt_view(*o), fallback@),
{
    match o {
        Some(s) => s.as_str(),
        None => fallback,
    }
}

/// The object with the `address` and the `port` of a node's server.
pub open spec fn server_doc(n: NodeView) -> JsonDoc {
    with_member(
        with_member(empty_object(), "address"@, JsonDoc::Text(n.server)),
        "port"@,
        JsonDoc::Number(n.port as u64),
    )
}

/// The object with the `address` and the `port` of a node's server.
fn server_object(node: &ProxyNode) -> (j: Json)
    ensures
        j@ == server_doc(node@),
{
    member(
        member(object(), "address", text(node.server.as_str())),
        "port",
        Json::Number(node.port as u64),
    )
}

/// The settings of a vmess outbound: one server under `vnext` with one
/// user, whose id is the node's UUID.
pub open spec fn vmess_settings_doc(n: NodeView) -> JsonDoc {
    let user = with_member(
        with_member(
            with_member(empty_object(), "id"@, JsonDoc::Text(or_text(n.uuid, ""@))),
            "alterId"@,
            JsonDoc::Number(0),
        ),
        "security"@,
        JsonDoc::Text("auto"@),
    );
    with_member(
        empty_object(),
        "vnext"@,
        list_of_one(with_member(server_doc(n), "users"@, list_of_one(user))),
    )
}

/// The settings of a vless outbound: one server under `vnext` with one
/// user, whose id is the node's UUID, without encryption.
pub open spec fn vless_settings_doc(n: NodeView) -> JsonDoc {
    let user = with_member(
        with_member(empty_object(), "id"@, JsonDoc::Text(or_text(n.uuid, ""@))),
        "encryption"@,
        JsonDoc::Text("none"@),
    );
    with_member(
        empty_object(),
        "vnext"@,
        list_of_one(with_member(server_doc(n), "users"@, list_of_one(user))),
    )
}

/// The settings of a trojan outbound: one server with the node's password.
pub open spec fn trojan_settings_doc(n: NodeView) -> JsonDoc {
    with_member(
        empty_object(),
        "servers"@,
        list_of_one(
            with_member(server_doc(n), "password"@, JsonDoc::Text(or_text(n.password, ""@))),
        ),
    )
}

/// An object with a text member added where the text is there.
pub open spec fn with_optional(doc: JsonDoc, key: Seq<char>, value: Option<Seq<char>>) -> JsonDoc {
    match value {
        Some(s) => with_member(doc, key, JsonDoc::Text(s)),
        None => doc,
    }
}

/// The settings of a shadowsocks outbound: one server with method and
/// password, and with the plugin and its options where the node has them.
pub open spec fn shadowsocks_settings_doc(n: NodeView) -> JsonDoc {
    let server = with_member(
        with_member(server_doc(n), "method"@, JsonDoc::Text(or_text(n.method, "aes-128-gcm"@))),
        "password"@,
        JsonDoc::Text(or_text(n.password, ""@)),
    );
    with_member(
        empty_object(),
        "servers"@,
        list_of_one(
            with_optional(with_optional(server, "plugin"@, n.plugin), "pluginOpts"@, n.plugin_opts),
        ),
    )
}

/// The settings of a socks or http outbound: one server, with one user
/// where the node has a user name or a password.
pub open spec fn plain_settings_doc(n: NodeView) -> JsonDoc {
    let user = with_member(
        with_member(empty_object(), "user"@, JsonDoc::Text(or_text(n.username, ""@))),
        "pass"@,
        JsonDoc::Text(or_text(n.password, ""@)),
    );
    let server = if n.username is Some || n.password is Some {
        with_member(server_doc(n), "users"@, list_of_one(user))
    } else {
        server_doc(n)
    };
    with_member(empty_object(), "servers"@, list_of_one(server))
}

/// The stream settings of an http outbound: TLS towards the server where
/// the node asks for it, none otherwise.
pub open spec fn http_stream_doc(n: NodeView) -> Option<JsonDoc> {
    if !n.tls {
        None
    } else {
        Some(
            with_member(
                with_member(empty_object(), "security"@, JsonDoc::Text("tls"@)),
                "tlsSettings"@,
                with_member(empty_object(), "serverName"@, JsonDoc::Text(n.server)),
            ),
        )
    }
}

/// The security of a node's stream: its own, or `tls` or `none` by its TLS
/// flag where it names none.
pub open spec fn stream_security(n: NodeView) -> Seq<char> {
    match n.security {
        Some(s) => s,
        None => if n.tls {
            "tls"@
        } else {
            "none"@
        },
    }
}

/// The stream settings with the TLS part: `security` is `tls` where the
/// node's security is `tls` and its TLS flag is on, with the server name
/// where the node has one.
pub open spec fn with_tls(doc: JsonDoc, n: NodeView) -> JsonDoc {
    if stream_security(n) == "tls"@ && n.tls {
        let secured = with_member(doc, "security"@, JsonDoc::Text("tls"@));
        match n.sni {
            Some(name) => with_member(
                secured,
                "tlsSettings"@,
                with_member(empty_object(), "serverName"@, JsonDoc::Text(name)),
            ),
            None => secured,
        }
    } else {
        doc
    }
}

/// The stream settings with the reality part, where the node's security is
/// `reality`.
pub open spec fn with_reality(doc: JsonDoc, n: NodeView) -> JsonDoc {
    if stream_security(n) == "reality"@ {
        with_member(
            with_member(doc, "security"@, JsonDoc::Text("reality"@)),
            "realitySettings"@,
            with_member(
                with_member(
                    with_member(
                        with_member(
                            empty_object(),
                            "serverName"@,
                            JsonDoc::Text(or_text(n.sni, ""@)),
                        ),
                        "publicKey"@,
                        JsonDoc::Text(or_text(n.reality_public_key, ""@)),
                    ),
                    "shortId"@,
                    JsonDoc::Text(or_text(n.reality_short_id, ""@)),
                ),
                "fingerprint"@,
                JsonDoc::Text(or_text(n.fingerprint, "chrome"@)),
            ),
        )
    } else {
        doc
    }
}

/// The stream settings with the part of the node's network: websocket,
/// gRPC or HTTP/2 settings, or none.
pub open spec fn with_transport(doc: JsonDoc, n: NodeView) -> JsonDoc {
    let ws = if n.network == Some("ws"@) {
        with_member(
            doc,
            "wsSettings"@,
            with_member(
                with_member(empty_object(), "path"@, JsonDoc::Text(or_text(n.ws_path, "/"@))),
                "headers"@,
                with_member(empty_object(), "Host"@, JsonDoc::Text(or_text(n.ws_host, ""@))),
            ),
        )
    } else {
        doc
    };
    let grpc = if n.network == Some("grpc"@) {
        with_member(
            ws,
            "grpcSettings"@,
            with_member(
                empty_object(),
                "serviceName"@,
                JsonDoc::Text(or_text(n.grpc_service, ""@)),
            ),
        )
    } else {
        ws
    };
    if n.network == Some("h2"@) {
        with_member(
            grpc,
            "httpSettings"@,
            with_member(
                with_member(empty_object(), "path"@, JsonDoc::Text(or_text(n.h2_path, "/"@))),
                "host"@,
                list_of_one(JsonDoc::Text(or_text(n.h2_host, ""@))),
            ),
        )
    } else {
        grpc
    }
}

/// The stream settings of a vmess, vless or trojan outbound: the network,
/// `tcp` where the node names none, then the security part, then the part of
/// the network.
pub open spec fn stream_settings_doc(n: NodeView) -> JsonDoc {
    with_transport(
        with_reality(
            with_tls(
                with_member(empty_object(), "network"@, JsonDoc::Text(or_text(n.network, "tcp"@))),
                n,
            ),
            n,
        ),
        n,
    )
}

/// The outbound of a node: its tag, its protocol, and the settings and
/// stream settings of that protocol. A protocol that is not known gets
/// neither.
pub open spec fn outbound_of(n: NodeView) -> OutboundView {
    let (settings, stream) = if n.protocol == "vmess"@ {
        (Some(vmess_settings_doc(n)), Some(stream_settings_doc(n)))
    } else if n.protocol == "vless"@ {
        (Some(vless_settings_doc(n)), Some(stream_settings_doc(n)))
    } else if n.protocol == "trojan"@ {
        (Some(trojan_settings_doc(n)), Some(stream_settings_doc(n)))
    } else if n.protocol == "shadowsocks"@ {
        (Some(shadowsocks_settings_doc(n)), None)
    } else if n.protocol == "socks"@ {
        (Some(plain_settings_doc(n)), None)
    } else if n.protocol == "http"@ {
        (Some(plain_settings_doc(n)), http_stream_doc(n))
    } else {
        (None, None)
    };
    OutboundView { tag: n.tag, protocol: n.protocol, settings, stream_settings: stream }
}

/// The settings of a vmess outbound.
pub fn vmess_settings(node: &ProxyNode) -> (j: Option<Json>)
    ensures
        opt_doc(j) == Some(vmess_settings_doc(node@)),
{
    let user = member(
        member(member(object(), "id", text(text_or(&node.uuid, ""))), "alterId", Json::Number(0)),
        "security",
        text("auto"),
    );
    Some(member(object(), "vnext", single(member(server_object(node), "users", single(user)))))
}

/// The settings of a vless outbound.
pub fn vless_settings(node: &ProxyNode) -> (j: Option<Json>)
    ensures
        opt_doc(j) == Some(vless_settings_doc(node@)),
{
    let user = member(
        member(object(), "id", text(text_or(&node.uuid, ""))),
        "encryption",
        text("none"),
    );
    Some(member(object(), "vnext", single(member(server_object(node), "users", single(user)))))
}

/// The settings of a trojan outbound.
pub fn trojan_settings(node: &ProxyNode) -> (j: Option<Json>)
    ensures
        opt_doc(j) == Some(trojan_settings_doc(node@)),
{
    Some(
        member(
            object(),
            "servers",
            single(member(server_object(node), "password", text(text_or(&node.password, "")))),
        ),
    )
}

/// Adds a text member where the text is there.
fn member_if(obj: Json, key: &str, value: &Option<String>) -> (j: Json)
    ensures
        j@ == with_optional(obj@, key@, opt_view(*value)),
{
    match value {
        Some(s) => member(obj, key, text(s.as_str())),
        None => obj,
    }
}

/// The settings of a shadowsocks outbound.
pub fn shadowsocks_settings(node: &ProxyNode) -> (j: Option<Json>)
    ensures
        opt_doc(j) == Some(shadowsocks_settings_doc(node@)),
{
    let server = member(
        member(server_object(node), "method", text(text_or(&node.method, "aes-128-gcm"))),
        "password",
        text(text_or(&node.password, "")),
    );
    let server = member_if(server, "plugin", &node.plugin);
    let server = member_if(server, "pluginOpts", &node.plugin_opts);
    Some(member(object(), "servers", single(server)))
}

/// The settings of a socks or http outbound.
fn plain_settings(node: &ProxyNode) -> (j: Option<Json>)
    ensures
        opt_doc(j) == Some(plain_settings_doc(node@)),
{
    let server = if node.username.is_some() || node.password.is_some() {
        let user = member(
            member(object(), "user", text(text_or(&node.username, ""))),
            "pass",
            text(text_or(&node.password, "")),
        );
        member(server_object(node), "users", single(user))
    } else {
        server_object(node)
    };
    Some(member(object(), "servers", single(server)))
}

/// The settings of a socks outbound.
pub fn socks_settings(node: &ProxyNode) -> (j: Option<Json>)
    ensures
        opt_doc(j) == Some(plain_settings_doc(node@)),
{
    plain_settings(node)
}

/// The settings of an http outbound.
pub fn http_settings(node: &ProxyNode) -> (j: Option<Json>)
    ensures
        opt_doc(j) == Some(plain_settings_doc(node@)),
{
    plain_settings(node)
}

/// The stream settings of an http outbound.
pub fn http_stream_settings(node: &ProxyNode) -> (j: Option<Json>)
    ensures
        opt_doc(j) == http_stream_doc(node@),
{
    if !node.tls {
        return None;
    }
    Some(
        member(
            member(object(), "security", text("tls")),
            "tlsSettings",
            member(object(), "serverName", text(node.server.as_str())),
        ),
    )
}

/// Whether an optional string holds the given text.
fn holds_text(o: &Option<String>, word: &str) -> (r: bool)
    ensures
        r == (opt_view(*o) == Some(word@)),
{
    match o {
        Some(s) => str_eq(s.as_str(), word),
        None => false,
    }
}

/// The stream settings of a vmess, vless or trojan outbound.
pub fn stream_settings(node: &ProxyNode) -> (j: Option<Json>)
    ensures
        opt_doc(j) == Some(stream_settings_doc(node@)),
{
    let mut settings = member(object(), "network", text(text_or(&node.network, "tcp")));
    let security: &str = match &node.security {
        Some(s) => s.as_str(),
        None => if node.tls {
            "tls"
        } else {
            "none"
        },
    };
    if str_eq(security, "tls") && node.tls {
        settings = member(settings, "security", text("tls"));
        if let Some(sni) = &node.sni {
            settings = member(
                settings,
                "tlsSettings",
                member(object(), "serverName", text(sni.as_str())),
            );
        }
    }
    if str_eq(security, "reality") {
        settings = member(settings, "security", text("reality"));
        settings = member(
            settings,
            "realitySettings",
            member(
                member(
                    member(
                        member(object(), "serverName", text(text_or(&node.sni, ""))),
                        "publicKey",
                        text(text_or(&node.reality_public_key, "")),
                    ),
                    "shortId",
                    text(text_or(&node.reality_short_id, "")),
                ),
                "fingerprint",
                text(text_or(&node.fingerprint, "chrome")),
            ),
        );
    }
    if holds_text(&node.network, "ws") {
        settings = member(
            settings,
            "wsSettings",
            member(
                member(object(), "path", text(text_or(&node.ws_path, "/"))),
                "headers",
                member(object(), "Host", text(text_or(&node.ws_host, ""))),
            ),
        );
    }
    if holds_text(&node.network, "grpc") {
        settings = member(
            settings,
            "grpcSettings",
            member(object(), "serviceName", text(text_or(&node.grpc_service, ""))),
        );
    }
    if holds_text(&node.network, "h2") {
        settings = member(
            settings,
            "httpSettings",
            member(
                member(object(), "path", text(text_or(&node.h2_path, "/"))),
                "host",
                single(text(text_or(&node.h2_host, ""))),
            ),
        );
    }
    Some(settings)
}

/// The outbound of a node.
pub fn node_to_outbound(node: &ProxyNode) -> (outbound: XrayOutbound)
    ensures
        outbound@ == outbound_of(node@),
{
    let protocol = node.protocol.as_str();
    let (settings, stream) = if str_eq(protocol, "vmess") {
        (vmess_settings(node), stream_settings(node))
    } else if str_eq(protocol, "vless") {
        (vless_settings(node), stream_settings(node))
    } else if str_eq(protocol, "trojan") {
        (trojan_settings(node), stream_settings(node))
    } else if str_eq(protocol, "shadowsocks") {
        (shadowsocks_settings(node), None)
    } else if str_eq(protocol, "socks") {
        (socks_settings(node), None)
    } else if str_eq(protocol, "http") {
        (http_settings(node), http_stream_settings(node))
    } else {
        (None, None)
    };
    XrayOutbound {
        tag: node.tag.clone(),
        protocol: node.protocol.clone(),
        settings,
        stream_settings: stream,
    }
}

/// What every inbound sniffs: HTTP, TLS and QUIC.
pub open spec fn sniffing_doc() -> JsonDoc {
    with_member(
        with_member(empty_object(), "enabled"@, JsonDoc::Flag(true)),
        "destOverride"@,
        text_list(seq!["http"@, "tls"@, "quic"@]),
    )
}

/// What every inbound sniffs.
pub fn json_sniffing() -> (j: Json)
    ensures
        j@ == sniffing_doc(),
{
    let mut names: Vec<String> = Vec::new();
    names.push("http".to_owned());
    names.push("tls".to_owned());
    names.push("quic".to_owned());
    proof {
        assert(strings_view(names@) =~= seq!["http"@, "tls"@, "quic"@]);
    }
    member(member(object(), "enabled", Json::Flag(true)), "destOverride", texts_list(&names))
}

/// An inbound that listens on every address and sniffs.
pub open spec fn inbound_of(
    tag: Seq<char>,
    port: u16,
    protocol: Seq<char>,
    settings: Option<JsonDoc>,
) -> InboundView {
    InboundView {
        tag,
        port,
        listen: "0.0.0.0"@,
        protocol,
        settings,
        sniffing: Some(sniffing_doc()),
    }
}

/// An inbound that listens on every address and sniffs.
fn inbound(tag: &str, port: u16, protocol: &str, settings: Option<Json>) -> (i: XrayInbound)
    ensures
        i@ == inbound_of(tag@, port, protocol@, opt_doc(settings)),
{
    XrayInbound {
        tag: tag.to_owned(),
        port,
        listen: "0.0.0.0".to_owned(),
        protocol: protocol.to_owned(),
        settings,
        sniffing: Some(json_sniffing()),
    }
}

/// The settings of a socks inbound: UDP is on.
pub open spec fn udp_doc() -> JsonDoc {
    with_member(empty_object(), "udp"@, JsonDoc::Flag(true))
}

/// The settings of the redirect inbound.
pub open spec fn redirect_doc() -> JsonDoc {
    with_member(
        with_member(empty_object(), "network"@, JsonDoc::Text("tcp,udp"@)),
        "followRedirect"@,
        JsonDoc::Flag(true),
    )
}

/// The settings of the transparent-proxy inbound.
pub open spec fn tproxy_doc() -> JsonDoc {
    with_member(redirect_doc(), "tproxy"@, JsonDoc::Text("tproxy"@))
}

/// The inbounds that every host gets: `http` on 7890, `socks` on 7891 and
/// `mixed` on 7893, the last two socks with UDP.
pub open spec fn common_inbounds() -> Seq<InboundView> {
    seq![
        inbound_of("http"@, 7890, "http"@, None),
        inbound_of("socks"@, 7891, "socks"@, Some(udp_doc())),
        inbound_of("mixed"@, 7893, "socks"@, Some(udp_doc())),
    ]
}

/// The inbounds of the document: the common three and, on a Linux host,
/// `redir` on 7892 and `tproxy` on 7895.
pub open spec fn inbounds_of(linux: bool) -> Seq<InboundView> {
    if linux {
        common_inbounds() + seq![
            inbound_of("redir"@, 7892, "dokodemo-door"@, Some(redirect_doc())),
            inbound_of("tproxy"@, 7895, "dokodemo-door"@, Some(tproxy_doc())),
        ]
    } else {
        common_inbounds()
    }
}

/// The inbounds of the document. `linux` tells whether the host runs Linux.
pub fn build_inbounds(linux: bool) -> (inbounds: Vec<XrayInbound>)
    ensures
        inbounds_view(inbounds@) == inbounds_of(linux),
        inbounds.len() == if linux {
            5int
        } else {
            3int
        },
{
    let mut inbounds: Vec<XrayInbound> = Vec::new();
    inbounds.push(inbound("http", 7890, "http", None));
    inbounds.push(inbound("socks", 7891, "socks", Some(member(object(), "udp", Json::Flag(true)))));
    inbounds.push(inbound("mixed", 7893, "socks", Some(member(object(), "udp", Json::Flag(true)))));
    proof {
        assert(inbounds_view(inbounds@) =~= common_inbounds());
    }
    if linux {
        let redirect = member(
            member(object(), "network", text("tcp,udp")),
            "followRedirect",
            Json::Flag(true),
        );
        inbounds.push(inbound("redir", 7892, "dokodemo-door", Some(redirect)));
        let tproxy = member(
            member(
                member(object(), "network", text("tcp,udp")),
                "followRedirect",
                Json::Flag(true),
            ),
            "tproxy",
            text("tproxy"),
        );
        inbounds.push(inbound("tproxy", 7895, "dokodemo-door", Some(tproxy)));
        proof {
            assert(inbounds_view(inbounds@) =~= inbounds_of(true));
        }
    }
    inbounds
}

/// A balancer that selects all the given tags.
pub open spec fn balancer_doc(
    tag: Seq<char>,
    tags: Seq<Seq<char>>,
    strategy: Seq<char>,
) -> JsonDoc {
    with_member(
        with_member(
            with_member(empty_object(), "tag"@, JsonDoc::Text(tag)),
            "selector"@,
            text_list(tags),
        ),
        "strategy"@,
        with_member(empty_object(), "type"@, JsonDoc::Text(strategy)),
    )
}

/// The balancers over the given tags: `best_ping` by least ping,
/// `load_balance` and `fallback` at random; none where there are no tags.
pub open spec fn balancers_of(tags: Seq<Seq<char>>) -> Seq<JsonDoc> {
    if tags.len() == 0 {
        seq![]
    } else {
        seq![
            balancer_doc("best_ping"@, tags, "leastPing"@),
            balancer_doc("load_balance"@, tags, "random"@),
            balancer_doc("fallback"@, tags, "random"@),
        ]
    }
}

/// A balancer that selects all the given tags.
fn balancer(tag: &str, tags: &Vec<String>, strategy: &str) -> (j: Json)
    ensures
        j@ == balancer_doc(tag@, strings_view(tags@), strategy@),
{
    member(
        member(member(object(), "tag", text(tag)), "selector", texts_list(tags)),
        "strategy",
        member(object(), "type", text(strategy)),
    )
}

/// The balancers over the given tags.
pub fn build_balancers(tags: &Vec<String>) -> (balancers: Vec<Json>)
    ensures
        docs_view(balancers@) == balancers_of(strings_view(tags@)),
{
    let mut balancers: Vec<Json> = Vec::new();
    if tags.len() == 0 {
        proof {
            assert(docs_view(balancers@) =~= balancers_of(strings_view(tags@)));
        }
        return balancers;
    }
    balancers.push(balancer("best_ping", tags, "leastPing"));
    balancers.push(balancer("load_balance", tags, "random"));
    balancers.push(balancer("fallback", tags, "random"));
    proof {
        assert(docs_view(balancers@) =~= balancers_of(strings_view(tags@)));
    }
    balancers
}

/// One resolver.
pub open spec fn resolver_doc(address: Seq<char>) -> JsonDoc {
    with_member(empty_object(), "address"@, JsonDoc::Text(address))
}

/// The resolvers of the document, in order.
pub open spec fn resolvers() -> Seq<JsonDoc> {
    seq![
        resolver_doc("8.8.8.8"@),
        resolver_doc("1.0.0.1"@),
        resolver_doc("https://dns.google/dns-query"@),
        resolver_doc("dhcp"@),
        resolver_doc("https://doh.pub/dns-query"@),
        resolver_doc("https://dns.alidns.com/dns-query"@),
        resolver_doc("1.1.1.1"@),
        resolver_doc("8.8.4.4"@),
        resolver_doc("https://cloudflare-dns.com/dns-query"@),
        resolver_doc("112.215.203.254"@),
    ]
}

/// The resolver section: public resolvers and `dhcp`, asked over IPv4.
pub open spec fn dns_of() -> DnsView {
    DnsView { servers: resolvers(), query_strategy: "UseIPv4"@ }
}

/// One resolver.
fn resolver(address: &str) -> (j: Json)
    ensures
        j@ == resolver_doc(address@),
{
    member(object(), "address", text(address))
}

/// The resolver section.
pub fn build_dns() -> (dns: XrayDns)
    ensures
        dns@ == dns_of(),
{
    let mut servers: Vec<Json> = Vec::new();
    servers.push(resolver("8.8.8.8"));
    servers.push(resolver("1.0.0.1"));
    servers.push(resolver("https://dns.google/dns-query"));
    servers.push(resolver("dhcp"));
    servers.push(resolver("https://doh.pub/dns-query"));
    servers.push(resolver("https://dns.alidns.com/dns-query"));
    servers.push(resolver("1.1.1.1"));
    servers.push(resolver("8.8.4.4"));
    servers.push(resolver("https://cloudflare-dns.com/dns-query"));
    servers.push(resolver("112.215.203.254"));
    proof {
        assert(docs_view(servers@) =~= resolvers());
    }
    XrayDns { servers, query_strategy: "UseIPv4".to_owned() }
}

/// The outbound that sends flows out directly.
pub open spec fn direct_outbound() -> OutboundView {
    OutboundView { tag: "direct"@, protocol: "freedom"@, settings: None, stream_settings: None }
}

/// The outbound that drops flows.
pub open spec fn reject_outbound() -> OutboundView {
    OutboundView { tag: "reject"@, protocol: "blackhole"@, settings: None, stream_settings: None }
}

/// The tags of nodes, in order.
pub open spec fn tags_of(nodes: Seq<NodeView>) -> Seq<Seq<char>> {
    Seq::new(nodes.len(), |i: int| nodes[i].tag)
}

/// The outbounds of the document: one for each node, in order, then
/// `direct`, then `reject`.
pub open spec fn outbounds_of(nodes: Seq<NodeView>) -> Seq<OutboundView> {
    Seq::new(nodes.len(), |i: int| outbound_of(nodes[i])) + seq![
        direct_outbound(),
        reject_outbound(),
    ]
}

/// The configuration document for the given nodes.
pub open spec fn config_of(nodes: Seq<NodeView>, linux: bool) -> ConfigView {
    ConfigView {
        loglevel: "warning"@,
        inbounds: inbounds_of(linux),
        outbounds: outbounds_of(nodes),
        routing: RoutingView {
            domain_strategy: "AsIs"@,
            rules: seq![],
            balancers: balancers_of(tags_of(nodes)),
        },
        dns: dns_of(),
    }
}

/// Builds the configuration document for the given nodes. `linux` tells
/// whether the host runs Linux, which gets two inbounds more.
pub fn build_xray_config(nodes: &[ProxyNode], linux: bool) -> (config: XrayConfig)
    ensures
        config@ == config_of(nodes_view(nodes@), linux),
{
    let ghost ns = nodes_view(nodes@);
    let mut outbounds: Vec<XrayOutbound> = Vec::new();
    let mut tags: Vec<String> = Vec::new();
    let mut i: usize = 0;
    while i < nodes.len()
        invariant
            i <= nodes.len(),
            ns == nodes_view(nodes@),
            outbounds.len() == i,
            tags.len() == i,
            forall|k: int| 0 <= k < i ==> (#[trigger] outbounds@[k])@ == outbound_of(ns[k]),
            forall|k: int| 0 <= k < i ==> (#[trigger] tags@[k])@ == ns[k].tag,
        decreases nodes.len() - i,
    {
        outbounds.push(node_to_outbound(&nodes[i]));
        tags.push(nodes[i].tag.clone());
        i += 1;
    }
    outbounds.push(
        XrayOutbound {
            tag: "direct".to_owned(),
            protocol: "freedom".to_owned(),
            settings: None,
            stream_settings: None,
        },
    );
    outbounds.push(
        XrayOutbound {
            tag: "reject".to_owned(),
            protocol: "blackhole".to_owned(),
            settings: None,
            stream_settings: None,
        },
    );
    let balancers = build_balancers(&tags);
    let rules: Vec<Json> = Vec::new();
    proof {
        assert(outbounds_view(outbounds@) =~= outbounds_of(ns));
        assert(strings_view(tags@) =~= tags_of(ns));
        assert(docs_view(rules@) =~= Seq::<JsonDoc>::empty());
    }
    XrayConfig {
        log: XrayLog { loglevel: "warning".to_owned() },
        inbounds: build_inbounds(linux),
        outbounds,
        routing: XrayRouting { domain_strategy: "AsIs".to_owned(), rules, balancers },
        dns: build_dns(),
    }
}

/// The outbounds of a document stand in a fixed order: the nodes' tags in
/// the order of the nodes, then `direct`, then `reject`.
pub proof fn lemma_outbound_order(nodes: Seq<NodeView>, linux: bool)
    ensures
        config_of(nodes, linux).outbounds.len() == nodes.len() + 2,
        forall|i: int|
            0 <= i < nodes.len() ==> (#[trigger] config_of(nodes, linux).outbounds[i]).tag
                == nodes[i].tag,
        config_of(nodes, linux).outbounds[nodes.len() as int].tag == "direct"@,
        config_of(nodes, linux).outbounds[nodes.len() as int + 1].tag == "reject"@,
{
}

/// An object with a member added where the value is there.
pub open spec fn with_present(doc: JsonDoc, key: Seq<char>, value: Option<JsonDoc>) -> JsonDoc {
    match value {
        Some(v) => with_member(doc, key, v),
        None => doc,
    }
}

/// An object with a list member added where the list is not empty.
pub open spec fn with_items(doc: JsonDoc, key: Seq<char>, items: Seq<JsonDoc>) -> JsonDoc {
    if items.len() == 0 {
        doc
    } else {
        with_member(doc, key, JsonDoc::List(items))
    }
}

/// An inbound as a JSON object: `tag`, `port`, `listen`, `protocol`, and
/// `settings` and `sniffing` where it has them.
pub open spec fn inbound_doc(i: InboundView) -> JsonDoc {
    with_present(
        with_present(
            with_member(
                with_member(
                    with_member(
                        with_member(empty_object(), "tag"@, JsonDoc::Text(i.tag)),
                        "port"@,
                        JsonDoc::Number(i.port as u64),
                    ),
                    "listen"@,
                    JsonDoc::Text(i.listen),
                ),
                "protocol"@,
                JsonDoc::Text(i.protocol),
            ),
            "settings"@,
            i.settings,
        ),
        "sniffing"@,
        i.sniffing,
    )
}

/// An outbound as a JSON object: `tag`, `protocol`, and `settings` and
/// `streamSettings` where it has them.
pub open spec fn outbound_doc(o: OutboundView) -> JsonDoc {
    with_present(
        with_present(
            with_member(
                with_member(empty_object(), "tag"@, JsonDoc::Text(o.tag)),
                "protocol"@,
                JsonDoc::Text(o.protocol),
            ),
            "settings"@,
            o.settings,
        ),
        "streamSettings"@,
        o.stream_settings,
    )
}

/// The routing section as a JSON object: `domainStrategy`, and `rules` and
/// `balancers` where they are not empty.
pub open spec fn routing_doc(r: RoutingView) -> JsonDoc {
    with_items(
        with_items(
            with_member(empty_object(), "domainStrategy"@, JsonDoc::Text(r.domain_strategy)),
            "rules"@,
            r.rules,
        ),
        "balancers"@,
        r.balancers,
    )
}

/// The resolver section as a JSON object: `servers` and `queryStrategy`.
pub open spec fn dns_doc(d: DnsView) -> JsonDoc {
    with_member(
        with_member(empty_object(), "servers"@, JsonDoc::List(d.servers)),
        "queryStrategy"@,
        JsonDoc::Text(d.query_strategy),
    )
}

/// The configuration as one JSON document with the sections `log`,
/// `inbounds`, `outbounds`, `routing` and `dns`.
pub open spec fn document_of(c: ConfigView) -> JsonDoc {
    with_member(
        with_member(
            with_member(
                with_member(
                    with_member(
                        empty_object(),
                        "log"@,
                        with_member(empty_object(), "loglevel"@, JsonDoc::Text(c.loglevel)),
                    ),
                    "inbounds"@,
                    JsonDoc::List(Seq::new(c.inbounds.len(), |i: int| inbound_doc(c.inbounds[i]))),
                ),
                "outbounds"@,
                JsonDoc::List(Seq::new(c.outbounds.len(), |i: int| outbound_doc(c.outbounds[i]))),
            ),
            "routing"@,
            routing_doc(c.routing),
        ),
        "dns"@,
        dns_doc(c.dns),
    )
}

/// Adds a copy of a value where it is there.
fn member_copy(obj: Json, key: &str, value: &Option<Json>) -> (j: Json)
    ensures
        j@ == with_present(obj@, key@, opt_doc(*value)),
{
    match value {
        Some(v) => member(obj, key, copy(v)),
        None => obj,
    }
}

/// Copies of the given values.
fn copies(items: &Vec<Json>) -> (out: Vec<Json>)
    ensures
        docs_view(out@) == docs_view(items@),
{
    let mut out: Vec<Json> = Vec::new();
    let mut i: usize = 0;
    while i < items.len()
        invariant
            i <= items.len(),
            out.len() == i,
            forall|k: int| 0 <= k < i ==> (#[trigger] out@[k])@ == items@[k]@,
        decreases items.len() - i,
    {
        out.push(copy(&items[i]));
        i += 1;
    }
    proof {
        assert(docs_view(out@) =~= docs_view(items@));
    }
    out
}

/// Adds copies of the given values as a list where there are any.
fn member_list(obj: Json, key: &str, items: &Vec<Json>) -> (j: Json)
    ensures
        j@ == with_items(obj@, key@, docs_view(items@)),
{
    if items.len() == 0 {
        obj
    } else {
        member(obj, key, list(copies(items)))
    }
}

/// An inbound as a JSON object.
pub fn inbound_document(inbound: &XrayInbound) -> (j: Json)
    ensures
        j@ == inbound_doc(inbound@),
{
    let base = member(
        member(
            member(
                member(object(), "tag", text(inbound.tag.as_str())),
                "port",
                Json::Number(inbound.port as u64),
            ),
            "listen",
            text(inbound.listen.as_str()),
        ),
        "protocol",
        text(inbound.protocol.as_str()),
    );
    member_copy(member_copy(base, "settings", &inbound.settings), "sniffing", &inbound.sniffing)
}

/// An outbound as a JSON object.
pub fn outbound_document(outbound: &XrayOutbound) -> (j: Json)
    ensures
        j@ == outbound_doc(outbound@),
{
    let base = member(
        member(object(), "tag", text(outbound.tag.as_str())),
        "protocol",
        text(outbound.protocol.as_str()),
    );
    member_copy(
        member_copy(base, "settings", &outbound.settings),
        "streamSettings",
        &outbound.stream_settings,
    )
}

/// The configuration as one JSON document, with the member names that the
/// forwarder reads.
pub fn config_document(config: &XrayConfig) -> (j: Json)
    ensures
        j@ == document_of(config@),
{
    let ghost c = config@;
    let mut inbounds: Vec<Json> = Vec::new();
    let mut i: usize = 0;
    while i < config.inbounds.len()
        invariant
            i <= config.inbounds.len(),
            c == config@,
            inbounds.len() == i,
            forall|k: int| 0 <= k < i ==> (#[trigger] inbounds@[k])@ == inbound_doc(c.inbounds[k]),
        decreases config.inbounds.len() - i,
    {
        inbounds.push(inbound_document(&config.inbounds[i]));
        i += 1;
    }
    let mut outbounds: Vec<Json> = Vec::new();
    let mut k: usize = 0;
    while k < config.outbounds.len()
        invariant
            k <= config.outbounds.len(),
            c == config@,
            outbounds.len() == k,
            forall|n: int|
                0 <= n < k ==> (#[trigger] outbounds@[n])@ == outbound_doc(c.outbounds[n]),
        decreases config.outbounds.len() - k,
    {
        outbounds.push(outbound_document(&config.outbounds[k]));
        k += 1;
    }
    proof {
        assert(docs_view(inbounds@) =~= Seq::new(
            c.inbounds.len(),
            |i: int| inbound_doc(c.inbounds[i]),
        ));
        assert(docs_view(outbounds@) =~= Seq::new(
            c.outbounds.len(),
            |i: int| outbound_doc(c.outbounds[i]),
        ));
    }
    let log = member(object(), "loglevel", text(config.log.loglevel.as_str()));
    let routing = member_list(
        member_list(
            member(object(), "domainStrategy", text(config.routing.domain_strategy.as_str())),
            "rules",
            &config.routing.rules,
        ),
        "balancers",
        &config.routing.balancers,
    );
    let dns = member(
        member(object(), "servers", list(copies(&config.dns.servers))),
        "queryStrategy",
        text(config.dns.query_strategy.as_str()),
    );
    member(
        member(
            member(
                member(member(object(), "log", log), "inbounds", list(inbounds)),
                "outbounds",
                list(outbounds),
            ),
            "routing",
            routing,
        ),
        "dns",
        dns,
    )
}

} // verus!
