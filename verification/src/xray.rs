//! The proxy share-link codec: from share links to validated proxy nodes.
//!
//! Links are taken apart by the `url`, `base64` and `serde_json` crates. What
//! those crates return is named in the contracts, not spelled out; what is
//! done with it is stated exactly.

use crate::numerals::{decimal, parse_u16, parsed_u16, push_decimal};
use crate::strings::{
    chars_of, lower_str, lowercase, opt_view, push_str, str_blank, str_eq, string_of, tagged,
};
use crate::text::{
    append, cut, has_char, is_blank, is_space, is_space_char, lemma_trimmed_blank, pieces, replace,
    replaced, split, split_once, strip_prefixes, texts, trim, trimmed, without_prefixes,
};
use base64::engine::general_purpose::{STANDARD, URL_SAFE_NO_PAD};
use base64::Engine;
use vstd::prelude::*;

pub use crate::outbound::{
    build_xray_config, XrayConfig, XrayDns, XrayInbound, XrayLog, XrayOutbound, XrayRouting,
};

verus! {

/// Why a list of share links was refused.
#[derive(Debug)]
pub enum XrayError {
    InvalidUrl(String),
    Decode(String),
    Parse(String),
}

/// A proxy endpoint read from a share link.
#[derive(Debug, Clone)]
pub struct ProxyNode {
    pub tag: String,
    pub protocol: String,
    pub server: String,
    pub port: u16,
    pub uuid: Option<String>,
    pub password: Option<String>,
    pub username: Option<String>,
    pub method: Option<String>,
    pub plugin: Option<String>,
    pub plugin_opts: Option<String>,
    pub security: Option<String>,
    pub grpc_service: Option<String>,
    pub h2_path: Option<String>,
    pub h2_host: Option<String>,
    pub reality_public_key: Option<String>,
    pub reality_short_id: Option<String>,
    pub fingerprint: Option<String>,
    pub network: Option<String>,
    pub tls: bool,
    pub sni: Option<String>,
    pub ws_path: Option<String>,
    pub ws_host: Option<String>,
}

/// The model of an `XrayError`.
pub enum XrayErrorView {
    InvalidUrl(Seq<char>),
    Decode(Seq<char>),
    Parse(Seq<char>),
}

/// The model of a `ProxyNode`.
pub struct NodeView {
    pub tag: Seq<char>,
    pub protocol: Seq<char>,
    pub server: Seq<char>,
    pub port: u16,
    pub uuid: Option<Seq<char>>,
    pub password: Option<Seq<char>>,
    pub username: Option<Seq<char>>,
    pub method: Option<Seq<char>>,
    pub plugin: Option<Seq<char>>,
    pub plugin_opts: Option<Seq<char>>,
    pub security: Option<Seq<char>>,
    pub grpc_service: Option<Seq<char>>,
    pub h2_path: Option<Seq<char>>,
    pub h2_host: Option<Seq<char>>,
    pub reality_public_key: Option<Seq<char>>,
    pub reality_short_id: Option<Seq<char>>,
    pub fingerprint: Option<Seq<char>>,
    pub network: Option<Seq<char>>,
    pub tls: bool,
    pub sni: Option<Seq<char>>,
    pub ws_path: Option<Seq<char>>,
    pub ws_host: Option<Seq<char>>,
}

impl View for XrayError {
    type V = XrayErrorView;

    open spec fn view(&self) -> XrayErrorView {
        match self {
            XrayError::InvalidUrl(m) => XrayErrorView::InvalidUrl(m@),
            XrayError::Decode(m) => XrayErrorView::Decode(m@),
            XrayError::Parse(m) => XrayErrorView::Parse(m@),
        }
    }
}

impl View for ProxyNode {
    type V = NodeView;

    open spec fn view(&self) -> NodeView {
        NodeView {
            tag: self.tag@,
            protocol: self.protocol@,
            server: self.server@,
            port: self.port,
            uuid: opt_view(self.uuid),
            password: opt_view(self.password),
            username: opt_view(self.username),
            method: opt_view(self.method),
            plugin: opt_view(self.plugin),
            plugin_opts: opt_view(self.plugin_opts),
            security: opt_view(self.security),
            grpc_service: opt_view(self.grpc_service),
            h2_path: opt_view(self.h2_path),
            h2_host: opt_view(self.h2_host),
            reality_public_key: opt_view(self.reality_public_key),
            reality_short_id: opt_view(self.reality_short_id),
            fingerprint: opt_view(self.fingerprint),
            network: opt_view(self.network),
            tls: self.tls,
            sni: opt_view(self.sni),
            ws_path: opt_view(self.ws_path),
            ws_host: opt_view(self.ws_host),
        }
    }
}

/// The models of a sequence of nodes.
pub open spec fn nodes_view(nodes: Seq<ProxyNode>) -> Seq<NodeView> {
    Seq::new(nodes.len(), |i: int| nodes[i]@)
}

/// The node of a protocol at a server, with nothing else set.
pub open spec fn bare_node(
    protocol: Seq<char>,
    server: Seq<char>,
    port: u16,
    tag: Seq<char>,
) -> NodeView {
    NodeView {
        tag,
        protocol,
        server,
        port,
        uuid: None,
        password: None,
        username: None,
        method: None,
        plugin: None,
        plugin_opts: None,
        security: None,
        grpc_service: None,
        h2_path: None,
        h2_host: None,
        reality_public_key: None,
        reality_short_id: None,
        fingerprint: None,
        network: None,
        tls: false,
        sni: None,
        ws_path: None,
        ws_host: None,
    }
}

/// The node of a protocol at a server, with nothing else set.
fn new_node(protocol: &str, server: String, port: u16, tag: String) -> (node: ProxyNode)
    ensures
        node@ == bare_node(protocol@, server@, port, tag@),
{
    ProxyNode {
        tag,
        protocol: protocol.to_owned(),
        server,
        port,
        uuid: None,
        password: None,
        username: None,
        method: None,
        plugin: None,
        plugin_opts: None,
        security: None,
        grpc_service: None,
        h2_path: None,
        h2_host: None,
        reality_public_key: None,
        reality_short_id: None,
        fingerprint: None,
        network: None,
        tls: false,
        sni: None,
        ws_path: None,
        ws_host: None,
    }
}

/// The text of an optional text; empty where there is none.
pub open spec fn or_empty(o: Option<Seq<char>>) -> Seq<char> {
    match o {
        Some(s) => s,
        None => Seq::empty(),
    }
}

// ---------------------------------------------------------------- validation

/// Whether `c` is a digit or one of `a` to `f`.
pub open spec fn is_lower_hex(c: char) -> bool {
    ('0' <= c <= '9') || ('a' <= c <= 'f')
}

/// Whether `c` is a digit or one of `a` to `f` in either case.
pub open spec fn is_hex(c: char) -> bool {
    ('0' <= c <= '9') || ('a' <= c <= 'f') || ('A' <= c <= 'F')
}

/// Whether `c` is an ASCII letter or digit, or one of `-`, `_`, `=`.
pub open spec fn is_key_char(c: char) -> bool {
    ('0' <= c <= '9') || ('a' <= c <= 'z') || ('A' <= c <= 'Z') || c == '-' || c == '_' || c == '='
}

/// Whether a text, in lower case, has the canonical form of a UUID: 36
/// characters, hyphens at 8, 13, 18 and 23, hexadecimal digits elsewhere.
pub open spec fn uuid_shaped(value: Seq<char>) -> bool {
    let l = lowercase(value);
    l.len() == 36 && forall|i: int|
        0 <= i < 36 ==> if i == 8 || i == 13 || i == 18 || i == 23 {
            #[trigger] l[i] == '-'
        } else {
            is_lower_hex(l[i])
        }
}

/// Whether a password is not empty and free of white space.
pub open spec fn password_shaped(value: Seq<char>) -> bool {
    trimmed(value).len() > 0 && forall|i: int|
        0 <= i < value.len() ==> !is_space(#[trigger] value[i])
}

/// Whether a text has the form of a reality public key: 43 to 64 characters,
/// each an ASCII letter, a digit or one of `-`, `_`, `=`.
pub open spec fn public_key_shaped(value: Seq<char>) -> bool {
    43 <= value.len() <= 64 && forall|i: int|
        0 <= i < value.len() ==> is_key_char(#[trigger] value[i])
}

/// Whether a text has the form of a reality short id: 8 or 16 hexadecimal
/// digits.
pub open spec fn short_id_shaped(value: Seq<char>) -> bool {
    (value.len() == 8 || value.len() == 16) && forall|i: int|
        0 <= i < value.len() ==> is_hex(#[trigger] value[i])
}

/// Tells whether `c` lies between `lo` and `hi`.
fn char_in(c: char, lo: char, hi: char) -> (r: bool)
    ensures
        r == (lo <= c <= hi),
{
    let n: u32 = c as u32;
    let a: u32 = lo as u32;
    let b: u32 = hi as u32;
    a <= n && n <= b
}

/// Whether a text has the canonical form of a UUID, in either case.
#[verifier::loop_isolation(false)]
pub fn valid_uuid(value: &str) -> (r: bool)
    ensures
        r == uuid_shaped(value@),
{
    let l = lower_str(value);
    if l.len() != 36 {
        return false;
    }
    let mut i: usize = 0;
    while i < 36
        invariant
            i <= 36,
            l.len() == 36,
            forall|j: int|
                0 <= j < i ==> if j == 8 || j == 13 || j == 18 || j == 23 {
                    #[trigger] l@[j] == '-'
                } else {
                    is_lower_hex(l@[j])
                },
        decreases 36 - i,
    {
        let c = l[i];
        if i == 8 || i == 13 || i == 18 || i == 23 {
            if c != '-' {
                return false;
            }
        } else if !(char_in(c, '0', '9') || char_in(c, 'a', 'f')) {
            return false;
        }
        i += 1;
    }
    true
}

/// Whether a password is not empty and free of white space.
#[verifier::loop_isolation(false)]
pub fn valid_password(value: &str) -> (r: bool)
    ensures
        r == password_shaped(value@),
{
    let chars = chars_of(value);
    if trim(chars.as_slice()).len() == 0 {
        return false;
    }
    let mut i: usize = 0;
    while i < chars.len()
        invariant
            i <= chars.len(),
            forall|j: int| 0 <= j < i ==> !is_space(#[trigger] chars@[j]),
        decreases chars.len() - i,
    {
        if is_space_char(chars[i]) {
            return false;
        }
        i += 1;
    }
    true
}

/// Whether a text has the form of a reality public key.
#[verifier::loop_isolation(false)]
pub fn valid_reality_public_key(value: &str) -> (r: bool)
    ensures
        r == public_key_shaped(value@),
{
    let chars = chars_of(value);
    if chars.len() < 43 || chars.len() > 64 {
        return false;
    }
    let mut i: usize = 0;
    while i < chars.len()
        invariant
            i <= chars.len(),
            forall|j: int| 0 <= j < i ==> is_key_char(#[trigger] chars@[j]),
        decreases chars.len() - i,
    {
        let c = chars[i];
        if !(char_in(c, '0', '9') || char_in(c, 'a', 'z') || char_in(c, 'A', 'Z') || c == '-' || c
            == '_' || c == '=') {
            return false;
        }
        i += 1;
    }
    true
}

/// Whether a text has the form of a reality short id.
#[verifier::loop_isolation(false)]
pub fn valid_reality_short_id(value: &str) -> (r: bool)
    ensures
        r == short_id_shaped(value@),
{
    let chars = chars_of(value);
    if !(chars.len() == 8 || chars.len() == 16) {
        return false;
    }
    let mut i: usize = 0;
    while i < chars.len()
        invariant
            i <= chars.len(),
            forall|j: int| 0 <= j < i ==> is_hex(#[trigger] chars@[j]),
        decreases chars.len() - i,
    {
        let c = chars[i];
        if !(char_in(c, '0', '9') || char_in(c, 'a', 'f') || char_in(c, 'A', 'F')) {
            return false;
        }
        i += 1;
    }
    true
}

/// What is wrong with the password of a node.
pub open spec fn password_fault(n: NodeView) -> Option<Seq<char>> {
    if or_empty(n.password).len() == 0 {
        Some("password is required"@)
    } else if !password_shaped(or_empty(n.password)) {
        Some("password format is invalid"@)
    } else {
        None
    }
}

/// What is wrong with what a node's protocol requires: a UUID for vmess and
/// vless, a password for trojan, a password and a method for shadowsocks,
/// nothing for socks and http. Other protocols are refused.
pub open spec fn protocol_fault(n: NodeView) -> Option<Seq<char>> {
    if n.protocol == "vmess"@ || n.protocol == "vless"@ {
        if or_empty(n.uuid).len() == 0 {
            Some("uuid is required"@)
        } else if !uuid_shaped(or_empty(n.uuid)) {
            Some("uuid format is invalid"@)
        } else {
            None
        }
    } else if n.protocol == "trojan"@ {
        password_fault(n)
    } else if n.protocol == "shadowsocks"@ {
        if password_fault(n) is Some {
            password_fault(n)
        } else if or_empty(n.method).len() == 0 {
            Some("method is required"@)
        } else {
            None
        }
    } else if n.protocol == "socks"@ || n.protocol == "http"@ {
        None
    } else {
        Some("unsupported protocol: "@ + n.protocol)
    }
}

/// What is wrong with the reality settings of a node whose security is
/// `reality`.
pub open spec fn reality_fault(n: NodeView) -> Option<Seq<char>> {
    if n.security == Some("reality"@) {
        if or_empty(n.reality_public_key).len() == 0 || or_empty(n.reality_short_id).len() == 0 {
            Some("reality requires pbk and sid"@)
        } else if !public_key_shaped(or_empty(n.reality_public_key)) {
            Some("reality pbk format is invalid"@)
        } else if !short_id_shaped(or_empty(n.reality_short_id)) {
            Some("reality sid length is invalid"@)
        } else {
            None
        }
    } else {
        None
    }
}

/// What is wrong with a node: the first fault among its server, its port,
/// what its protocol requires, and its reality settings.
pub open spec fn node_fault(n: NodeView) -> Option<Seq<char>> {
    if trimmed(n.server).len() == 0 {
        Some("server is empty"@)
    } else if n.port == 0 {
        Some("port must be > 0"@)
    } else if protocol_fault(n) is Some {
        protocol_fault(n)
    } else {
        reality_fault(n)
    }
}

/// A node is valid when it has a server and a port above zero, carries what
/// its protocol requires, not empty and in the right form, and, where its
/// security is `reality`, a public key and a short id in the right form.
pub open spec fn valid_node(n: NodeView) -> bool {
    &&& !is_blank(n.server)
    &&& n.port > 0
    &&& (n.protocol == "vmess"@ || n.protocol == "vless"@ ==> or_empty(n.uuid).len() > 0
        && uuid_shaped(or_empty(n.uuid)))
    &&& (n.protocol == "trojan"@ || n.protocol == "shadowsocks"@ ==> password_shaped(
        or_empty(n.password),
    ))
    &&& (n.protocol == "shadowsocks"@ ==> or_empty(n.method).len() > 0)
    &&& (n.protocol == "vmess"@ || n.protocol == "vless"@ || n.protocol == "trojan"@ || n.protocol
        == "shadowsocks"@ || n.protocol == "socks"@ || n.protocol == "http"@)
    &&& (n.security == Some("reality"@) ==> public_key_shaped(or_empty(n.reality_public_key))
        && short_id_shaped(or_empty(n.reality_short_id)))
}

/// The six protocol names are different texts, and an empty text has none of
/// the required forms.
pub proof fn lemma_shapes()
    ensures
        "vmess"@ != "vless"@,
        "vmess"@ != "trojan"@,
        "vmess"@ != "shadowsocks"@,
        "vless"@ != "trojan"@,
        "vless"@ != "shadowsocks"@,
        "trojan"@ != "shadowsocks"@,
        !password_shaped(Seq::empty()),
        !public_key_shaped(Seq::empty()),
        !short_id_shaped(Seq::empty()),
{
    reveal_strlit("vmess");
    reveal_strlit("vless");
    reveal_strlit("trojan");
    reveal_strlit("shadowsocks");
    assert("vmess"@[1] != "vless"@[1]);
    assert("vmess"@.len() == 5 && "vless"@.len() == 5);
    assert("trojan"@.len() == 6);
    assert("shadowsocks"@.len() == 11);
}

/// A node has no fault exactly when it is valid.
pub proof fn lemma_node_fault(n: NodeView)
    ensures
        node_fault(n) is None <==> valid_node(n),
{
    lemma_shapes();
    lemma_trimmed_blank(n.server);
    assert(or_empty(n.password).len() == 0 ==> or_empty(n.password) =~= Seq::empty());
    assert(or_empty(n.reality_public_key).len() == 0 ==> or_empty(n.reality_public_key)
        =~= Seq::empty());
    assert(or_empty(n.reality_short_id).len() == 0 ==> or_empty(n.reality_short_id)
        =~= Seq::empty());
}

/// The text of an optional string; empty where there is none.
fn text_or_empty(o: &Option<String>) -> (text: &str)
    ensures
        text@ == or_empty(opt_view(*o)),
{
    match o {
        Some(s) => s.as_str(),
        None => {
            let empty: &'static str = "";
            proof {
                reveal_strlit("");
                assert(empty@ =~= Seq::<char>::empty());
            }
            empty
        },
    }
}

/// What a node validator returns for a finding: `Ok` for none, else the
/// finding.
pub open spec fn found(r: Result<(), String>, fault: Option<Seq<char>>) -> bool {
    match r {
        Ok(_) => fault is None,
        Err(message) => fault == Some(message@),
    }
}

/// Checks the password of a node.
fn validate_password(node: &ProxyNode) -> (r: Result<(), String>)
    ensures
        found(r, password_fault(node@)),
{
    let password = text_or_empty(&node.password);
    if chars_of(password).len() == 0 {
        return Err("password is required".to_owned());
    }
    if !valid_password(password) {
        return Err("password format is invalid".to_owned());
    }
    Ok(())
}

/// Checks that a node carries what its protocol requires.
fn validate_protocol(node: &ProxyNode) -> (r: Result<(), String>)
    ensures
        found(r, protocol_fault(node@)),
{
    let protocol = node.protocol.as_str();
    if str_eq(protocol, "vmess") || str_eq(protocol, "vless") {
        let uuid = text_or_empty(&node.uuid);
        if chars_of(uuid).len() == 0 {
            return Err("uuid is required".to_owned());
        }
        if !valid_uuid(uuid) {
            return Err("uuid format is invalid".to_owned());
        }
        Ok(())
    } else if str_eq(protocol, "trojan") {
        validate_password(node)
    } else if str_eq(protocol, "shadowsocks") {
        match validate_password(node) {
            Ok(_) => {},
            Err(message) => {
                return Err(message);
            },
        }
        if chars_of(text_or_empty(&node.method)).len() == 0 {
            return Err("method is required".to_owned());
        }
        Ok(())
    } else if str_eq(protocol, "socks") || str_eq(protocol, "http") {
        Ok(())
    } else {
        let name = chars_of(protocol);
        Err(tagged("unsupported protocol: ", name.as_slice()))
    }
}

/// Checks the reality settings of a node.
fn validate_reality(node: &ProxyNode) -> (r: Result<(), String>)
    ensures
        found(r, reality_fault(node@)),
{
    let is_reality = match &node.security {
        Some(s) => str_eq(s.as_str(), "reality"),
        None => false,
    };
    if !is_reality {
        return Ok(());
    }
    let pbk = text_or_empty(&node.reality_public_key);
    let sid = text_or_empty(&node.reality_short_id);
    if chars_of(pbk).len() == 0 || chars_of(sid).len() == 0 {
        return Err("reality requires pbk and sid".to_owned());
    }
    if !valid_reality_public_key(pbk) {
        return Err("reality pbk format is invalid".to_owned());
    }
    if !valid_reality_short_id(sid) {
        return Err("reality sid length is invalid".to_owned());
    }
    Ok(())
}

/// Checks a node. The error is the first fault found.
pub fn validate_node(node: &ProxyNode) -> (r: Result<(), String>)
    ensures
        found(r, node_fault(node@)),
        r is Ok <==> valid_node(node@),
{
    proof {
        lemma_node_fault(node@);
    }
    if str_blank(node.server.as_str()) {
        return Err("server is empty".to_owned());
    }
    if node.port == 0 {
        return Err("port must be > 0".to_owned());
    }
    match validate_protocol(node) {
        Ok(_) => {},
        Err(message) => {
            return Err(message);
        },
    }
    validate_reality(node)
}

// ------------------------------------------------------------- outside calls

/// The parts of a URL that the codec reads.
#[derive(Debug)]
pub struct UrlParts {
    pub scheme: String,
    pub username: String,
    pub password: Option<String>,
    pub host: Option<String>,
    pub port: Option<u16>,
    pub fragment: Option<String>,
    pub query: Vec<(String, String)>,
}

/// The model of `UrlParts`.
pub struct UrlView {
    pub scheme: Seq<char>,
    pub username: Seq<char>,
    pub password: Option<Seq<char>>,
    pub host: Option<Seq<char>>,
    pub port: Option<u16>,
    pub fragment: Option<Seq<char>>,
    pub query: Seq<(Seq<char>, Seq<char>)>,
}

/// The texts of a sequence of key-value pairs.
pub open spec fn pairs_view(pairs: Seq<(String, String)>) -> Seq<(Seq<char>, Seq<char>)> {
    Seq::new(pairs.len(), |i: int| (pairs[i].0@, pairs[i].1@))
}

impl View for UrlParts {
    type V = UrlView;

    open spec fn view(&self) -> UrlView {
        UrlView {
            scheme: self.scheme@,
            username: self.username@,
            password: opt_view(self.password),
            host: opt_view(self.host),
            port: self.port,
            fragment: opt_view(self.fragment),
            query: pairs_view(self.query@),
        }
    }
}

/// The message with which `Url::parse` refuses a text, if it refuses it.
pub uninterp spec fn url_fault(raw: Seq<char>) -> Option<Seq<char>>;

/// What `Url::scheme` gives for the URL that a text writes.
pub uninterp spec fn url_scheme(raw: Seq<char>) -> Seq<char>;

/// What `Url::username` gives for the URL that a text writes.
pub uninterp spec fn url_username(raw: Seq<char>) -> Seq<char>;

/// What `Url::password` gives for the URL that a text writes.
pub uninterp spec fn url_password(raw: Seq<char>) -> Option<Seq<char>>;

/// What `Url::host_str` gives for the URL that a text writes.
pub uninterp spec fn url_host(raw: Seq<char>) -> Option<Seq<char>>;

/// What `Url::port` gives for the URL that a text writes.
pub uninterp spec fn url_port(raw: Seq<char>) -> Option<u16>;

/// What `Url::fragment` gives for the URL that a text writes.
pub uninterp spec fn url_fragment(raw: Seq<char>) -> Option<Seq<char>>;

/// The pairs that `Url::query_pairs` yields for the URL that a text writes,
/// in order.
pub uninterp spec fn url_query(raw: Seq<char>) -> Seq<(Seq<char>, Seq<char>)>;

/// What reading a text as a URL gives: the message of the refusal, or the
/// parts of the URL.
pub open spec fn url_read(raw: Seq<char>) -> Result<UrlView, Seq<char>> {
    match url_fault(raw) {
        Some(message) => Err(message),
        None => Ok(
            UrlView {
                scheme: url_scheme(raw),
                username: url_username(raw),
                password: url_password(raw),
                host: url_host(raw),
                port: url_port(raw),
                fragment: url_fragment(raw),
                query: url_query(raw),
            },
        ),
    }
}

/// Reads a text as a URL with `Url::parse` of the `url` crate and copies out
/// what `scheme`, `username`, `password`, `host_str`, `port`, `fragment` and
/// `query_pairs` give for it. Each of them is a function of the text alone;
/// the contract names the results and says nothing of what they are.
#[verifier::external_body]
fn read_url(raw: &str) -> (r: Result<UrlParts, String>)
    ensures
        match r {
            Ok(parts) => url_fault(raw@) is None && parts@ == (UrlView {
                scheme: url_scheme(raw@),
                username: url_username(raw@),
                password: url_password(raw@),
                host: url_host(raw@),
                port: url_port(raw@),
                fragment: url_fragment(raw@),
                query: url_query(raw@),
            }),
            Err(message) => url_fault(raw@) == Some(message@),
        },
{
    let u = url::Url::parse(raw).map_err(|e| e.to_string())?;
    Ok(
        UrlParts {
            scheme: u.scheme().to_string(),
            username: u.username().to_string(),
            password: u.password().map(str::to_string),
            host: u.host_str().map(str::to_string),
            port: u.port(),
            fragment: u.fragment().map(str::to_string),
            query: u.query_pairs().map(|(k, v)| (k.into_owned(), v.into_owned())).collect(),
        },
    )
}

/// What the standard base64 engine, which asks for padding, decodes a text
/// to, or the message of its refusal.
pub uninterp spec fn base64_standard(text: Seq<char>) -> Result<Seq<u8>, Seq<char>>;

/// What the URL-safe base64 engine, which refuses padding, decodes a text
/// to, or the message of its refusal.
pub uninterp spec fn base64_url_safe(text: Seq<char>) -> Result<Seq<u8>, Seq<char>>;

/// `Engine::decode` of the `base64` crate on its `STANDARD` engine. The
/// result is a function of the text alone, called `base64_standard` in
/// contracts.
#[verifier::external_body]
fn decode_standard(value: &str) -> (r: Result<Vec<u8>, String>)
    ensures
        match r {
            Ok(bytes) => base64_standard(value@) == Ok::<Seq<u8>, Seq<char>>(bytes@),
            Err(message) => base64_standard(value@) == Err::<Seq<u8>, Seq<char>>(message@),
        },
{
    STANDARD.decode(value).map_err(|e| e.to_string())
}

/// `Engine::decode` of the `base64` crate on its `URL_SAFE_NO_PAD` engine.
/// The result is a function of the text alone, called `base64_url_safe` in
/// contracts.
#[verifier::external_body]
fn decode_url_safe(value: &str) -> (r: Result<Vec<u8>, String>)
    ensures
        match r {
            Ok(bytes) => base64_url_safe(value@) == Ok::<Seq<u8>, Seq<char>>(bytes@),
            Err(message) => base64_url_safe(value@) == Err::<Seq<u8>, Seq<char>>(message@),
        },
{
    URL_SAFE_NO_PAD.decode(value).map_err(|e| e.to_string())
}

/// What a text decodes to in base64: by the standard engine, or, where that
/// one refuses, by the URL-safe one.
pub open spec fn base64_either(text: Seq<char>) -> Result<Seq<u8>, Seq<char>> {
    match base64_standard(text) {
        Ok(bytes) => Ok(bytes),
        Err(_) => base64_url_safe(text),
    }
}

/// Decodes base64, standard or URL-safe without padding.
pub fn decode_base64(value: &str) -> (r: Result<Vec<u8>, String>)
    ensures
        match r {
            Ok(bytes) => base64_either(value@) == Ok::<Seq<u8>, Seq<char>>(bytes@),
            Err(message) => base64_either(value@) == Err::<Seq<u8>, Seq<char>>(message@),
        },
{
    match decode_standard(value) {
        Ok(bytes) => Ok(bytes),
        Err(_) => decode_url_safe(value),
    }
}

/// The text that `String::from_utf8_lossy` makes of bytes.
pub uninterp spec fn utf8_lossy(bytes: Seq<u8>) -> Seq<char>;

/// `String::from_utf8_lossy` of the standard library, as an owned string.
/// The result is a function of the bytes alone, called `utf8_lossy` in
/// contracts.
#[verifier::external_body]
fn lossy_text(bytes: &[u8]) -> (text: String)
    ensures
        text@ == utf8_lossy(bytes@),
{
    String::from_utf8_lossy(bytes).into_owned()
}

/// One member of a JSON object, as far as the codec reads it.
#[derive(Debug)]
pub enum JsonField {
    Null,
    Text(String),
    Other,
}

/// The model of a `JsonField`.
pub enum FieldView {
    Null,
    Text(Seq<char>),
    Other,
}

impl View for JsonField {
    type V = FieldView;

    open spec fn view(&self) -> FieldView {
        match self {
            JsonField::Null => FieldView::Null,
            JsonField::Text(s) => FieldView::Text(s@),
            JsonField::Other => FieldView::Other,
        }
    }
}

/// The models of the members of an object.
pub open spec fn fields_view(fields: Seq<(String, JsonField)>) -> Seq<(Seq<char>, FieldView)> {
    Seq::new(fields.len(), |i: int| (fields[i].0@, fields[i].1@))
}

/// The members of the JSON object that bytes write, or the message with
/// which `serde_json` refuses them.
pub uninterp spec fn json_object(bytes: Seq<u8>) -> Result<Seq<(Seq<char>, FieldView)>, Seq<char>>;

/// Reads bytes as a JSON object with `serde_json::from_slice` and copies out
/// its members: a string with its text, null, and anything else as `Other`.
/// The result is a function of the bytes alone, called `json_object` in
/// contracts.
#[verifier::external_body]
fn read_json_object(bytes: &[u8]) -> (r: Result<Vec<(String, JsonField)>, String>)
    ensures
        match r {
            Ok(fields) => json_object(bytes@) == Ok::<Seq<(Seq<char>, FieldView)>, Seq<char>>(
                fields_view(fields@),
            ),
            Err(message) => json_object(bytes@) == Err::<Seq<(Seq<char>, FieldView)>, Seq<char>>(
                message@,
            ),
        },
{
    let map: serde_json::Map<String, serde_json::Value> = serde_json::from_slice(bytes).map_err(
        |e| e.to_string(),
    )?;
    Ok(map.into_iter().map(|(k, v)| (k, match v {
        serde_json::Value::Null => JsonField::Null,
        serde_json::Value::String(s) => JsonField::Text(s),
        serde_json::Value::Bool(_) => JsonField::Other,
        serde_json::Value::Number(_) => JsonField::Other,
        serde_json::Value::Array(_) => JsonField::Other,
        serde_json::Value::Object(_) => JsonField::Other,
    })).collect())
}

// ------------------------------------------------------------ URL-shaped links

/// The value of the last pair with the given key among the first `k` pairs.
pub open spec fn last_value(query: Seq<(Seq<char>, Seq<char>)>, key: Seq<char>, k: int) -> Option<
    Seq<char>,
>
    decreases k,
{
    if k <= 0 {
        None
    } else if query[k - 1].0 == key {
        Some(query[k - 1].1)
    } else {
        last_value(query, key, k - 1)
    }
}

/// The value that a query gives to a key: that of the last pair with the key.
pub open spec fn value_of(query: Seq<(Seq<char>, Seq<char>)>, key: Seq<char>) -> Option<Seq<char>> {
    last_value(query, key, query.len() as int)
}

/// The value that a query gives to a key.
#[verifier::loop_isolation(false)]
pub fn query_get(query: &Vec<(String, String)>, key: &str) -> (r: Option<String>)
    ensures
        opt_view(r) == value_of(pairs_view(query@), key@),
{
    let ghost q = pairs_view(query@);
    let mut k: usize = query.len();
    while k > 0
        invariant
            k <= query.len(),
            last_value(q, key@, query.len() as int) == last_value(q, key@, k as int),
        decreases k,
    {
        proof {
            assert(q[k - 1] == (query@[k - 1].0@, query@[k - 1].1@));
        }
        if str_eq(query[k - 1].0.as_str(), key) {
            return Some(query[k - 1].1.clone());
        }
        k -= 1;
    }
    None
}

/// A node with the transport settings that a query gives: `type` is the
/// network, `host` the host of both the websocket and the HTTP/2 transport,
/// `path` the path of both, `serviceName` the gRPC service, `pbk`, `sid` and
/// `fp` the reality key, short id and fingerprint.
pub open spec fn stream_node(base: NodeView, q: Seq<(Seq<char>, Seq<char>)>) -> NodeView {
    NodeView {
        network: value_of(q, "type"@),
        security: value_of(q, "security"@),
        sni: value_of(q, "sni"@),
        ws_host: value_of(q, "host"@),
        h2_host: value_of(q, "host"@),
        ws_path: value_of(q, "path"@),
        h2_path: value_of(q, "path"@),
        grpc_service: value_of(q, "serviceName"@),
        reality_public_key: value_of(q, "pbk"@),
        reality_short_id: value_of(q, "sid"@),
        fingerprint: value_of(q, "fp"@),
        ..base
    }
}

/// Gives a node the transport settings of a query.
fn with_stream(base: ProxyNode, query: &Vec<(String, String)>) -> (node: ProxyNode)
    ensures
        node@ == stream_node(base@, pairs_view(query@)),
{
    ProxyNode {
        network: query_get(query, "type"),
        security: query_get(query, "security"),
        sni: query_get(query, "sni"),
        ws_host: query_get(query, "host"),
        h2_host: query_get(query, "host"),
        ws_path: query_get(query, "path"),
        h2_path: query_get(query, "path"),
        grpc_service: query_get(query, "serviceName"),
        reality_public_key: query_get(query, "pbk"),
        reality_short_id: query_get(query, "sid"),
        fingerprint: query_get(query, "fp"),
        ..base
    }
}

/// Whether a security setting, in lower case, is `tls`; an absent one counts
/// as `fallback`.
pub open spec fn is_tls(security: Option<Seq<char>>, fallback: Seq<char>) -> bool {
    lowercase(
        match security {
            Some(s) => s,
            None => fallback,
        },
    ) == "tls"@
}

/// Whether a security setting, in lower case, is `tls`.
fn tls_flag(security: &Option<String>, fallback: &str) -> (r: bool)
    ensures
        r == is_tls(opt_view(*security), fallback@),
{
    let text = match security {
        Some(s) => s.as_str(),
        None => fallback,
    };
    let folded = lower_str(text);
    crate::strings::is_word(folded.as_slice(), "tls")
}

/// The host and port of a URL, or the error that names the part that is
/// missing; `what` names the kind of link in the message.
pub open spec fn endpoint_fault(u: UrlView, what: Seq<char>) -> Option<Seq<char>> {
    if u.host is None {
        Some(what + " missing host"@)
    } else if u.port is None {
        Some(what + " missing port"@)
    } else {
        None
    }
}

/// The node of a vless link, from the parts of its URL: the user name is
/// the UUID, and `tls` is on where the security is `tls`.
pub open spec fn vless_from(u: UrlView) -> Result<NodeView, XrayErrorView> {
    if trimmed(u.username).len() == 0 {
        Err(XrayErrorView::Parse("vless missing uuid"@))
    } else if endpoint_fault(u, "vless"@) is Some {
        Err(XrayErrorView::Parse(endpoint_fault(u, "vless"@)->0))
    } else {
        let base = stream_node(
            bare_node("vless"@, u.host->0, u.port->0, or_empty(u.fragment)),
            u.query,
        );
        Ok(
            NodeView {
                uuid: Some(u.username),
                tls: is_tls(value_of(u.query, "security"@), Seq::empty()),
                ..base
            },
        )
    }
}

/// The node of a trojan link, from the parts of its URL: the user name is
/// the password, and `tls` is on where the security is `tls` or absent.
pub open spec fn trojan_from(u: UrlView) -> Result<NodeView, XrayErrorView> {
    if trimmed(u.username).len() == 0 {
        Err(XrayErrorView::Parse("trojan missing password"@))
    } else if endpoint_fault(u, "trojan"@) is Some {
        Err(XrayErrorView::Parse(endpoint_fault(u, "trojan"@)->0))
    } else {
        let base = stream_node(
            bare_node("trojan"@, u.host->0, u.port->0, or_empty(u.fragment)),
            u.query,
        );
        Ok(
            NodeView {
                password: Some(u.username),
                tls: is_tls(value_of(u.query, "security"@), "tls"@),
                ..base
            },
        )
    }
}

/// A text as an option: none where it is empty.
pub open spec fn non_empty(text: Seq<char>) -> Option<Seq<char>> {
    if text.len() == 0 {
        None
    } else {
        Some(text)
    }
}

/// The node of a socks link, from the parts of its URL; user name and
/// password are kept where they are not empty.
pub open spec fn socks_from(u: UrlView) -> Result<NodeView, XrayErrorView> {
    if endpoint_fault(u, "socks"@) is Some {
        Err(XrayErrorView::Parse(endpoint_fault(u, "socks"@)->0))
    } else {
        Ok(
            NodeView {
                username: non_empty(u.username),
                password: non_empty(or_empty(u.password)),
                ..bare_node("socks"@, u.host->0, u.port->0, or_empty(u.fragment))
            },
        )
    }
}

/// The node of an http or https link, from the parts of its URL; `https`
/// turns `tls` on and sets the security to `tls`.
pub open spec fn http_from(u: UrlView) -> Result<NodeView, XrayErrorView> {
    if endpoint_fault(u, "http proxy"@) is Some {
        Err(XrayErrorView::Parse(endpoint_fault(u, "http proxy"@)->0))
    } else {
        Ok(
            NodeView {
                username: non_empty(u.username),
                password: non_empty(or_empty(u.password)),
                security: if u.scheme == "https"@ {
                    Some("tls"@)
                } else {
                    None
                },
                tls: u.scheme == "https"@,
                ..bare_node("http"@, u.host->0, u.port->0, or_empty(u.fragment))
            },
        )
    }
}

/// What a parser returns for the node that a link means.
pub open spec fn yields(
    r: Result<ProxyNode, XrayError>,
    meant: Result<NodeView, XrayErrorView>,
) -> bool {
    match r {
        Ok(node) => meant == Ok::<NodeView, XrayErrorView>(node@),
        Err(e) => meant == Err::<NodeView, XrayErrorView>(e@),
    }
}

/// A copy of an optional string.
fn clone_opt(o: &Option<String>) -> (r: Option<String>)
    ensures
        r == *o,
{
    match o {
        Some(s) => Some(s.clone()),
        None => None,
    }
}

/// The bare node at the host and port of a URL, tagged with its fragment,
/// or the error that names the part that is missing.
fn endpoint_node(parts: &UrlParts, protocol: &str, what: &str) -> (r: Result<ProxyNode, XrayError>)
    ensures
        match r {
            Ok(node) => endpoint_fault(parts@, what@) is None && node@ == bare_node(
                protocol@,
                parts@.host->0,
                parts@.port->0,
                or_empty(parts@.fragment),
            ),
            Err(e) => endpoint_fault(parts@, what@) is Some && e@ == XrayErrorView::Parse(
                endpoint_fault(parts@, what@)->0,
            ),
        },
{
    let host = match &parts.host {
        Some(h) => h.clone(),
        None => {
            return Err(XrayError::Parse(crate::strings::join2(what, " missing host")));
        },
    };
    let port = match parts.port {
        Some(p) => p,
        None => {
            return Err(XrayError::Parse(crate::strings::join2(what, " missing port")));
        },
    };
    let tag = text_or_empty(&parts.fragment).to_owned();
    Ok(new_node(protocol, host, port, tag))
}

/// The node of a vless link, from the parts of its URL.
pub fn vless_node(parts: &UrlParts) -> (r: Result<ProxyNode, XrayError>)
    ensures
        yields(r, vless_from(parts@)),
{
    if str_blank(parts.username.as_str()) {
        return Err(XrayError::Parse("vless missing uuid".to_owned()));
    }
    let bare = match endpoint_node(parts, "vless", "vless") {
        Ok(node) => node,
        Err(e) => {
            return Err(e);
        },
    };
    let base = with_stream(bare, &parts.query);
    let tls = tls_flag(&base.security, "");
    proof {
        reveal_strlit("");
        assert(""@ =~= Seq::<char>::empty());
    }
    Ok(ProxyNode { uuid: Some(parts.username.clone()), tls, ..base })
}

/// The node of a trojan link, from the parts of its URL.
pub fn trojan_node(parts: &UrlParts) -> (r: Result<ProxyNode, XrayError>)
    ensures
        yields(r, trojan_from(parts@)),
{
    if str_blank(parts.username.as_str()) {
        return Err(XrayError::Parse("trojan missing password".to_owned()));
    }
    let bare = match endpoint_node(parts, "trojan", "trojan") {
        Ok(node) => node,
        Err(e) => {
            return Err(e);
        },
    };
    let base = with_stream(bare, &parts.query);
    let tls = tls_flag(&base.security, "tls");
    Ok(ProxyNode { password: Some(parts.username.clone()), tls, ..base })
}

/// A copy of a text as an option: none where it is empty.
fn keep_non_empty(text: &str) -> (r: Option<String>)
    ensures
        opt_view(r) == non_empty(text@),
{
    if chars_of(text).len() == 0 {
        None
    } else {
        Some(text.to_owned())
    }
}

/// The node of a socks link, from the parts of its URL.
pub fn socks_node(parts: &UrlParts) -> (r: Result<ProxyNode, XrayError>)
    ensures
        yields(r, socks_from(parts@)),
{
    let bare = match endpoint_node(parts, "socks", "socks") {
        Ok(node) => node,
        Err(e) => {
            return Err(e);
        },
    };
    Ok(
        ProxyNode {
            username: keep_non_empty(parts.username.as_str()),
            password: keep_non_empty(text_or_empty(&parts.password)),
            ..bare
        },
    )
}

/// The node of an http or https link, from the parts of its URL.
pub fn http_node(parts: &UrlParts) -> (r: Result<ProxyNode, XrayError>)
    ensures
        yields(r, http_from(parts@)),
{
    let bare = match endpoint_node(parts, "http", "http proxy") {
        Ok(node) => node,
        Err(e) => {
            return Err(e);
        },
    };
    let secure = str_eq(parts.scheme.as_str(), "https");
    Ok(
        ProxyNode {
            username: keep_non_empty(parts.username.as_str()),
            password: keep_non_empty(text_or_empty(&parts.password)),
            security: if secure {
                Some("tls".to_owned())
            } else {
                None
            },
            tls: secure,
            ..bare
        },
    )
}

/// What a link that is read as a URL means: the refusal of the URL as a
/// `Parse` error, or what the parts of the URL mean.
pub open spec fn through_url(
    raw: Seq<char>,
    from: spec_fn(UrlView) -> Result<NodeView, XrayErrorView>,
) -> Result<NodeView, XrayErrorView> {
    match url_read(raw) {
        Err(message) => Err(XrayErrorView::Parse(message)),
        Ok(u) => from(u),
    }
}

/// Reads a vless link.
pub fn parse_vless(raw: &str) -> (r: Result<ProxyNode, XrayError>)
    ensures
        yields(r, through_url(raw@, |u: UrlView| vless_from(u))),
{
    match read_url(raw) {
        Ok(parts) => vless_node(&parts),
        Err(message) => Err(XrayError::Parse(message)),
    }
}

/// Reads a trojan link.
pub fn parse_trojan(raw: &str) -> (r: Result<ProxyNode, XrayError>)
    ensures
        yields(r, through_url(raw@, |u: UrlView| trojan_from(u))),
{
    match read_url(raw) {
        Ok(parts) => trojan_node(&parts),
        Err(message) => Err(XrayError::Parse(message)),
    }
}

/// Reads a socks link.
pub fn parse_socks(raw: &str) -> (r: Result<ProxyNode, XrayError>)
    ensures
        yields(r, through_url(raw@, |u: UrlView| socks_from(u))),
{
    match read_url(raw) {
        Ok(parts) => socks_node(&parts),
        Err(message) => Err(XrayError::Parse(message)),
    }
}

/// Reads an http or https link.
pub fn parse_http_proxy(raw: &str) -> (r: Result<ProxyNode, XrayError>)
    ensures
        yields(r, through_url(raw@, |u: UrlView| http_from(u))),
{
    match read_url(raw) {
        Ok(parts) => http_node(&parts),
        Err(message) => Err(XrayError::Parse(message)),
    }
}

// ------------------------------------------------------------------- vmess

/// The member with the given key among the first `k` members of an object.
pub open spec fn last_field(fields: Seq<(Seq<char>, FieldView)>, key: Seq<char>, k: int) -> Option<
    FieldView,
>
    decreases k,
{
    if k <= 0 {
        None
    } else if fields[k - 1].0 == key {
        Some(fields[k - 1].1)
    } else {
        last_field(fields, key, k - 1)
    }
}

/// The member of an object with the given key.
pub open spec fn field_of(fields: Seq<(Seq<char>, FieldView)>, key: Seq<char>) -> Option<
    FieldView,
> {
    last_field(fields, key, fields.len() as int)
}

/// What is wrong with a member that must be a string.
pub open spec fn required_fault(fields: Seq<(Seq<char>, FieldView)>, key: Seq<char>) -> Option<
    Seq<char>,
> {
    match field_of(fields, key) {
        Some(FieldView::Text(_)) => None,
        Some(_) => Some("vmess field is not a string: "@ + key),
        None => Some("vmess field is missing: "@ + key),
    }
}

/// What is wrong with a member that may be absent or null and must
/// otherwise be a string.
pub open spec fn optional_fault(fields: Seq<(Seq<char>, FieldView)>, key: Seq<char>) -> Option<
    Seq<char>,
> {
    match field_of(fields, key) {
        Some(FieldView::Other) => Some("vmess field is not a string: "@ + key),
        _ => None,
    }
}

/// The text of a member that is a string.
pub open spec fn text_of(fields: Seq<(Seq<char>, FieldView)>, key: Seq<char>) -> Option<Seq<char>> {
    match field_of(fields, key) {
        Some(FieldView::Text(s)) => Some(s),
        _ => None,
    }
}

/// What is wrong with the members of a vmess object: the first fault in the
/// order `ps`, `add`, `port`, `id`, `net`, `tls`, `sni`, `host`, `path`.
/// `add`, `port` and `id` must be strings; the others may be absent or null.
pub open spec fn vmess_fields_fault(f: Seq<(Seq<char>, FieldView)>) -> Option<Seq<char>> {
    if optional_fault(f, "ps"@) is Some {
        optional_fault(f, "ps"@)
    } else if required_fault(f, "add"@) is Some {
        required_fault(f, "add"@)
    } else if required_fault(f, "port"@) is Some {
        required_fault(f, "port"@)
    } else if required_fault(f, "id"@) is Some {
        required_fault(f, "id"@)
    } else if optional_fault(f, "net"@) is Some {
        optional_fault(f, "net"@)
    } else if optional_fault(f, "tls"@) is Some {
        optional_fault(f, "tls"@)
    } else if optional_fault(f, "sni"@) is Some {
        optional_fault(f, "sni"@)
    } else if optional_fault(f, "host"@) is Some {
        optional_fault(f, "host"@)
    } else {
        optional_fault(f, "path"@)
    }
}

/// The first of two optional texts that is there.
pub open spec fn or_else(a: Option<Seq<char>>, b: Option<Seq<char>>) -> Option<Seq<char>> {
    if a is Some {
        a
    } else {
        b
    }
}

/// The node of a vmess link, from the members of its object: `add` is the
/// server, `port` the port, `id` the UUID, `ps` the tag, `net` the network,
/// `tls` the security, `host` and `path` the websocket host and path; the
/// server name is `sni`, or `host` where `sni` is absent.
pub open spec fn vmess_from(f: Seq<(Seq<char>, FieldView)>) -> Result<NodeView, XrayErrorView> {
    if vmess_fields_fault(f) is Some {
        Err(XrayErrorView::Parse(vmess_fields_fault(f)->0))
    } else if trimmed(or_empty(text_of(f, "add"@))).len() == 0 {
        Err(XrayErrorView::Parse("vmess missing server"@))
    } else if trimmed(or_empty(text_of(f, "id"@))).len() == 0 {
        Err(XrayErrorView::Parse("vmess missing uuid"@))
    } else {
        match parsed_u16(or_empty(text_of(f, "port"@))) {
            None => Err(
                XrayErrorView::Parse("invalid vmess port: "@ + or_empty(text_of(f, "port"@))),
            ),
            Some(port) => Ok(
                NodeView {
                    uuid: text_of(f, "id"@),
                    security: text_of(f, "tls"@),
                    network: text_of(f, "net"@),
                    tls: is_tls(text_of(f, "tls"@), Seq::empty()),
                    sni: or_else(text_of(f, "sni"@), text_of(f, "host"@)),
                    ws_path: text_of(f, "path"@),
                    ws_host: text_of(f, "host"@),
                    ..bare_node(
                        "vmess"@,
                        or_empty(text_of(f, "add"@)),
                        port,
                        or_empty(text_of(f, "ps"@)),
                    )
                },
            ),
        }
    }
}

/// What kind of member an object has under a key: 0 for none, 1 for null, 2
/// for a string, 3 for anything else; and the string's text.
#[verifier::loop_isolation(false)]
fn field_get(fields: &Vec<(String, JsonField)>, key: &str) -> (r: (u8, Option<String>))
    ensures
        match field_of(fields_view(fields@), key@) {
            None => r.0 == 0 && r.1 is None,
            Some(FieldView::Null) => r.0 == 1 && r.1 is None,
            Some(FieldView::Text(s)) => r.0 == 2 && opt_view(r.1) == Some(s),
            Some(FieldView::Other) => r.0 == 3 && r.1 is None,
        },
        opt_view(r.1) == text_of(fields_view(fields@), key@),
{
    let ghost f = fields_view(fields@);
    let mut k: usize = fields.len();
    while k > 0
        invariant
            k <= fields.len(),
            last_field(f, key@, fields.len() as int) == last_field(f, key@, k as int),
        decreases k,
    {
        proof {
            assert(f[k - 1] == (fields@[k - 1].0@, fields@[k - 1].1@));
        }
        if str_eq(fields[k - 1].0.as_str(), key) {
            return match &fields[k - 1].1 {
                JsonField::Null => (1, None),
                JsonField::Text(s) => (2, Some(s.clone())),
                JsonField::Other => (3, None),
            };
        }
        k -= 1;
    }
    (0, None)
}

/// The text of a member that must be a string.
fn required_text(fields: &Vec<(String, JsonField)>, key: &str) -> (r: Result<String, XrayError>)
    ensures
        match r {
            Ok(text) => required_fault(fields_view(fields@), key@) is None && Some(text@)
                == text_of(fields_view(fields@), key@),
            Err(e) => required_fault(fields_view(fields@), key@) is Some && e@
                == XrayErrorView::Parse(required_fault(fields_view(fields@), key@)->0),
        },
{
    let (kind, text) = field_get(fields, key);
    match text {
        Some(s) => Ok(s),
        None => {
            if kind == 0 {
                Err(XrayError::Parse(crate::strings::join2("vmess field is missing: ", key)))
            } else {
                Err(XrayError::Parse(crate::strings::join2("vmess field is not a string: ", key)))
            }
        },
    }
}

/// The text of a member that may be absent or null.
fn optional_text(fields: &Vec<(String, JsonField)>, key: &str) -> (r: Result<
    Option<String>,
    XrayError,
>)
    ensures
        match r {
            Ok(text) => optional_fault(fields_view(fields@), key@) is None && opt_view(text)
                == text_of(fields_view(fields@), key@),
            Err(e) => optional_fault(fields_view(fields@), key@) is Some && e@
                == XrayErrorView::Parse(optional_fault(fields_view(fields@), key@)->0),
        },
{
    let (kind, text) = field_get(fields, key);
    if kind == 3 {
        Err(XrayError::Parse(crate::strings::join2("vmess field is not a string: ", key)))
    } else {
        Ok(text)
    }
}

/// The node of a vmess link, from the members of its object.
pub fn vmess_node(fields: &Vec<(String, JsonField)>) -> (r: Result<ProxyNode, XrayError>)
    ensures
        yields(r, vmess_from(fields_view(fields@))),
{
    let ps = match optional_text(fields, "ps") {
        Ok(v) => v,
        Err(e) => {
            return Err(e);
        },
    };
    let add = match required_text(fields, "add") {
        Ok(v) => v,
        Err(e) => {
            return Err(e);
        },
    };
    let port_text = match required_text(fields, "port") {
        Ok(v) => v,
        Err(e) => {
            return Err(e);
        },
    };
    let id = match required_text(fields, "id") {
        Ok(v) => v,
        Err(e) => {
            return Err(e);
        },
    };
    let net = match optional_text(fields, "net") {
        Ok(v) => v,
        Err(e) => {
            return Err(e);
        },
    };
    let tls = match optional_text(fields, "tls") {
        Ok(v) => v,
        Err(e) => {
            return Err(e);
        },
    };
    let sni = match optional_text(fields, "sni") {
        Ok(v) => v,
        Err(e) => {
            return Err(e);
        },
    };
    let host = match optional_text(fields, "host") {
        Ok(v) => v,
        Err(e) => {
            return Err(e);
        },
    };
    let path = match optional_text(fields, "path") {
        Ok(v) => v,
        Err(e) => {
            return Err(e);
        },
    };
    if str_blank(add.as_str()) {
        return Err(XrayError::Parse("vmess missing server".to_owned()));
    }
    if str_blank(id.as_str()) {
        return Err(XrayError::Parse("vmess missing uuid".to_owned()));
    }
    let digits = chars_of(port_text.as_str());
    let port = match parse_u16(digits.as_slice()) {
        Some(p) => p,
        None => {
            return Err(XrayError::Parse(tagged("invalid vmess port: ", digits.as_slice())));
        },
    };
    let on = tls_flag(&tls, "");
    proof {
        reveal_strlit("");
        assert(""@ =~= Seq::<char>::empty());
    }
    let name = match sni {
        Some(s) => Some(s),
        None => clone_opt(&host),
    };
    let tag = text_or_empty(&ps).to_owned();
    Ok(
        ProxyNode {
            uuid: Some(id),
            security: tls,
            network: net,
            tls: on,
            sni: name,
            ws_path: path,
            ws_host: host,
            ..new_node("vmess", add, port, tag)
        },
    )
}

/// What a vmess link means: after `vmess://`, base64 of a JSON object.
pub open spec fn vmess_link(raw: Seq<char>) -> Result<NodeView, XrayErrorView> {
    let encoded = without_prefixes(raw, "vmess://"@);
    if trimmed(encoded).len() == 0 {
        Err(XrayErrorView::InvalidUrl("vmess url missing payload"@))
    } else {
        match base64_either(encoded) {
            Err(message) => Err(XrayErrorView::Decode(message)),
            Ok(bytes) => match json_object(bytes) {
                Err(message) => Err(XrayErrorView::Parse(message)),
                Ok(fields) => vmess_from(fields),
            },
        }
    }
}

/// Reads a vmess link.
pub fn parse_vmess(raw: &str) -> (r: Result<ProxyNode, XrayError>)
    ensures
        yields(r, vmess_link(raw@)),
{
    let chars = chars_of(raw);
    let scheme = chars_of("vmess://");
    let encoded = strip_prefixes(chars.as_slice(), scheme.as_slice());
    if trim(encoded).len() == 0 {
        return Err(XrayError::InvalidUrl("vmess url missing payload".to_owned()));
    }
    let text = string_of(encoded);
    let bytes = match decode_base64(text.as_str()) {
        Ok(b) => b,
        Err(message) => {
            return Err(XrayError::Decode(message));
        },
    };
    match read_json_object(bytes.as_slice()) {
        Ok(fields) => vmess_node(&fields),
        Err(message) => Err(XrayError::Parse(message)),
    }
}

// ------------------------------------------------------------- shadowsocks

/// The two sides of the first `sep` in a text; the text and nothing where
/// there is no `sep`.
pub open spec fn halves(text: Seq<char>, sep: char) -> (Seq<char>, Seq<char>) {
    match cut(text, sep) {
        Some(pair) => pair,
        None => (text, Seq::empty()),
    }
}

/// The value of the first `key=value` among the first parts of a query that
/// has the given key, trimmed, with `%3B` and `%3b` given as `;`.
pub open spec fn first_param(parts: Seq<Seq<char>>, key: Seq<char>) -> Option<Seq<char>>
    decreases parts.len(),
{
    if parts.len() == 0 {
        None
    } else if trimmed(halves(parts[0], '=').0) == key {
        Some(
            replaced(
                replaced(trimmed(halves(parts[0], '=').1), "%3B"@, ";"@),
                "%3b"@,
                ";"@,
            ),
        )
    } else {
        first_param(parts.drop_first(), key)
    }
}

/// The value that an `&`-separated query gives to a key.
pub open spec fn query_param(query: Seq<char>, key: Seq<char>) -> Option<Seq<char>> {
    first_param(pieces(query, '&'), key)
}

/// Splits a text at its first `sep`.
fn split_halves<'a>(text: &'a [char], sep: char) -> (r: (&'a [char], &'a [char]))
    ensures
        (r.0@, r.1@) == halves(text@, sep),
{
    match split_once(text, sep) {
        Some(pair) => pair,
        None => {
            let empty = vstd::slice::slice_subrange(text, 0, 0);
            proof {
                assert(empty@ =~= Seq::<char>::empty());
            }
            (text, empty)
        },
    }
}

/// The value that an `&`-separated query gives to a key.
#[verifier::loop_isolation(false)]
pub fn parse_query_value(query: &str, key: &str) -> (r: Option<String>)
    ensures
        opt_view(r) == query_param(query@, key@),
{
    let chars = chars_of(query);
    let wanted = chars_of(key);
    let parts = split(chars.as_slice(), '&');
    let ghost ps = pieces(query@, '&');
    let mut i: usize = 0;
    proof {
        assert(ps.skip(0) =~= ps);
    }
    while i < parts.len()
        invariant
            i <= parts.len(),
            texts(parts@) == ps,
            first_param(ps, key@) == first_param(ps.skip(i as int), key@),
        decreases parts.len() - i,
    {
        proof {
            assert(texts(parts@)[i as int] == parts@[i as int]@);
            assert(ps.skip(i as int)[0] == ps[i as int]);
            assert(ps.skip(i as int).drop_first() =~= ps.skip(i + 1));
        }
        let (k, v) = split_halves(parts[i], '=');
        if crate::text::same(trim(k), wanted.as_slice()) {
            let upper = chars_of("%3B");
            let lower = chars_of("%3b");
            let semi = chars_of(";");
            let once = replace(trim(v), upper.as_slice(), semi.as_slice());
            let twice = replace(once.as_slice(), lower.as_slice(), semi.as_slice());
            return Some(string_of(twice.as_slice()));
        }
        i += 1;
    }
    None
}

/// The parts of a shadowsocks link after its scheme: the body, the tag
/// after `#`, and the plugin and its options from the query after `?`.
pub struct SsOutline {
    pub main: Seq<char>,
    pub tag: Seq<char>,
    pub plugin: Option<Seq<char>>,
    pub plugin_opts: Option<Seq<char>>,
}

/// The outline of a shadowsocks link. The tag is what follows the first
/// `#`; the query is what follows the first `?` before it; the plugin is
/// the query's `plugin` value up to its first `;`, the options what follows.
pub open spec fn ss_outline(rest: Seq<char>) -> SsOutline {
    let front = match cut(rest, '#') {
        Some(pair) => pair.0,
        None => rest,
    };
    let tag = halves(rest, '#').1;
    match cut(front, '?') {
        None => SsOutline { main: front, tag, plugin: None, plugin_opts: None },
        Some((main, query)) => match query_param(query, "plugin"@) {
            None => SsOutline { main, tag, plugin: None, plugin_opts: None },
            Some(value) => match cut(value, ';') {
                Some((name, opts)) => SsOutline {
                    main,
                    tag,
                    plugin: Some(name),
                    plugin_opts: Some(opts),
                },
                None => SsOutline { main, tag, plugin: Some(value), plugin_opts: None },
            },
        },
    }
}

/// The text that base64 text decodes to, bytes that are no UTF-8 replaced;
/// none where the text is no base64.
pub open spec fn decoded_text(text: Seq<char>) -> Option<Seq<char>> {
    match base64_either(text) {
        Ok(bytes) => Some(utf8_lossy(bytes)),
        Err(_) => None,
    }
}

/// The credentials and the `host:port` of a link body: the two sides of its
/// `@`, or, where it has none, of the `@` in what it decodes to.
pub open spec fn ss_sides(main: Seq<char>) -> Option<(Seq<char>, Seq<char>)> {
    match cut(main, '@') {
        Some(pair) => Some(pair),
        None => match decoded_text(main) {
            Some(text) => Some(halves(text, '@')),
            None => None,
        },
    }
}

/// Method and password from credentials: the two sides of their `:`, or,
/// where they have none, of the `:` in what they decode to.
pub open spec fn ss_secret(creds: Seq<char>) -> Option<(Seq<char>, Seq<char>)> {
    if creds.contains(':') {
        Some(halves(creds, ':'))
    } else {
        match decoded_text(creds) {
            Some(text) => Some(halves(text, ':')),
            None => None,
        }
    }
}

/// The node of a shadowsocks link whose parts are known: the host and port
/// are the two sides of the first `:` of `hostport`.
pub open spec fn ss_from(
    outline: SsOutline,
    method: Seq<char>,
    password: Seq<char>,
    hostport: Seq<char>,
) -> Result<NodeView, XrayErrorView> {
    match parsed_u16(halves(hostport, ':').1) {
        None => Err(XrayErrorView::Parse("invalid ss port"@)),
        Some(port) => Ok(
            NodeView {
                password: Some(password),
                method: Some(method),
                plugin: outline.plugin,
                plugin_opts: outline.plugin_opts,
                ..bare_node("shadowsocks"@, halves(hostport, ':').0, port, outline.tag)
            },
        ),
    }
}

/// What a shadowsocks link means, in either of its two shapes: the whole
/// body in base64, or `base64(method:password)@host:port`.
pub open spec fn ss_link(raw: Seq<char>) -> Result<NodeView, XrayErrorView> {
    let rest = without_prefixes(raw, "ss://"@);
    if trimmed(rest).len() == 0 {
        Err(XrayErrorView::InvalidUrl("ss url missing payload"@))
    } else {
        match ss_sides(ss_outline(rest).main) {
            None => Err(XrayErrorView::Decode("ss base64 decode failed"@)),
            Some((creds, hostport)) => match ss_secret(creds) {
                None => Err(XrayErrorView::Decode("ss base64 decode failed"@)),
                Some((method, password)) => ss_from(ss_outline(rest), method, password, hostport),
            },
        }
    }
}

/// The text that base64 text decodes to, if it is base64.
fn decode_text(text: &[char]) -> (r: Option<Vec<char>>)
    ensures
        match r {
            Some(decoded) => decoded_text(text@) == Some(decoded@),
            None => decoded_text(text@) is None,
        },
{
    let encoded = string_of(text);
    match decode_base64(encoded.as_str()) {
        Ok(bytes) => {
            let decoded = lossy_text(bytes.as_slice());
            Some(chars_of(decoded.as_str()))
        },
        Err(_) => None,
    }
}

/// The plugin and its options that a query names.
fn plugin_of(query: &[char]) -> (r: (Option<String>, Option<String>))
    ensures
        match query_param(query@, "plugin"@) {
            None => r.0 is None && r.1 is None,
            Some(value) => match cut(value, ';') {
                Some((name, opts)) => opt_view(r.0) == Some(name) && opt_view(r.1) == Some(opts),
                None => opt_view(r.0) == Some(value) && r.1 is None,
            },
        },
{
    let text = string_of(query);
    match parse_query_value(text.as_str(), "plugin") {
        None => (None, None),
        Some(value) => {
            let chars = chars_of(value.as_str());
            match split_once(chars.as_slice(), ';') {
                Some((name, opts)) => (Some(string_of(name)), Some(string_of(opts))),
                None => (Some(value), None),
            }
        },
    }
}

/// The node of a shadowsocks link whose parts are known.
pub fn shadowsocks_node(
    tag: String,
    plugin: Option<String>,
    plugin_opts: Option<String>,
    method: String,
    password: String,
    hostport: &str,
) -> (r: Result<ProxyNode, XrayError>)
    ensures
        yields(
            r,
            ss_from(
                SsOutline {
                    main: Seq::empty(),
                    tag: tag@,
                    plugin: opt_view(plugin),
                    plugin_opts: opt_view(plugin_opts),
                },
                method@,
                password@,
                hostport@,
            ),
        ),
{
    let chars = chars_of(hostport);
    let (host, port_text) = split_halves(chars.as_slice(), ':');
    let port = match parse_u16(port_text) {
        Some(p) => p,
        None => {
            return Err(XrayError::Parse("invalid ss port".to_owned()));
        },
    };
    Ok(
        ProxyNode {
            password: Some(password),
            method: Some(method),
            plugin,
            plugin_opts,
            ..new_node("shadowsocks", string_of(host), port, tag)
        },
    )
}

/// Reads a shadowsocks link.
pub fn parse_shadowsocks(raw: &str) -> (r: Result<ProxyNode, XrayError>)
    ensures
        yields(r, ss_link(raw@)),
{
    let chars = chars_of(raw);
    let scheme = chars_of("ss://");
    let rest = strip_prefixes(chars.as_slice(), scheme.as_slice());
    if trim(rest).len() == 0 {
        return Err(XrayError::InvalidUrl("ss url missing payload".to_owned()));
    }
    let ghost outline = ss_outline(rest@);
    let (front, tag) = match split_once(rest, '#') {
        Some(pair) => pair,
        None => {
            let empty = vstd::slice::slice_subrange(rest, 0, 0);
            proof {
                assert(empty@ =~= Seq::<char>::empty());
            }
            (rest, empty)
        },
    };
    let (main, plugin, plugin_opts) = match split_once(front, '?') {
        Some((before, query)) => {
            let (plugin, plugin_opts) = plugin_of(query);
            (before, plugin, plugin_opts)
        },
        None => (front, None, None),
    };
    proof {
        assert(main@ == outline.main);
        assert(tag@ == outline.tag);
        assert(opt_view(plugin) == outline.plugin);
        assert(opt_view(plugin_opts) == outline.plugin_opts);
    }
    let (creds, hostport): (Vec<char>, Vec<char>) = match split_once(main, '@') {
        Some((c, h)) => (crate::text::to_vec(c), crate::text::to_vec(h)),
        None => match decode_text(main) {
            Some(decoded) => {
                let (c, h) = split_halves(decoded.as_slice(), '@');
                (crate::text::to_vec(c), crate::text::to_vec(h))
            },
            None => {
                return Err(XrayError::Decode("ss base64 decode failed".to_owned()));
            },
        },
    };
    let (method, password): (String, String) = if has_char(creds.as_slice(), ':') {
        let (m, p) = split_halves(creds.as_slice(), ':');
        (string_of(m), string_of(p))
    } else {
        match decode_text(creds.as_slice()) {
            Some(decoded) => {
                let (m, p) = split_halves(decoded.as_slice(), ':');
                (string_of(m), string_of(p))
            },
            None => {
                return Err(XrayError::Decode("ss base64 decode failed".to_owned()));
            },
        }
    };
    let place = string_of(hostport.as_slice());
    shadowsocks_node(string_of(tag), plugin, plugin_opts, method, password, place.as_str())
}

// -------------------------------------------------------- the list of links

/// What goes before the position of a link in a message.
pub open spec fn at_index(what: Seq<char>, index: nat) -> Seq<char> {
    what + decimal(index)
}

/// What a link means by its scheme. A link of no known scheme is refused.
pub open spec fn scheme_node(raw: Seq<char>, index: nat) -> Result<NodeView, XrayErrorView> {
    if "vmess://"@.is_prefix_of(raw) {
        vmess_link(raw)
    } else if "vless://"@.is_prefix_of(raw) {
        through_url(raw, |u: UrlView| vless_from(u))
    } else if "trojan://"@.is_prefix_of(raw) {
        through_url(raw, |u: UrlView| trojan_from(u))
    } else if "ss://"@.is_prefix_of(raw) {
        ss_link(raw)
    } else if "socks5://"@.is_prefix_of(raw) || "socks://"@.is_prefix_of(raw) {
        through_url(raw, |u: UrlView| socks_from(u))
    } else if "http://"@.is_prefix_of(raw) || "https://"@.is_prefix_of(raw) {
        through_url(raw, |u: UrlView| http_from(u))
    } else {
        Err(
            XrayErrorView::InvalidUrl(
                at_index("unsupported scheme at index "@, index) + ": "@ + raw,
            ),
        )
    }
}

/// A node with `proxy-` and its position as its tag, where it has none.
pub open spec fn with_default_tag(node: NodeView, index: nat) -> NodeView {
    NodeView {
        tag: if trimmed(node.tag).len() == 0 {
            at_index("proxy-"@, index)
        } else {
            node.tag
        },
        ..node
    }
}

/// What the link at position `index`, counted from 1, means: the link is
/// trimmed and must not be empty; the node that its scheme gives gets its
/// default tag and must be valid.
pub open spec fn entry_node(url: Seq<char>, index: nat) -> Result<NodeView, XrayErrorView> {
    let raw = trimmed(url);
    if raw.len() == 0 {
        Err(XrayErrorView::InvalidUrl(at_index("url at index "@, index) + " is empty"@))
    } else {
        match scheme_node(raw, index) {
            Err(e) => Err(e),
            Ok(node) => match node_fault(with_default_tag(node, index)) {
                Some(reason) => Err(
                    XrayErrorView::Parse(
                        at_index("invalid node at index "@, index) + ": "@ + reason,
                    ),
                ),
                None => Ok(with_default_tag(node, index)),
            },
        }
    }
}

/// The nodes of the first `k` links, or the error of the first link that is
/// refused.
pub open spec fn nodes_upto(urls: Seq<Seq<char>>, k: int) -> Result<Seq<NodeView>, XrayErrorView>
    decreases k,
{
    if k <= 0 {
        Ok(seq![])
    } else {
        match nodes_upto(urls, k - 1) {
            Err(e) => Err(e),
            Ok(nodes) => match entry_node(urls[k - 1], k as nat) {
                Err(e) => Err(e),
                Ok(node) => Ok(nodes.push(node)),
            },
        }
    }
}

/// What a list of links means: its nodes in order, or the error of the
/// first link that is refused. An empty list is refused.
pub open spec fn parsed_urls(urls: Seq<Seq<char>>) -> Result<Seq<NodeView>, XrayErrorView> {
    if urls.len() == 0 {
        Err(XrayErrorView::InvalidUrl("no proxy urls provided"@))
    } else {
        nodes_upto(urls, urls.len() as int)
    }
}

/// A message that names the position of a link.
fn index_message(before: &str, index: usize, after: &str, tail: &[char]) -> (message: String)
    ensures
        message@ == at_index(before@, index as nat) + after@ + tail@,
{
    let mut out = chars_of(before);
    push_decimal(&mut out, index as u64);
    push_str(&mut out, after);
    append(&mut out, tail);
    string_of(out.as_slice())
}

/// Reads a trimmed link that is not empty by its scheme.
fn parse_by_scheme(raw: &[char], index: usize) -> (r: Result<ProxyNode, XrayError>)
    ensures
        yields(r, scheme_node(raw@, index as nat)),
{
    let text = string_of(raw);
    if crate::strings::begins_with(raw, "vmess://") {
        parse_vmess(text.as_str())
    } else if crate::strings::begins_with(raw, "vless://") {
        parse_vless(text.as_str())
    } else if crate::strings::begins_with(raw, "trojan://") {
        parse_trojan(text.as_str())
    } else if crate::strings::begins_with(raw, "ss://") {
        parse_shadowsocks(text.as_str())
    } else if crate::strings::begins_with(raw, "socks5://") || crate::strings::begins_with(
        raw,
        "socks://",
    ) {
        parse_socks(text.as_str())
    } else if crate::strings::begins_with(raw, "http://") || crate::strings::begins_with(
        raw,
        "https://",
    ) {
        parse_http_proxy(text.as_str())
    } else {
        Err(XrayError::InvalidUrl(index_message("unsupported scheme at index ", index, ": ", raw)))
    }
}

/// Reads the link at position `index`, counted from 1.
pub fn parse_entry(url: &str, index: usize) -> (r: Result<ProxyNode, XrayError>)
    ensures
        yields(r, entry_node(url@, index as nat)),
        r matches Ok(node) ==> valid_node(node@),
{
    let chars = chars_of(url);
    let raw = trim(chars.as_slice());
    if raw.len() == 0 {
        let none: Vec<char> = Vec::new();
        proof {
            assert(at_index("url at index "@, index as nat) + " is empty"@ + none@ =~= at_index(
                "url at index "@,
                index as nat,
            ) + " is empty"@);
        }
        return Err(
            XrayError::InvalidUrl(
                index_message("url at index ", index, " is empty", none.as_slice()),
            ),
        );
    }
    let node = match parse_by_scheme(raw, index) {
        Ok(n) => n,
        Err(e) => {
            return Err(e);
        },
    };
    let tag = if str_blank(node.tag.as_str()) {
        let none: Vec<char> = Vec::new();
        proof {
            reveal_strlit("");
            assert(at_index("proxy-"@, index as nat) + ""@ + none@ =~= at_index(
                "proxy-"@,
                index as nat,
            ));
        }
        index_message("proxy-", index, "", none.as_slice())
    } else {
        node.tag.clone()
    };
    let node = ProxyNode { tag, ..node };
    match validate_node(&node) {
        Ok(_) => Ok(node),
        Err(reason) => {
            let why = chars_of(reason.as_str());
            Err(
                XrayError::Parse(
                    index_message("invalid node at index ", index, ": ", why.as_slice()),
                ),
            )
        },
    }
}

/// Reads a list of share links into validated nodes, in order. The first
/// link that is refused ends the reading with its error; positions in
/// messages count from 1. Every node that comes out is valid.
#[verifier::loop_isolation(false)]
pub fn parse_proxy_urls(urls: &[String]) -> (r: Result<Vec<ProxyNode>, XrayError>)
    ensures
        match r {
            Ok(nodes) => parsed_urls(crate::strings::strings_view(urls@)) == Ok::<
                Seq<NodeView>,
                XrayErrorView,
            >(nodes_view(nodes@)),
            Err(e) => parsed_urls(crate::strings::strings_view(urls@)) == Err::<
                Seq<NodeView>,
                XrayErrorView,
            >(e@),
        },
        r matches Ok(nodes) ==> nodes.len() == urls.len() && forall|i: int|
            0 <= i < nodes.len() ==> valid_node(#[trigger] nodes[i]@),
{
    if urls.len() == 0 {
        return Err(XrayError::InvalidUrl("no proxy urls provided".to_owned()));
    }
    let ghost us = crate::strings::strings_view(urls@);
    let mut nodes: Vec<ProxyNode> = Vec::new();
    let mut idx: usize = 0;
    proof {
        assert(nodes_view(nodes@) =~= Seq::<NodeView>::empty());
    }
    while idx < urls.len()
        invariant
            idx <= urls.len(),
            nodes.len() == idx,
            nodes_upto(us, idx as int) == Ok::<Seq<NodeView>, XrayErrorView>(nodes_view(nodes@)),
            forall|i: int| 0 <= i < nodes.len() ==> valid_node(#[trigger] nodes[i]@),
        decreases urls.len() - idx,
    {
        proof {
            assert(us[idx as int] == urls@[idx as int]@);
        }
        match parse_entry(urls[idx].as_str(), idx + 1) {
            Ok(node) => {
                let ghost before = nodes@;
                nodes.push(node);
                proof {
                    assert(nodes_view(nodes@) =~= nodes_view(before).push(node@));
                }
            },
            Err(e) => {
                proof {
                    lemma_nodes_stop(us, idx + 1, us.len() as int);
                }
                return Err(e);
            },
        }
        idx += 1;
    }
    Ok(nodes)
}

/// Once a link is refused, later links change nothing.
proof fn lemma_nodes_stop(urls: Seq<Seq<char>>, k: int, len: int)
    requires
        0 <= k <= len,
        nodes_upto(urls, k) is Err,
    ensures
        nodes_upto(urls, len) == nodes_upto(urls, k),
    decreases len - k,
{
    if k < len {
        lemma_nodes_stop(urls, k, len - 1);
    }
}

/// Every link that is accepted gives a valid node, and every link that is
/// not gives an error of one of the three kinds.
pub proof fn lemma_entry_valid(url: Seq<char>, index: nat)
    ensures
        match entry_node(url, index) {
            Ok(node) => valid_node(node),
            Err(e) => e is InvalidUrl || e is Decode || e is Parse,
        },
{
    if entry_node(url, index) is Ok {
        let node = entry_node(url, index)->Ok_0;
        lemma_node_fault(node);
    }
}

/// Every node of an accepted list of links is valid, and the list has one
/// node for each link.
pub proof fn lemma_accepted_nodes_valid(urls: Seq<Seq<char>>, k: int)
    requires
        0 <= k <= urls.len(),
        nodes_upto(urls, k) is Ok,
    ensures
        nodes_upto(urls, k)->Ok_0.len() == k,
        forall|i: int| 0 <= i < k ==> valid_node(#[trigger] nodes_upto(urls, k)->Ok_0[i]),
    decreases k,
{
    if k > 0 {
        lemma_accepted_nodes_valid(urls, k - 1);
        lemma_entry_valid(urls[k - 1], k as nat);
    }
}

} // verus!
