//! Share links: one URI for one node.
use crate::ip;
use crate::ip::{IpView, SocketAddr, SocketView};
use crate::ir::node;
use crate::ir::node::{
    CanonicalNode, EndpointTarget, EndpointView, NodeMetadata, NodeView, SubId,
};
use crate::ir::protocol::{
    Hysteria2Config, Hysteria2Obfs, ProtocolSpec, ShadowsocksCipher, ShadowsocksConfig,
    TrojanConfig, TuicCongestion, TuicConfig, TuicUdpRelay, VlessConfig, VlessFlow, VmessCipher,
    VmessConfig,
};
use crate::ir::transport::{
    GrpcConfig, RealityConfig, SecuritySpec, StandardTlsConfig, TransportSpec, UtlsFingerprint,
    WebSocketConfig, XHttpConfig, XHttpMode,
};
use crate::ir::uuid;
use crate::ir::uuid::Uuid;
use crate::parser::error;
use crate::parser::error::{ErrorView, ParseError};
use crate::parser::metadata;
use crate::parser::wire;
use crate::parser::wire::{JsonNode, VmessWire, WireValue};
use crate::text;
use vstd::prelude::*;
use vstd::string::*;

verus! {

/// The parts of a URI. `T` holds a text and `P` the query's pairs in order.
#[derive(Clone, Debug, PartialEq, Eq)]
pub struct UrlParts<T = String, P = Vec<(String, String)>> {
    pub scheme: T,
    pub username: T,
    pub password: Option<T>,
    pub host: Option<T>,
    pub port: Option<u16>,
    pub path: T,
    pub query: P,
    pub fragment: Option<T>,
}

/// The model of a URI's parts.
pub type UrlView = UrlParts<Seq<char>, Seq<(Seq<char>, Seq<char>)>>;

pub open spec fn pairs_view(s: Seq<(String, String)>) -> Seq<(Seq<char>, Seq<char>)> {
    s.map_values(|p: (String, String)| (p.0@, p.1@))
}

impl View for UrlParts {
    type V = UrlParts<Seq<char>, Seq<(Seq<char>, Seq<char>)>>;

    open spec fn view(&self) -> UrlParts<Seq<char>, Seq<(Seq<char>, Seq<char>)>> {
        UrlParts {
            scheme: self.scheme@,
            username: self.username@,
            password: text::text_of(self.password),
            host: text::text_of(self.host),
            port: self.port,
            path: self.path@,
            query: pairs_view(self.query@),
            fragment: text::text_of(self.fragment),
        }
    }
}

// ---------------------------------------------------------------------------
// Model: pieces
// ---------------------------------------------------------------------------

/// The parts that `url::Url::parse` finds in a text, or the text of its error.
pub uninterp spec fn url_parts(s: Seq<char>) -> Result<UrlView, Seq<char>>;

pub open spec fn parts_result(r: Result<UrlParts, String>) -> Result<UrlView, Seq<char>> {
    match r {
        Ok(p) => Ok(p@),
        Err(e) => Err(e@),
    }
}

/// Bytes with each `%` and two hexadecimal digits replaced by the byte that they
/// denote.
pub open spec fn percent_decoded(s: Seq<u8>) -> Seq<u8>
    decreases s.len(),
{
    if s.len() == 0 {
        Seq::empty()
    } else if s[0] == 37 && s.len() >= 3 && text::digit_value(s[1] as char) < 16
        && text::digit_value(s[2] as char) < 16 {
        seq![(text::digit_value(s[1] as char) * 16 + text::digit_value(s[2] as char)) as u8]
            + percent_decoded(s.skip(3))
    } else {
        seq![s[0]] + percent_decoded(s.skip(1))
    }
}

/// The value of the last pair with a key.
pub open spec fn query_value(pairs: Seq<(Seq<char>, Seq<char>)>, key: Seq<char>) -> Option<
    Seq<char>,
>
    decreases pairs.len(),
{
    if pairs.len() == 0 {
        None
    } else if pairs.last().0 == key {
        Some(pairs.last().1)
    } else {
        query_value(pairs.drop_last(), key)
    }
}

pub open spec fn or_text(s: Option<Seq<char>>, fallback: Seq<char>) -> Seq<char> {
    match s {
        Some(t) => t,
        None => fallback,
    }
}

/// The number that an optional text denotes.
pub open spec fn optional_u32(s: Option<Seq<char>>) -> Option<u32> {
    match s {
        None => None,
        Some(t) => match text::unsigned_number(t, 10, u32::MAX as nat) {
            Some(v) => Some(v as u32),
            None => None,
        },
    }
}

pub open spec fn invalid(field: Seq<char>, value: Seq<char>) -> ErrorView {
    ParseError::InvalidValue { field, value }
}

pub open spec fn uuid_of(s: Seq<char>) -> Result<Uuid, ErrorView> {
    match uuid::uuid_parsed(s) {
        Some(id) => Ok(Uuid(id)),
        None => Err(ParseError::InvalidUuid(s)),
    }
}

/// The endpoint for a host, which may be an address, and a port.
pub open spec fn host_endpoint(host: Seq<char>, port: u16) -> Result<EndpointView, ErrorView> {
    if port == 0 {
        Err(ParseError::InvalidEndpoint("port cannot be zero"@))
    } else {
        match ip::ip_value(host) {
            Some(ip) => Ok(EndpointTarget::Ip(SocketView { ip, port })),
            None => match node::domain_endpoint(host, port) {
                Ok(e) => Ok(e),
                Err(e) => Err(ParseError::InvalidEndpoint(e.text())),
            },
        }
    }
}

/// The endpoint of a URI; a default port of zero is none.
pub open spec fn url_endpoint(url: UrlView, default_port: u16) -> Result<EndpointView, ErrorView> {
    match url.host {
        None => Err(ParseError::MissingField("host"@)),
        Some(host) => match url.port {
            Some(port) => host_endpoint(host, port),
            None => if default_port != 0 {
                host_endpoint(host, default_port)
            } else {
                Err(ParseError::MissingField("port"@))
            },
        },
    }
}

/// The label of a URI: its decoded fragment, unless that is empty.
pub open spec fn url_label(url: UrlView, fallback: Seq<char>) -> Seq<char> {
    match url.fragment {
        None => fallback,
        Some(f) => {
            let t = text::utf8_lossy(percent_decoded(vstd::utf8::encode_utf8(f)));
            if t.len() == 0 {
                fallback
            } else {
                t
            }
        },
    }
}

/// The decoded user name as a password, which must be there.
pub open spec fn url_password(url: UrlView) -> Result<Seq<char>, ErrorView> {
    let bytes = percent_decoded(vstd::utf8::encode_utf8(url.username));
    if !vstd::utf8::valid_utf8(bytes) {
        Err(invalid("password"@, "invalid UTF-8"@))
    } else if vstd::utf8::decode_utf8(bytes).len() == 0 {
        Err(ParseError::MissingField("password"@))
    } else {
        Ok(vstd::utf8::decode_utf8(bytes))
    }
}

pub open spec fn fingerprint(s: Option<Seq<char>>) -> UtlsFingerprint {
    let t = text::lower(or_text(s, ""@));
    if t == "chrome"@ {
        UtlsFingerprint::Chrome
    } else if t == "firefox"@ {
        UtlsFingerprint::Firefox
    } else if t == "safari"@ {
        UtlsFingerprint::Safari
    } else if t == "edge"@ {
        UtlsFingerprint::Edge
    } else if t == "randomized"@ || t == "random"@ {
        UtlsFingerprint::Randomized
    } else {
        UtlsFingerprint::Disabled
    }
}

pub open spec fn xhttp_mode(s: Option<Seq<char>>) -> XHttpMode {
    if s == Some("packet-up"@) {
        XHttpMode::PacketUp
    } else if s == Some("stream-up"@) {
        XHttpMode::StreamUp
    } else {
        XHttpMode::StreamOne
    }
}

/// The parts between commas that are not empty.
pub open spec fn csv(s: Option<Seq<char>>) -> Seq<Seq<char>> {
    text::fields(or_text(s, ""@), ',').filter(|part: Seq<char>| part.len() > 0)
}

/// The shadowsocks method with a name, in whatever case.
pub open spec fn method_of(s: Seq<char>) -> Result<ShadowsocksCipher, ErrorView> {
    let t = text::lower(s);
    if t == "aes-128-gcm"@ {
        Ok(ShadowsocksCipher::Aes128Gcm)
    } else if t == "aes-256-gcm"@ {
        Ok(ShadowsocksCipher::Aes256Gcm)
    } else if t == "chacha20-ietf-poly1305"@ {
        Ok(ShadowsocksCipher::Chacha20IetfPoly1305)
    } else if t == "2022-blake3-aes-128-gcm"@ {
        Ok(ShadowsocksCipher::Ss2022Blake3Aes128Gcm)
    } else if t == "2022-blake3-aes-256-gcm"@ {
        Ok(ShadowsocksCipher::Ss2022Blake3Aes256Gcm)
    } else if t == "2022-blake3-chacha20-poly1305"@ {
        Ok(ShadowsocksCipher::Ss2022Blake3Chacha20Poly1305)
    } else {
        Err(invalid("method"@, t))
    }
}

/// The VMess cipher with a name.
pub open spec fn cipher_of(field: Seq<char>, t: Seq<char>) -> Result<VmessCipher, ErrorView> {
    if t == "auto"@ {
        Ok(VmessCipher::Auto)
    } else if t == "aes-128-gcm"@ {
        Ok(VmessCipher::Aes128Gcm)
    } else if t == "chacha20-poly1305"@ {
        Ok(VmessCipher::Chacha20Poly1305)
    } else if t == "none"@ {
        Ok(VmessCipher::Plain)
    } else {
        Err(invalid(field, t))
    }
}

/// The VLESS flow with a name; no name and an empty name are no flow.
pub open spec fn flow_of(s: Option<Seq<char>>) -> Result<Option<VlessFlow>, ErrorView> {
    match s {
        None => Ok(None),
        Some(t) => if t == "xtls-rprx-vision"@ {
            Ok(Some(VlessFlow::XtlsRprxVision))
        } else if t == "xtls-rprx-vision-udp443"@ {
            Ok(Some(VlessFlow::XtlsRprxVisionUdp443))
        } else if t.len() > 0 {
            Err(invalid("flow"@, t))
        } else {
            Ok(None)
        },
    }
}

pub open spec fn congestion_of(field: Seq<char>, t: Seq<char>) -> Result<
    TuicCongestion,
    ErrorView,
> {
    if t == "bbr"@ {
        Ok(TuicCongestion::Bbr)
    } else if t == "new_reno"@ {
        Ok(TuicCongestion::NewReno)
    } else if t == "cubic"@ {
        Ok(TuicCongestion::Cubic)
    } else {
        Err(invalid(field, t))
    }
}

pub open spec fn relay_of(field: Seq<char>, t: Seq<char>) -> Result<TuicUdpRelay, ErrorView> {
    if t == "native"@ {
        Ok(TuicUdpRelay::Native)
    } else if t == "quic"@ {
        Ok(TuicUdpRelay::Quic)
    } else {
        Err(invalid(field, t))
    }
}

/// The transport that a query asks for.
pub open spec fn query_transport(q: Seq<(Seq<char>, Seq<char>)>) -> Result<
    TransportSpec<Seq<char>>,
    ErrorView,
> {
    let kind = or_text(query_value(q, "type"@), "tcp"@);
    if kind == "tcp"@ {
        Ok(TransportSpec::Tcp)
    } else if kind == "ws"@ {
        Ok(
            TransportSpec::WebSocket(
                WebSocketConfig {
                    path: or_text(query_value(q, "path"@), "/"@),
                    host: query_value(q, "host"@),
                    max_early_data: match optional_u32(query_value(q, "ed"@)) {
                        Some(v) => v,
                        None => 0,
                    },
                    early_data_header: query_value(q, "eh"@),
                },
            ),
        )
    } else if kind == "grpc"@ {
        Ok(
            TransportSpec::Grpc(
                GrpcConfig {
                    service_name: or_text(query_value(q, "serviceName"@), ""@),
                    multi_mode: query_value(q, "mode"@) == Some("multi"@),
                },
            ),
        )
    } else if kind == "xhttp"@ {
        Ok(
            TransportSpec::XHttp(
                XHttpConfig {
                    mode: xhttp_mode(query_value(q, "mode"@)),
                    path: or_text(query_value(q, "path"@), "/"@),
                    host: query_value(q, "host"@),
                },
            ),
        )
    } else {
        Err(invalid("type"@, kind))
    }
}

/// The transport security that a query asks for.
pub open spec fn query_security(q: Seq<(Seq<char>, Seq<char>)>) -> Result<
    SecuritySpec<Seq<char>, Seq<Seq<char>>>,
    ErrorView,
> {
    let kind = or_text(query_value(q, "security"@), "none"@);
    let insecure = query_value(q, "allowInsecure"@);
    if kind == "none"@ || kind == ""@ {
        Ok(SecuritySpec::Plain)
    } else if kind == "tls"@ {
        Ok(
            SecuritySpec::Tls(
                StandardTlsConfig {
                    server_name: or_text(query_value(q, "sni"@), ""@),
                    alpn: csv(query_value(q, "alpn"@)),
                    fingerprint: fingerprint(query_value(q, "fp"@)),
                    allow_insecure: insecure == Some("1"@) || insecure == Some("true"@),
                },
            ),
        )
    } else if kind == "reality"@ {
        match query_value(q, "pbk"@) {
            None => Err(ParseError::MissingField("pbk"@)),
            Some(public_key) => Ok(
                SecuritySpec::Reality(
                    RealityConfig {
                        server_name: or_text(query_value(q, "sni"@), ""@),
                        public_key,
                        short_id: or_text(query_value(q, "sid"@), ""@),
                        spider_x: query_value(q, "spx"@),
                        fingerprint: fingerprint(query_value(q, "fp"@)),
                    },
                ),
            ),
        }
    } else {
        Err(invalid("security"@, kind))
    }
}

/// The node of the given parts; a bad endpoint is the only thing that can be
/// wrong with them.
pub open spec fn made_node(
    meta: NodeMetadata<Seq<char>>,
    endpoint: EndpointView,
    protocol: ProtocolSpec<Seq<char>, Seq<IpView>>,
    transport: TransportSpec<Seq<char>>,
    security: SecuritySpec<Seq<char>, Seq<Seq<char>>>,
) -> Result<NodeView, ErrorView> {
    match node::canonical_node(meta, endpoint, protocol, transport, security, None) {
        Ok(n) => Ok(n),
        Err(e) => Err(ParseError::InvalidEndpoint(e.text())),
    }
}

// ---------------------------------------------------------------------------
// Model: links
// ---------------------------------------------------------------------------

pub open spec fn vless_node(url: UrlView, sub_id: SubId, timestamp: u64) -> Result<
    NodeView,
    ErrorView,
> {
    match uuid_of(url.username) {
        Err(e) => Err(e),
        Ok(uuid) => match url_endpoint(url, 443) {
            Err(e) => Err(e),
            Ok(endpoint) => match query_transport(url.query) {
                Err(e) => Err(e),
                Ok(transport) => match query_security(url.query) {
                    Err(e) => Err(e),
                    Ok(security) => match flow_of(query_value(url.query, "flow"@)) {
                        Err(e) => Err(e),
                        Ok(flow) => made_node(
                            metadata::metadata(sub_id, url_label(url, "VLESS Node"@), timestamp),
                            endpoint,
                            ProtocolSpec::Vless(VlessConfig { uuid, flow }),
                            transport,
                            security,
                        ),
                    },
                },
            },
        },
    }
}

/// `s` without its leading slashes.
pub open spec fn strip_slashes(s: Seq<char>) -> Seq<char>
    decreases s.len(),
{
    if s.len() > 0 && s[0] == '/' {
        strip_slashes(s.drop_first())
    } else {
        s
    }
}

/// The encoded payload of a VMess link.
pub open spec fn vmess_payload(url: UrlView) -> Seq<char> {
    match url.host {
        Some(host) => host,
        None => strip_slashes(url.path),
    }
}

/// The number in a member of a payload.
pub open spec fn wire_u16(value: WireValue<Seq<char>>, field: Seq<char>) -> Result<
    u16,
    ErrorView,
> {
    let number = match value {
        WireValue::Number(n) => Some(n as nat),
        WireValue::Text(s) => text::unsigned_number(s, 10, u64::MAX as nat),
        _ => None,
    };
    match number {
        None => Err(ParseError::MissingField(field)),
        Some(n) => if n <= 65535 {
            Ok(n as u16)
        } else {
            Err(invalid(field, text::decimal(n)))
        },
    }
}

pub open spec fn wire_transport(w: VmessWire<Seq<char>>) -> TransportSpec<Seq<char>> {
    let net = or_text(w.net, "tcp"@);
    if net == "ws"@ {
        TransportSpec::WebSocket(
            WebSocketConfig {
                path: or_text(w.path, "/"@),
                host: w.host,
                max_early_data: 0,
                early_data_header: None,
            },
        )
    } else if net == "grpc"@ {
        TransportSpec::Grpc(GrpcConfig { service_name: or_text(w.path, ""@), multi_mode: false })
    } else {
        TransportSpec::Tcp
    }
}

pub open spec fn wire_security(w: VmessWire<Seq<char>>) -> SecuritySpec<
    Seq<char>,
    Seq<Seq<char>>,
> {
    if or_text(w.tls, ""@) == "tls"@ {
        SecuritySpec::Tls(
            StandardTlsConfig {
                server_name: or_text(w.sni, ""@),
                alpn: csv(w.alpn),
                fingerprint: fingerprint(w.fp),
                allow_insecure: false,
            },
        )
    } else {
        SecuritySpec::Plain
    }
}

/// The node that a VMess payload describes.
pub open spec fn wire_node(w: VmessWire<Seq<char>>, sub_id: SubId, timestamp: u64) -> Result<
    NodeView,
    ErrorView,
> {
    match w.add {
        None => Err(ParseError::MissingField("add"@)),
        Some(host) => match w.port {
            None => Err(ParseError::MissingField("port"@)),
            Some(port_value) => match wire_u16(port_value, "port"@) {
                Err(e) => Err(e),
                Ok(port) => match w.id {
                    None => Err(ParseError::MissingField("id"@)),
                    Some(id) => match uuid_of(id) {
                        Err(e) => Err(e),
                        Ok(uuid) => wire_node_after_id(w, host, port, uuid, sub_id, timestamp),
                    },
                },
            },
        },
    }
}

pub open spec fn wire_node_after_id(
    w: VmessWire<Seq<char>>,
    host: Seq<char>,
    port: u16,
    uuid: Uuid,
    sub_id: SubId,
    timestamp: u64,
) -> Result<NodeView, ErrorView> {
    match cipher_of("scy"@, text::lower(or_text(w.scy, "auto"@))) {
        Err(e) => Err(e),
        Ok(cipher) => match host_endpoint(host, port) {
            Err(e) => Err(e),
            Ok(endpoint) => {
                let aid = match w.aid {
                    Some(v) => wire_u16(v, "aid"@),
                    None => Ok(0),
                };
                match aid {
                    Err(e) => Err(e),
                    Ok(alter_id) => made_node(
                        metadata::metadata(sub_id, or_text(w.ps, "VMess Node"@), timestamp),
                        endpoint,
                        ProtocolSpec::Vmess(VmessConfig { uuid, alter_id, cipher }),
                        wire_transport(w),
                        wire_security(w),
                    ),
                }
            },
        },
    }
}

/// The node that a VMess document describes: its nodes, or what the reader says of a
/// document that it cannot read.
pub open spec fn vmess_document(
    tape: Result<Seq<JsonNode<Seq<char>>>, Seq<char>>,
    sub_id: SubId,
    timestamp: u64,
) -> Result<NodeView, ErrorView> {
    match tape {
        Err(e) => Err(ParseError::Json(e)),
        Ok(nodes) => match wire::vmess_wire(nodes) {
            Err(e) => Err(ParseError::Json(e)),
            Ok(w) => wire_node(w, sub_id, timestamp),
        },
    }
}

/// The node that a VMess link describes. `fault` is what the JSON reader says of a
/// document that it cannot read; it depends on the machine.
pub open spec fn vmess_node(
    url: UrlView,
    sub_id: SubId,
    timestamp: u64,
    fault: Seq<char>,
) -> Result<NodeView, ErrorView> {
    let payload = vmess_payload(url);
    if payload.len() == 0 {
        Err(ParseError::MissingField("vmess payload"@))
    } else {
        match crate::parser::format::bundle(vstd::utf8::encode_utf8(payload)) {
            Err(e) => Err(ParseError::Base64Decode(e)),
            Ok(bytes) => match wire::json_tape(bytes) {
                None => vmess_document(Err(fault), sub_id, timestamp),
                Some(nodes) => vmess_document(Ok(nodes), sub_id, timestamp),
            },
        }
    }
}

pub open spec fn trojan_node(url: UrlView, sub_id: SubId, timestamp: u64) -> Result<
    NodeView,
    ErrorView,
> {
    match url_password(url) {
        Err(e) => Err(e),
        Ok(password) => match url_endpoint(url, 443) {
            Err(e) => Err(e),
            Ok(endpoint) => match query_transport(url.query) {
                Err(e) => Err(e),
                Ok(transport) => match query_security(url.query) {
                    Err(e) => Err(e),
                    Ok(security) => made_node(
                        metadata::metadata(sub_id, url_label(url, "Trojan Node"@), timestamp),
                        endpoint,
                        ProtocolSpec::Trojan(TrojanConfig { password }),
                        transport,
                        security,
                    ),
                },
            },
        },
    }
}

/// A plugin's name and, after the first semicolon, its options.
pub open spec fn plugin_of(s: Option<Seq<char>>) -> (Option<Seq<char>>, Option<Seq<char>>) {
    match s {
        None => (None, None),
        Some(t) => match text::split_once(t, ";"@) {
            Some((name, options)) => (Some(name), Some(options)),
            None => (Some(t), None),
        },
    }
}

pub open spec fn shadowsocks_node(url: UrlView, sub_id: SubId, timestamp: u64) -> Result<
    NodeView,
    ErrorView,
> {
    match crate::parser::format::bundle(vstd::utf8::encode_utf8(url.username)) {
        Err(e) => Err(ParseError::Base64Decode(e)),
        Ok(bytes) => if !vstd::utf8::valid_utf8(bytes) {
            Err(invalid("credentials"@, "invalid UTF-8"@))
        } else {
            match text::split_once(vstd::utf8::decode_utf8(bytes), ":"@) {
                None => Err(ParseError::MissingField("method/password"@)),
                Some((name, password)) => match method_of(name) {
                    Err(e) => Err(e),
                    Ok(method) => match url_endpoint(url, 0) {
                        Err(e) => Err(e),
                        Ok(endpoint) => {
                            let (plugin, plugin_opts) = plugin_of(
                                query_value(url.query, "plugin"@),
                            );
                            made_node(
                                metadata::metadata(
                                    sub_id,
                                    url_label(url, "Shadowsocks Node"@),
                                    timestamp,
                                ),
                                endpoint,
                                ProtocolSpec::Shadowsocks(
                                    ShadowsocksConfig { method, password, plugin, plugin_opts },
                                ),
                                TransportSpec::Tcp,
                                SecuritySpec::Plain,
                            )
                        },
                    },
                },
            }
        },
    }
}

pub open spec fn hysteria2_node(url: UrlView, sub_id: SubId, timestamp: u64) -> Result<
    NodeView,
    ErrorView,
> {
    match url_password(url) {
        Err(e) => Err(e),
        Ok(password) => match url_endpoint(url, 443) {
            Err(e) => Err(e),
            Ok(endpoint) => made_node(
                metadata::metadata(sub_id, url_label(url, "Hysteria2 Node"@), timestamp),
                endpoint,
                ProtocolSpec::Hysteria2(
                    Hysteria2Config {
                        password,
                        up_mbps: optional_u32(query_value(url.query, "up"@)),
                        down_mbps: optional_u32(query_value(url.query, "down"@)),
                        obfs: match query_value(url.query, "obfs"@) {
                            Some(obfs_type) => Some(
                                Hysteria2Obfs {
                                    obfs_type,
                                    password: or_text(
                                        query_value(url.query, "obfs-password"@),
                                        ""@,
                                    ),
                                },
                            ),
                            None => None,
                        },
                        port_hopping: query_value(url.query, "mport"@),
                    },
                ),
                TransportSpec::Tcp,
                SecuritySpec::Plain,
            ),
        },
    }
}

pub open spec fn tuic_node(url: UrlView, sub_id: SubId, timestamp: u64) -> Result<
    NodeView,
    ErrorView,
> {
    let q = url.query;
    match uuid_of(url.username) {
        Err(e) => Err(e),
        Ok(uuid) => match congestion_of(
            "congestion_control"@,
            or_text(query_value(q, "congestion_control"@), "cubic"@),
        ) {
            Err(e) => Err(e),
            Ok(congestion_control) => match relay_of(
                "udp_relay_mode"@,
                or_text(query_value(q, "udp_relay_mode"@), "native"@),
            ) {
                Err(e) => Err(e),
                Ok(udp_relay_mode) => match url_endpoint(url, 443) {
                    Err(e) => Err(e),
                    Ok(endpoint) => made_node(
                        metadata::metadata(sub_id, url_label(url, "TUIC Node"@), timestamp),
                        endpoint,
                        ProtocolSpec::Tuic(
                            TuicConfig {
                                uuid,
                                password: or_text(url.password, ""@),
                                congestion_control,
                                udp_relay_mode,
                                zero_rtt_handshake: query_value(q, "zero_rtt_handshake"@) == Some(
                                    "true"@,
                                ),
                            },
                        ),
                        TransportSpec::Tcp,
                        SecuritySpec::Plain,
                    ),
                },
            },
        },
    }
}

/// The node that a URI with the given parts describes. `fault` is what the JSON
/// reader says of a document that it cannot read.
pub open spec fn url_node(
    url: UrlView,
    sub_id: SubId,
    timestamp: u64,
    fault: Seq<char>,
) -> Result<NodeView, ErrorView> {
    if url.scheme == "vless"@ {
        vless_node(url, sub_id, timestamp)
    } else if url.scheme == "vmess"@ {
        vmess_node(url, sub_id, timestamp, fault)
    } else if url.scheme == "trojan"@ {
        trojan_node(url, sub_id, timestamp)
    } else if url.scheme == "ss"@ {
        shadowsocks_node(url, sub_id, timestamp)
    } else if url.scheme == "hysteria2"@ || url.scheme == "hy2"@ {
        hysteria2_node(url, sub_id, timestamp)
    } else if url.scheme == "tuic"@ {
        tuic_node(url, sub_id, timestamp)
    } else {
        Err(ParseError::UnsupportedFormat(url.scheme))
    }
}

/// The node that an entry describes. `fault` is what the JSON reader says of a
/// document that it cannot read.
#[verifier::opaque]
pub open spec fn entry_node(
    raw: Seq<char>,
    sub_id: SubId,
    timestamp: u64,
    fault: Seq<char>,
) -> Result<NodeView, ErrorView> {
    match url_parts(raw) {
        Err(e) => Err(ParseError::InvalidUri(e)),
        Ok(url) => url_node(url, sub_id, timestamp, fault),
    }
}

/// What the JSON reader says of a document that it cannot read is shown and decides
/// nothing: with another text an entry gives the same node or error, but for the
/// text in a JSON error.
pub proof fn law_fault_texts_decide_nothing(
    raw: Seq<char>,
    sub_id: SubId,
    timestamp: u64,
    a: Seq<char>,
    b: Seq<char>,
)
    ensures
        ({
            let x = entry_node(raw, sub_id, timestamp, a);
            let y = entry_node(raw, sub_id, timestamp, b);
            x == y || (x == Err::<NodeView, ErrorView>(ParseError::Json(a)) && y == Err::<
                NodeView,
                ErrorView,
            >(ParseError::Json(b)))
        }),
{
    reveal(entry_node);
}

// ---------------------------------------------------------------------------
// Outside calls
// ---------------------------------------------------------------------------

/// `url::Url::parse` and the accessors of `url::Url`: the parts of a URI with the
/// query's pairs decoded, or the text of the error, under a name.
#[verifier::external_body]
fn read_url(raw: &str) -> (r: Result<UrlParts, String>)
    ensures
        parts_result(r) == url_parts(raw@),
{
    let url = url::Url::parse(raw).map_err(|error| error.to_string())?;
    Ok(UrlParts {
        scheme: url.scheme().to_owned(),
        username: url.username().to_owned(),
        password: url.password().map(str::to_owned),
        host: url.host_str().map(str::to_owned),
        port: url.port(),
        path: url.path().to_owned(),
        query: url.query_pairs().map(|(k, v)| (k.into_owned(), v.into_owned())).collect(),
        fragment: url.fragment().map(str::to_owned),
    })
}

/// `percent_encoding::percent_decode_str`: each `%` with two hexadecimal digits
/// becomes a byte, all other bytes stay.
#[verifier::external_body]
fn percent_decode(s: &str) -> (r: Vec<u8>)
    ensures
        r@ == percent_decoded(vstd::utf8::encode_utf8(s@)),
{
    percent_encoding::percent_decode_str(s).collect()
}

// ---------------------------------------------------------------------------
// Executable forms
// ---------------------------------------------------------------------------

/// The pairs of a query.
pub struct Query<'a> {
    values: &'a Vec<(String, String)>,
}

impl<'a> Query<'a> {
    pub closed spec fn pairs(self) -> Seq<(Seq<char>, Seq<char>)> {
        pairs_view(self.values@)
    }

    pub fn new(url: &'a UrlParts) -> (r: Query<'a>)
        ensures
            r.pairs() == url@.query,
    {
        Query { values: &url.query }
    }

    /// The value of the last pair with a key.
    pub fn get(&self, key: &str) -> (r: Option<String>)
        ensures
            text::text_of(r) == query_value(self.pairs(), key@),
    {
        let ghost all = pairs_view(self.values@);
        let mut i: usize = self.values.len();
        assert(all.take(i as int) =~= all);
        while i > 0
            invariant
                i <= self.values@.len(),
                all == pairs_view(self.values@),
                query_value(all, key@) == query_value(all.take(i as int), key@),
            decreases i,
        {
            assert(all.take(i as int).drop_last() =~= all.take(i - 1));
            assert(all.take(i as int).last() == (
                self.values@[i - 1].0@,
                self.values@[i - 1].1@,
            ));
            i -= 1;
            if text::same(self.values[i].0.as_str(), key) {
                return Some(self.values[i].1.clone());
            }
        }
        None
    }

    fn get_or(&self, key: &str, fallback: &str) -> (r: String)
        ensures
            r@ == or_text(query_value(self.pairs(), key@), fallback@),
    {
        match self.get(key) {
            Some(v) => v,
            None => fallback.to_owned(),
        }
    }

    fn is(&self, key: &str, value: &str) -> (r: bool)
        ensures
            r == (query_value(self.pairs(), key@) == Some(value@)),
    {
        match self.get(key) {
            Some(v) => text::same(v.as_str(), value),
            None => false,
        }
    }
}

pub(crate) fn invalid_value(field: &'static str, value: &str) -> (r: ParseError)
    ensures
        r@ == invalid(field@, value@),
{
    ParseError::InvalidValue { field, value: value.to_owned() }
}

pub(crate) fn parse_uuid(value: &str) -> (r: Result<Uuid, ParseError>)
    ensures
        (match r {
            Ok(id) => uuid_of(value@) == Ok::<_, ErrorView>(id),
            Err(e) => uuid_of(value@) == Err::<Uuid, _>(e@),
        }),
{
    match Uuid::parse_str(value) {
        Some(id) => Ok(id),
        None => Err(ParseError::InvalidUuid(value.to_owned())),
    }
}

fn number_of(value: &Option<String>) -> (r: Option<u32>)
    ensures
        r == optional_u32(text::text_of(*value)),
{
    match value {
        None => None,
        Some(s) => match text::read_unsigned(&text::to_chars(s.as_str()), 10, u32::MAX as u64) {
            Some(v) => Some(v as u32),
            None => None,
        },
    }
}

pub open spec fn endpoint_outcome(r: Result<EndpointTarget, ParseError>) -> Result<
    EndpointView,
    ErrorView,
> {
    match r {
        Ok(e) => Ok(e@),
        Err(e) => Err(e@),
    }
}

/// The endpoint for a host, which may be an address, and a port.
pub fn endpoint_from_host(host: &str, port: u16) -> (r: Result<EndpointTarget, ParseError>)
    ensures
        endpoint_outcome(r) == host_endpoint(host@, port),
{
    if port == 0 {
        return Err(ParseError::InvalidEndpoint("port cannot be zero".to_owned()));
    }
    match ip::read_ip(host) {
        Some(ip) => Ok(EndpointTarget::Ip(SocketAddr { ip, port })),
        None => match EndpointTarget::domain(host, port) {
            Ok(e) => Ok(e),
            Err(e) => Err(ParseError::InvalidEndpoint(e.message().to_owned())),
        },
    }
}

/// The endpoint of a URI.
pub fn endpoint(url: &UrlParts, default_port: u16) -> (r: Result<EndpointTarget, ParseError>)
    ensures
        endpoint_outcome(r) == url_endpoint(url@, default_port),
{
    match &url.host {
        None => Err(ParseError::MissingField("host")),
        Some(host) => match url.port {
            Some(port) => endpoint_from_host(host.as_str(), port),
            None => if default_port != 0 {
                endpoint_from_host(host.as_str(), default_port)
            } else {
                Err(ParseError::MissingField("port"))
            },
        },
    }
}

/// The label of a URI.
pub fn label(url: &UrlParts, fallback: &str) -> (r: String)
    ensures
        r@ == url_label(url@, fallback@),
{
    match &url.fragment {
        None => fallback.to_owned(),
        Some(f) => {
            let decoded = text::from_utf8_lossy(&percent_decode(f.as_str()));
            if text::to_chars(decoded.as_str()).len() == 0 {
                fallback.to_owned()
            } else {
                decoded
            }
        },
    }
}

fn password_of(url: &UrlParts) -> (r: Result<String, ParseError>)
    ensures
        (match r {
            Ok(p) => url_password(url@) == Ok::<_, ErrorView>(p@),
            Err(e) => url_password(url@) == Err::<Seq<char>, _>(e@),
        }),
{
    match text::from_utf8(&percent_decode(url.username.as_str())) {
        Err(_) => Err(invalid_value("password", "invalid UTF-8")),
        Ok(password) => if text::to_chars(password.as_str()).len() == 0 {
            Err(ParseError::MissingField("password"))
        } else {
            Ok(password)
        },
    }
}

pub fn parse_fingerprint(value: &Option<String>) -> (r: UtlsFingerprint)
    ensures
        r == fingerprint(text::text_of(*value)),
{
    let lowered = match value {
        Some(s) => text::lower_text(s.as_str()),
        None => text::lower_text(""),
    };
    let t = lowered.as_str();
    if text::same(t, "chrome") {
        UtlsFingerprint::Chrome
    } else if text::same(t, "firefox") {
        UtlsFingerprint::Firefox
    } else if text::same(t, "safari") {
        UtlsFingerprint::Safari
    } else if text::same(t, "edge") {
        UtlsFingerprint::Edge
    } else if text::same(t, "randomized") || text::same(t, "random") {
        UtlsFingerprint::Randomized
    } else {
        UtlsFingerprint::Disabled
    }
}

pub fn parse_xhttp_mode(value: &Option<String>) -> (r: XHttpMode)
    ensures
        r == xhttp_mode(text::text_of(*value)),
{
    match value {
        None => XHttpMode::StreamOne,
        Some(s) => if text::same(s.as_str(), "packet-up") {
            XHttpMode::PacketUp
        } else if text::same(s.as_str(), "stream-up") {
            XHttpMode::StreamUp
        } else {
            XHttpMode::StreamOne
        },
    }
}

/// Splits a list at commas and drops empty parts.
pub fn split_csv(value: &Option<String>) -> (r: Vec<String>)
    ensures
        text::texts_of(r@) == csv(text::text_of(*value)),
{
    let chars = match value {
        Some(s) => text::to_chars(s.as_str()),
        None => text::to_chars(""),
    };
    let parts = text::split_fields(&chars, ',');
    let ghost view = |l: &[char]| l@;
    let ghost model = text::fields(chars@, ',');
    let ghost keep = |part: Seq<char>| part.len() > 0;
    assert(parts@.map_values(view) == model);
    let mut out: Vec<String> = Vec::new();
    let mut i: usize = 0;
    proof {
        reveal(Seq::filter);
        assert(text::texts_of(out@) =~= model.take(0).filter(keep));
    }
    while i < parts.len()
        invariant
            i <= parts@.len(),
            view == (|l: &[char]| l@),
            keep == (|part: Seq<char>| part.len() > 0),
            parts@.map_values(view) == model,
            text::texts_of(out@) == model.take(i as int).filter(keep),
        decreases parts@.len() - i,
    {
        let ghost before = text::texts_of(out@);
        assert(model[i as int] == parts@[i as int]@);
        proof {
            reveal(Seq::filter);
            assert(model.take(i + 1).drop_last() =~= model.take(i as int));
        }
        if parts[i].len() > 0 {
            let part = text::from_chars(parts[i]);
            out.push(part);
            assert(text::texts_of(out@) =~= before.push(part@));
        }
        i += 1;
    }
    assert(model.take(model.len() as int) =~= model);
    out
}

pub fn parse_ss_method(value: &str) -> (r: Result<ShadowsocksCipher, ParseError>)
    ensures
        (match r {
            Ok(m) => method_of(value@) == Ok::<_, ErrorView>(m),
            Err(e) => method_of(value@) == Err::<ShadowsocksCipher, _>(e@),
        }),
{
    let lowered = text::lower_text(value);
    let t = lowered.as_str();
    if text::same(t, "aes-128-gcm") {
        Ok(ShadowsocksCipher::Aes128Gcm)
    } else if text::same(t, "aes-256-gcm") {
        Ok(ShadowsocksCipher::Aes256Gcm)
    } else if text::same(t, "chacha20-ietf-poly1305") {
        Ok(ShadowsocksCipher::Chacha20IetfPoly1305)
    } else if text::same(t, "2022-blake3-aes-128-gcm") {
        Ok(ShadowsocksCipher::Ss2022Blake3Aes128Gcm)
    } else if text::same(t, "2022-blake3-aes-256-gcm") {
        Ok(ShadowsocksCipher::Ss2022Blake3Aes256Gcm)
    } else if text::same(t, "2022-blake3-chacha20-poly1305") {
        Ok(ShadowsocksCipher::Ss2022Blake3Chacha20Poly1305)
    } else {
        Err(invalid_value("method", t))
    }
}

pub(crate) fn parse_cipher(field: &'static str, t: &str) -> (r: Result<VmessCipher, ParseError>)
    ensures
        (match r {
            Ok(c) => cipher_of(field@, t@) == Ok::<_, ErrorView>(c),
            Err(e) => cipher_of(field@, t@) == Err::<VmessCipher, _>(e@),
        }),
{
    if text::same(t, "auto") {
        Ok(VmessCipher::Auto)
    } else if text::same(t, "aes-128-gcm") {
        Ok(VmessCipher::Aes128Gcm)
    } else if text::same(t, "chacha20-poly1305") {
        Ok(VmessCipher::Chacha20Poly1305)
    } else if text::same(t, "none") {
        Ok(VmessCipher::Plain)
    } else {
        Err(invalid_value(field, t))
    }
}

pub(crate) fn parse_flow(value: &Option<String>) -> (r: Result<Option<VlessFlow>, ParseError>)
    ensures
        (match r {
            Ok(f) => flow_of(text::text_of(*value)) == Ok::<_, ErrorView>(f),
            Err(e) => flow_of(text::text_of(*value)) == Err::<Option<VlessFlow>, _>(e@),
        }),
{
    match value {
        None => Ok(None),
        Some(s) => if text::same(s.as_str(), "xtls-rprx-vision") {
            Ok(Some(VlessFlow::XtlsRprxVision))
        } else if text::same(s.as_str(), "xtls-rprx-vision-udp443") {
            Ok(Some(VlessFlow::XtlsRprxVisionUdp443))
        } else if text::to_chars(s.as_str()).len() > 0 {
            Err(invalid_value("flow", s.as_str()))
        } else {
            Ok(None)
        },
    }
}

pub(crate) fn parse_congestion(field: &'static str, t: &str) -> (r: Result<
    TuicCongestion,
    ParseError,
>)
    ensures
        (match r {
            Ok(c) => congestion_of(field@, t@) == Ok::<_, ErrorView>(c),
            Err(e) => congestion_of(field@, t@) == Err::<TuicCongestion, _>(e@),
        }),
{
    if text::same(t, "bbr") {
        Ok(TuicCongestion::Bbr)
    } else if text::same(t, "new_reno") {
        Ok(TuicCongestion::NewReno)
    } else if text::same(t, "cubic") {
        Ok(TuicCongestion::Cubic)
    } else {
        Err(invalid_value(field, t))
    }
}

pub(crate) fn parse_relay(field: &'static str, t: &str) -> (r: Result<TuicUdpRelay, ParseError>)
    ensures
        (match r {
            Ok(m) => relay_of(field@, t@) == Ok::<_, ErrorView>(m),
            Err(e) => relay_of(field@, t@) == Err::<TuicUdpRelay, _>(e@),
        }),
{
    if text::same(t, "native") {
        Ok(TuicUdpRelay::Native)
    } else if text::same(t, "quic") {
        Ok(TuicUdpRelay::Quic)
    } else {
        Err(invalid_value(field, t))
    }
}

/// The transport that a query asks for.
pub fn parse_transport(query: &Query) -> (r: Result<TransportSpec, ParseError>)
    ensures
        (match r {
            Ok(t) => query_transport(query.pairs()) == Ok::<_, ErrorView>(t@),
            Err(e) => query_transport(query.pairs()) == Err::<TransportSpec<Seq<char>>, _>(e@),
        }),
{
    let kind = query.get_or("type", "tcp");
    let kind = kind.as_str();
    if text::same(kind, "tcp") {
        Ok(TransportSpec::Tcp)
    } else if text::same(kind, "ws") {
        Ok(
            TransportSpec::WebSocket(
                WebSocketConfig {
                    path: query.get_or("path", "/"),
                    host: query.get("host"),
                    max_early_data: match number_of(&query.get("ed")) {
                        Some(v) => v,
                        None => 0,
                    },
                    early_data_header: query.get("eh"),
                },
            ),
        )
    } else if text::same(kind, "grpc") {
        Ok(
            TransportSpec::Grpc(
                GrpcConfig {
                    service_name: query.get_or("serviceName", ""),
                    multi_mode: query.is("mode", "multi"),
                },
            ),
        )
    } else if text::same(kind, "xhttp") {
        Ok(
            TransportSpec::XHttp(
                XHttpConfig {
                    mode: parse_xhttp_mode(&query.get("mode")),
                    path: query.get_or("path", "/"),
                    host: query.get("host"),
                },
            ),
        )
    } else {
        Err(invalid_value("type", kind))
    }
}

/// The transport security that a query asks for.
pub fn parse_security(query: &Query) -> (r: Result<SecuritySpec, ParseError>)
    ensures
        (match r {
            Ok(s) => query_security(query.pairs()) == Ok::<_, ErrorView>(s@),
            Err(e) => query_security(query.pairs()) == Err::<
                SecuritySpec<Seq<char>, Seq<Seq<char>>>,
                _,
            >(e@),
        }),
{
    let kind = query.get_or("security", "none");
    let kind = kind.as_str();
    if text::same(kind, "none") || text::same(kind, "") {
        Ok(SecuritySpec::Plain)
    } else if text::same(kind, "tls") {
        Ok(
            SecuritySpec::Tls(
                StandardTlsConfig {
                    server_name: query.get_or("sni", ""),
                    alpn: split_csv(&query.get("alpn")),
                    fingerprint: parse_fingerprint(&query.get("fp")),
                    allow_insecure: query.is("allowInsecure", "1") || query.is(
                        "allowInsecure",
                        "true",
                    ),
                },
            ),
        )
    } else if text::same(kind, "reality") {
        match query.get("pbk") {
            None => Err(ParseError::MissingField("pbk")),
            Some(public_key) => Ok(
                SecuritySpec::Reality(
                    RealityConfig {
                        server_name: query.get_or("sni", ""),
                        public_key,
                        short_id: query.get_or("sid", ""),
                        spider_x: query.get("spx"),
                        fingerprint: parse_fingerprint(&query.get("fp")),
                    },
                ),
            ),
        }
    } else {
        Err(invalid_value("security", kind))
    }
}

/// Makes a node of its parts.
pub(crate) fn make_node(
    meta: NodeMetadata,
    endpoint: EndpointTarget,
    protocol: ProtocolSpec,
    transport: TransportSpec,
    security: SecuritySpec,
) -> (r: Result<CanonicalNode, ParseError>)
    ensures
        error::entry_result(r) == made_node(
            meta@,
            endpoint@,
            protocol@,
            transport@,
            security@,
        ),
{
    match CanonicalNode::try_new(meta, endpoint, protocol, transport, security, None) {
        Ok(n) => Ok(n),
        Err(e) => Err(ParseError::InvalidEndpoint(e.message().to_owned())),
    }
}

fn parse_vless(url: &UrlParts, sub_id: SubId, timestamp: u64) -> (r: Result<
    CanonicalNode,
    ParseError,
>)
    ensures
        error::entry_result(r) == vless_node(url@, sub_id, timestamp),
{
    let uuid = match parse_uuid(url.username.as_str()) {
        Ok(v) => v,
        Err(e) => return Err(e),
    };
    let endpoint = match endpoint(url, 443) {
        Ok(v) => v,
        Err(e) => return Err(e),
    };
    let query = Query::new(url);
    let transport = match parse_transport(&query) {
        Ok(v) => v,
        Err(e) => return Err(e),
    };
    let security = match parse_security(&query) {
        Ok(v) => v,
        Err(e) => return Err(e),
    };
    let flow = match parse_flow(&query.get("flow")) {
        Ok(v) => v,
        Err(e) => return Err(e),
    };
    let label = label(url, "VLESS Node");
    let meta = match metadata::make_metadata(sub_id, label.as_str(), timestamp) {
        Ok(v) => v,
        Err(e) => return Err(e),
    };
    make_node(
        meta,
        endpoint,
        ProtocolSpec::Vless(VlessConfig { uuid, flow }),
        transport,
        security,
    )
}

fn or_fallback(value: &Option<String>, fallback: &str) -> (r: String)
    ensures
        r@ == or_text(text::text_of(*value), fallback@),
{
    match value {
        Some(s) => s.clone(),
        None => fallback.to_owned(),
    }
}

pub fn parse_u16(value: &WireValue, field: &'static str) -> (r: Result<u16, ParseError>)
    ensures
        (match r {
            Ok(n) => wire_u16(value@, field@) == Ok::<_, ErrorView>(n),
            Err(e) => wire_u16(value@, field@) == Err::<u16, _>(e@),
        }),
{
    let number: Option<u64> = match value {
        WireValue::Number(n) => Some(*n),
        WireValue::Text(s) => text::read_unsigned(&text::to_chars(s.as_str()), 10, u64::MAX),
        _ => None,
    };
    match number {
        None => Err(ParseError::MissingField(field)),
        Some(n) => if n <= 65535 {
            Ok(n as u16)
        } else {
            Err(invalid_value(field, text::decimal_text(n).as_str()))
        },
    }
}

pub fn parse_vmess_transport(wire: &VmessWire) -> (r: TransportSpec)
    ensures
        r@ == wire_transport(wire@),
{
    let net = or_fallback(&wire.net, "tcp");
    if text::same(net.as_str(), "ws") {
        TransportSpec::WebSocket(
            WebSocketConfig {
                path: or_fallback(&wire.path, "/"),
                host: text::copy_text(&wire.host),
                max_early_data: 0,
                early_data_header: None,
            },
        )
    } else if text::same(net.as_str(), "grpc") {
        TransportSpec::Grpc(
            GrpcConfig { service_name: or_fallback(&wire.path, ""), multi_mode: false },
        )
    } else {
        TransportSpec::Tcp
    }
}

pub fn parse_vmess_security(wire: &VmessWire) -> (r: SecuritySpec)
    ensures
        r@ == wire_security(wire@),
{
    let tls = or_fallback(&wire.tls, "");
    if text::same(tls.as_str(), "tls") {
        SecuritySpec::Tls(
            StandardTlsConfig {
                server_name: or_fallback(&wire.sni, ""),
                alpn: split_csv(&wire.alpn),
                fingerprint: parse_fingerprint(&wire.fp),
                allow_insecure: false,
            },
        )
    } else {
        SecuritySpec::Plain
    }
}

/// The node that a VMess payload describes.
pub fn parse_vmess_wire(wire: &VmessWire, sub_id: SubId, timestamp: u64) -> (r: Result<
    CanonicalNode,
    ParseError,
>)
    ensures
        error::entry_result(r) == wire_node(wire@, sub_id, timestamp),
{
    let host = match &wire.add {
        Some(v) => v,
        None => return Err(ParseError::MissingField("add")),
    };
    let port = match &wire.port {
        Some(v) => match parse_u16(v, "port") {
            Ok(n) => n,
            Err(e) => return Err(e),
        },
        None => return Err(ParseError::MissingField("port")),
    };
    let uuid = match &wire.id {
        Some(v) => match parse_uuid(v.as_str()) {
            Ok(id) => id,
            Err(e) => return Err(e),
        },
        None => return Err(ParseError::MissingField("id")),
    };
    let transport = parse_vmess_transport(wire);
    let security = parse_vmess_security(wire);
    let scy = text::lower_text(or_fallback(&wire.scy, "auto").as_str());
    let cipher = match parse_cipher("scy", scy.as_str()) {
        Ok(v) => v,
        Err(e) => return Err(e),
    };
    let label = or_fallback(&wire.ps, "VMess Node");
    let meta = match metadata::make_metadata(sub_id, label.as_str(), timestamp) {
        Ok(v) => v,
        Err(e) => return Err(e),
    };
    let endpoint = match endpoint_from_host(host.as_str(), port) {
        Ok(v) => v,
        Err(e) => return Err(e),
    };
    let alter_id: u16 = match &wire.aid {
        Some(v) => match parse_u16(v, "aid") {
            Ok(n) => n,
            Err(e) => return Err(e),
        },
        None => 0,
    };
    make_node(
        meta,
        endpoint,
        ProtocolSpec::Vmess(VmessConfig { uuid, alter_id, cipher }),
        transport,
        security,
    )
}

/// The node that a VMess document describes: its nodes, or what the reader said of
/// it.
pub fn parse_vmess_document(
    tape: &Result<Vec<JsonNode>, String>,
    sub_id: SubId,
    timestamp: u64,
) -> (r: Result<CanonicalNode, ParseError>)
    ensures
        error::entry_result(r) == vmess_document(wire::tape_result(*tape), sub_id, timestamp),
{
    match tape {
        Ok(nodes) => match wire::read_vmess(nodes) {
            Ok(w) => parse_vmess_wire(&w, sub_id, timestamp),
            Err(e) => Err(ParseError::Json(e)),
        },
        Err(e) => Err(ParseError::Json(e.clone())),
    }
}

fn parse_vmess(url: &UrlParts, sub_id: SubId, timestamp: u64) -> (r: Result<
    CanonicalNode,
    ParseError,
>)
    ensures
        exists|fault: Seq<char>|
            error::entry_result(r) == #[trigger] vmess_node(url@, sub_id, timestamp, fault),
{
    let payload = match &url.host {
        Some(host) => host.clone(),
        None => without_slashes(url.path.as_str()),
    };
    let ghost quiet = vmess_node(url@, sub_id, timestamp, Seq::empty());
    if text::to_chars(payload.as_str()).len() == 0 {
        let r: Result<CanonicalNode, ParseError> = Err(ParseError::MissingField("vmess payload"));
        assert(error::entry_result(r) == quiet);
        return r;
    }
    let bytes = match crate::parser::format::decode_bundle(payload.as_str().as_bytes()) {
        Ok(v) => v,
        Err(e) => {
            let r: Result<CanonicalNode, ParseError> = Err(ParseError::Base64Decode(e));
            assert(error::entry_result(r) == quiet);
            return r;
        },
    };
    let tape = wire::read_json(bytes.as_slice());
    let r = parse_vmess_document(&tape, sub_id, timestamp);
    proof {
        let fault = match tape {
            Ok(_) => Seq::empty(),
            Err(e) => e@,
        };
        assert(error::entry_result(r) == vmess_node(url@, sub_id, timestamp, fault));
    }
    r
}

fn without_slashes(s: &str) -> (r: String)
    ensures
        r@ == strip_slashes(s@),
{
    let chars = text::to_chars(s);
    let mut i: usize = 0;
    assert(chars@.skip(0) =~= chars@);
    while i < chars.len() && chars[i] == '/'
        invariant
            i <= chars@.len(),
            strip_slashes(chars@) == strip_slashes(chars@.skip(i as int)),
        decreases chars@.len() - i,
    {
        assert(chars@.skip(i as int).drop_first() =~= chars@.skip(i + 1));
        i += 1;
    }
    let rest = vstd::slice::slice_subrange(&chars, i, chars.len());
    assert(rest@ =~= chars@.skip(i as int));
    text::from_chars(rest)
}

fn parse_trojan(url: &UrlParts, sub_id: SubId, timestamp: u64) -> (r: Result<
    CanonicalNode,
    ParseError,
>)
    ensures
        error::entry_result(r) == trojan_node(url@, sub_id, timestamp),
{
    let password = match password_of(url) {
        Ok(v) => v,
        Err(e) => return Err(e),
    };
    let query = Query::new(url);
    let label = label(url, "Trojan Node");
    let meta = match metadata::make_metadata(sub_id, label.as_str(), timestamp) {
        Ok(v) => v,
        Err(e) => return Err(e),
    };
    let endpoint = match endpoint(url, 443) {
        Ok(v) => v,
        Err(e) => return Err(e),
    };
    let transport = match parse_transport(&query) {
        Ok(v) => v,
        Err(e) => return Err(e),
    };
    let security = match parse_security(&query) {
        Ok(v) => v,
        Err(e) => return Err(e),
    };
    make_node(
        meta,
        endpoint,
        ProtocolSpec::Trojan(TrojanConfig { password }),
        transport,
        security,
    )
}

fn split_plugin(value: Option<String>) -> (r: (Option<String>, Option<String>))
    ensures
        (text::text_of(r.0), text::text_of(r.1)) == plugin_of(text::text_of(value)),
{
    match value {
        None => (None, None),
        Some(s) => {
            let chars = text::to_chars(s.as_str());
            let mark = text::to_chars(";");
            match text::split_once_chars(&chars, &mark) {
                Some((name, options)) => (
                    Some(text::from_chars(name)),
                    Some(text::from_chars(options)),
                ),
                None => (Some(s), None),
            }
        },
    }
}

fn parse_shadowsocks(url: &UrlParts, sub_id: SubId, timestamp: u64) -> (r: Result<
    CanonicalNode,
    ParseError,
>)
    ensures
        error::entry_result(r) == shadowsocks_node(url@, sub_id, timestamp),
{
    let decoded = match crate::parser::format::decode_bundle(url.username.as_str().as_bytes()) {
        Ok(v) => v,
        Err(e) => return Err(ParseError::Base64Decode(e)),
    };
    let credentials = match text::from_utf8(decoded.as_slice()) {
        Ok(v) => v,
        Err(_) => return Err(invalid_value("credentials", "invalid UTF-8")),
    };
    let chars = text::to_chars(credentials.as_str());
    let mark = text::to_chars(":");
    let (name, password) = match text::split_once_chars(&chars, &mark) {
        Some((name, password)) => (text::from_chars(name), text::from_chars(password)),
        None => return Err(ParseError::MissingField("method/password")),
    };
    let method = match parse_ss_method(name.as_str()) {
        Ok(v) => v,
        Err(e) => return Err(e),
    };
    let endpoint = match endpoint(url, 0) {
        Ok(v) => v,
        Err(e) => return Err(e),
    };
    let query = Query::new(url);
    let label = label(url, "Shadowsocks Node");
    let meta = match metadata::make_metadata(sub_id, label.as_str(), timestamp) {
        Ok(v) => v,
        Err(e) => return Err(e),
    };
    let (plugin, plugin_opts) = split_plugin(query.get("plugin"));
    make_node(
        meta,
        endpoint,
        ProtocolSpec::Shadowsocks(ShadowsocksConfig { method, password, plugin, plugin_opts }),
        TransportSpec::Tcp,
        SecuritySpec::Plain,
    )
}

fn parse_hysteria2(url: &UrlParts, sub_id: SubId, timestamp: u64) -> (r: Result<
    CanonicalNode,
    ParseError,
>)
    ensures
        error::entry_result(r) == hysteria2_node(url@, sub_id, timestamp),
{
    let password = match password_of(url) {
        Ok(v) => v,
        Err(e) => return Err(e),
    };
    let query = Query::new(url);
    let obfs = match query.get("obfs") {
        Some(obfs_type) => Some(
            Hysteria2Obfs { obfs_type, password: query.get_or("obfs-password", "") },
        ),
        None => None,
    };
    let label = label(url, "Hysteria2 Node");
    let meta = match metadata::make_metadata(sub_id, label.as_str(), timestamp) {
        Ok(v) => v,
        Err(e) => return Err(e),
    };
    let endpoint = match endpoint(url, 443) {
        Ok(v) => v,
        Err(e) => return Err(e),
    };
    make_node(
        meta,
        endpoint,
        ProtocolSpec::Hysteria2(
            Hysteria2Config {
                password,
                up_mbps: number_of(&query.get("up")),
                down_mbps: number_of(&query.get("down")),
                obfs,
                port_hopping: query.get("mport"),
            },
        ),
        TransportSpec::Tcp,
        SecuritySpec::Plain,
    )
}

fn parse_tuic(url: &UrlParts, sub_id: SubId, timestamp: u64) -> (r: Result<
    CanonicalNode,
    ParseError,
>)
    ensures
        error::entry_result(r) == tuic_node(url@, sub_id, timestamp),
{
    let uuid = match parse_uuid(url.username.as_str()) {
        Ok(v) => v,
        Err(e) => return Err(e),
    };
    let password = or_fallback(&url.password, "");
    let query = Query::new(url);
    let congestion = query.get_or("congestion_control", "cubic");
    let congestion_control = match parse_congestion("congestion_control", congestion.as_str()) {
        Ok(v) => v,
        Err(e) => return Err(e),
    };
    let relay = query.get_or("udp_relay_mode", "native");
    let udp_relay_mode = match parse_relay("udp_relay_mode", relay.as_str()) {
        Ok(v) => v,
        Err(e) => return Err(e),
    };
    let label = label(url, "TUIC Node");
    let meta = match metadata::make_metadata(sub_id, label.as_str(), timestamp) {
        Ok(v) => v,
        Err(e) => return Err(e),
    };
    let endpoint = match endpoint(url, 443) {
        Ok(v) => v,
        Err(e) => return Err(e),
    };
    make_node(
        meta,
        endpoint,
        ProtocolSpec::Tuic(
            TuicConfig {
                uuid,
                password,
                congestion_control,
                udp_relay_mode,
                zero_rtt_handshake: query.is("zero_rtt_handshake", "true"),
            },
        ),
        TransportSpec::Tcp,
        SecuritySpec::Plain,
    )
}

/// The node that a URI with the given parts describes.
pub fn parse_url(url: &UrlParts, sub_id: SubId, timestamp: u64) -> (r: Result<
    CanonicalNode,
    ParseError,
>)
    ensures
        exists|fault: Seq<char>|
            error::entry_result(r) == #[trigger] url_node(url@, sub_id, timestamp, fault),
{
    let scheme = url.scheme.as_str();
    if text::same(scheme, "vmess") {
        let r = parse_vmess(url, sub_id, timestamp);
        proof {
            reveal_strlit("vless");
            reveal_strlit("vmess");
            assert("vless"@[1] != "vmess"@[1]);
            let fault = choose|fault: Seq<char>|
                error::entry_result(r) == #[trigger] vmess_node(url@, sub_id, timestamp, fault);
            assert(error::entry_result(r) == url_node(url@, sub_id, timestamp, fault));
        }
        return r;
    }
    let ghost quiet = url_node(url@, sub_id, timestamp, Seq::empty());
    if text::same(scheme, "vless") {
        parse_vless(url, sub_id, timestamp)
    } else if text::same(scheme, "trojan") {
        parse_trojan(url, sub_id, timestamp)
    } else if text::same(scheme, "ss") {
        parse_shadowsocks(url, sub_id, timestamp)
    } else if text::same(scheme, "hysteria2") || text::same(scheme, "hy2") {
        parse_hysteria2(url, sub_id, timestamp)
    } else if text::same(scheme, "tuic") {
        parse_tuic(url, sub_id, timestamp)
    } else {
        Err(ParseError::UnsupportedFormat(scheme.to_owned()))
    }
}

/// The node that an entry describes.
pub fn parse_entry(raw: &str, sub_id: SubId, timestamp: u64) -> (r: Result<
    CanonicalNode,
    ParseError,
>)
    ensures
        exists|fault: Seq<char>|
            error::entry_result(r) == #[trigger] entry_node(raw@, sub_id, timestamp, fault),
{
    proof {
        reveal(entry_node);
    }
    match read_url(raw) {
        Ok(url) => {
            let r = parse_url(&url, sub_id, timestamp);
            proof {
                let fault = choose|fault: Seq<char>|
                    error::entry_result(r) == #[trigger] url_node(url@, sub_id, timestamp, fault);
                assert(error::entry_result(r) == entry_node(raw@, sub_id, timestamp, fault));
            }
            r
        },
        Err(e) => {
            let r: Result<CanonicalNode, ParseError> = Err(ParseError::InvalidUri(e));
            assert(error::entry_result(r) == entry_node(raw@, sub_id, timestamp, Seq::empty()));
            r
        },
    }
}

} // verus!
