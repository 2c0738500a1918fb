//! Clash and Clash Meta documents: a list of proxies in YAML.
use crate::ir::node::{CanonicalNode, EndpointTarget, EndpointView, NodeView, SubId};
use crate::ir::protocol::{
    Hysteria2Config, Hysteria2Obfs, ProtocolSpec, ShadowsocksConfig, TrojanConfig, TuicConfig,
    VlessConfig, VmessConfig,
};
use crate::ir::transport::{
    GrpcConfig, HttpUpgradeConfig, RealityConfig, SecuritySpec, StandardTlsConfig, TransportSpec,
    WebSocketConfig,
};
use crate::parser::error;
use crate::parser::error::{ErrorView, ParseError};
use crate::parser::metadata;
use crate::parser::uri;
use crate::parser::yaml;
use crate::parser::yaml::{Yaml, YamlView};
use crate::text;
use vstd::prelude::*;
use vstd::string::*;

verus! {

// ---------------------------------------------------------------------------
// Model
// ---------------------------------------------------------------------------

/// A member as a number of 16 bits, where it is there.
pub open spec fn u16_member(item: YamlView, key: Seq<char>) -> Result<Option<u16>, ErrorView> {
    match yaml::member(item, key) {
        None => Ok(None),
        Some(value) => match yaml::number_of(value) {
            Some(n) if n <= 65535 => Ok(Some(n as u16)),
            _ => Err(uri::invalid(key, yaml::shown(value))),
        },
    }
}

/// A member as a number of 32 bits, where it is one.
pub open spec fn u32_member(item: YamlView, key: Seq<char>) -> Option<u32> {
    match yaml::member(item, key) {
        None => None,
        Some(value) => match yaml::number_of(value) {
            Some(n) if n <= u32::MAX => Some(n as u32),
            _ => None,
        },
    }
}

pub open spec fn item_endpoint(item: YamlView) -> Result<EndpointView, ErrorView> {
    match yaml::text_at(item, "server"@) {
        None => Err(ParseError::MissingField("server"@)),
        Some(host) => match u16_member(item, "port"@) {
            Err(e) => Err(e),
            Ok(None) => Err(ParseError::MissingField("port"@)),
            Ok(Some(port)) => uri::host_endpoint(host, port),
        },
    }
}

pub open spec fn item_label(item: YamlView) -> Result<Seq<char>, ErrorView> {
    match yaml::text_at(item, "name"@) {
        None => Err(ParseError::MissingField("name"@)),
        Some(name) => Ok(name),
    }
}

/// The path in the transport options, under either of its names.
pub open spec fn options_path(item: YamlView) -> Option<Seq<char>> {
    let options = yaml::member(item, "ws-opts"@);
    match yaml::member_of(options, "path"@) {
        Some(v) => Some(yaml::shown(v)),
        None => match yaml::member_of(options, "serviceName"@) {
            Some(v) => Some(yaml::shown(v)),
            None => None,
        },
    }
}

/// The host header in the transport options.
pub open spec fn options_host(item: YamlView) -> Option<Seq<char>> {
    let headers = yaml::member_of(yaml::member(item, "ws-opts"@), "headers"@);
    match yaml::member_of(headers, "Host"@) {
        Some(v) => Some(yaml::shown(v)),
        None => None,
    }
}

pub open spec fn item_transport(item: YamlView) -> Result<TransportSpec<Seq<char>>, ErrorView> {
    let network = uri::or_text(yaml::text_at(item, "network"@), "tcp"@);
    let path = options_path(item);
    let host = options_host(item);
    if network == "tcp"@ || network == ""@ {
        Ok(TransportSpec::Tcp)
    } else if network == "ws"@ {
        Ok(
            TransportSpec::WebSocket(
                WebSocketConfig {
                    path: uri::or_text(path, "/"@),
                    host,
                    max_early_data: 0,
                    early_data_header: None,
                },
            ),
        )
    } else if network == "grpc"@ {
        Ok(
            TransportSpec::Grpc(
                GrpcConfig { service_name: uri::or_text(path, ""@), multi_mode: false },
            ),
        )
    } else if network == "httpupgrade"@ {
        Ok(
            TransportSpec::HttpUpgrade(
                HttpUpgradeConfig { path: uri::or_text(path, "/"@), host },
            ),
        )
    } else {
        Err(uri::invalid("network"@, network))
    }
}

/// The value of the first of two members that is there.
pub open spec fn either_text(item: YamlView, first: Seq<char>, second: Seq<char>) -> Option<
    Seq<char>,
> {
    match yaml::text_at(item, first) {
        Some(s) => Some(s),
        None => yaml::text_at(item, second),
    }
}

pub open spec fn or_bool(b: Option<bool>, fallback: bool) -> bool {
    match b {
        Some(v) => v,
        None => fallback,
    }
}

/// The protocols that a list names.
pub open spec fn item_alpn(item: YamlView) -> Seq<Seq<char>> {
    match yaml::member(item, "alpn"@) {
        Some(list) => yaml::sequence_texts(list),
        None => Seq::empty(),
    }
}

/// The transport security of an item; `by_default` says whether TLS is on where
/// the item does not say.
pub open spec fn item_security(item: YamlView, by_default: bool) -> Result<
    SecuritySpec<Seq<char>, Seq<Seq<char>>>,
    ErrorView,
> {
    let server_name = uri::or_text(either_text(item, "servername"@, "sni"@), ""@);
    let fingerprint = uri::fingerprint(yaml::text_at(item, "client-fingerprint"@));
    match yaml::member(item, "reality-opts"@) {
        Some(reality) => match either_text(reality, "public-key"@, "public_key"@) {
            None => Err(ParseError::MissingField("public-key"@)),
            Some(public_key) => Ok(
                SecuritySpec::Reality(
                    RealityConfig {
                        server_name: if server_name.len() == 0 {
                            uri::or_text(yaml::text_at(item, "server"@), ""@)
                        } else {
                            server_name
                        },
                        public_key,
                        short_id: uri::or_text(
                            either_text(reality, "short-id"@, "short_id"@),
                            ""@,
                        ),
                        spider_x: either_text(reality, "spider-x"@, "spider_x"@),
                        fingerprint,
                    },
                ),
            ),
        },
        None => if or_bool(yaml::bool_at(item, "tls"@), by_default) || server_name.len() > 0 {
            Ok(
                SecuritySpec::Tls(
                    StandardTlsConfig {
                        server_name,
                        alpn: item_alpn(item),
                        fingerprint,
                        allow_insecure: or_bool(yaml::bool_at(item, "allow-insecure"@), false),
                    },
                ),
            )
        } else {
            Ok(SecuritySpec::Plain)
        },
    }
}

pub open spec fn item_vmess_security(item: YamlView) -> SecuritySpec<Seq<char>, Seq<Seq<char>>> {
    if or_bool(yaml::bool_at(item, "tls"@), false) {
        SecuritySpec::Tls(
            StandardTlsConfig {
                server_name: uri::or_text(yaml::text_at(item, "servername"@), ""@),
                alpn: item_alpn(item),
                fingerprint: uri::fingerprint(yaml::text_at(item, "client-fingerprint"@)),
                allow_insecure: or_bool(yaml::bool_at(item, "allow-insecure"@), false),
            },
        )
    } else {
        SecuritySpec::Plain
    }
}

pub open spec fn ss_item(item: YamlView, sub_id: SubId, timestamp: u64) -> Result<
    NodeView,
    ErrorView,
> {
    match uri::method_of(uri::or_text(yaml::text_at(item, "cipher"@), ""@)) {
        Err(e) => Err(e),
        Ok(method) => match item_label(item) {
            Err(e) => Err(e),
            Ok(label) => match item_endpoint(item) {
                Err(e) => Err(e),
                Ok(endpoint) => uri::made_node(
                    metadata::metadata(sub_id, label, timestamp),
                    endpoint,
                    ProtocolSpec::Shadowsocks(
                        ShadowsocksConfig {
                            method,
                            password: uri::or_text(yaml::text_at(item, "password"@), ""@),
                            plugin: None,
                            plugin_opts: None,
                        },
                    ),
                    TransportSpec::Tcp,
                    SecuritySpec::Plain,
                ),
            },
        },
    }
}

pub open spec fn vmess_item(item: YamlView, sub_id: SubId, timestamp: u64) -> Result<
    NodeView,
    ErrorView,
> {
    match uri::uuid_of(uri::or_text(yaml::text_at(item, "uuid"@), ""@)) {
        Err(e) => Err(e),
        Ok(uuid) => match u16_member(item, "alterId"@) {
            Err(e) => Err(e),
            Ok(aid) => match uri::cipher_of(
                "cipher"@,
                uri::or_text(yaml::text_at(item, "cipher"@), "auto"@),
            ) {
                Err(e) => Err(e),
                Ok(cipher) => match item_label(item) {
                    Err(e) => Err(e),
                    Ok(label) => match item_endpoint(item) {
                        Err(e) => Err(e),
                        Ok(endpoint) => match item_transport(item) {
                            Err(e) => Err(e),
                            Ok(transport) => uri::made_node(
                                metadata::metadata(sub_id, label, timestamp),
                                endpoint,
                                ProtocolSpec::Vmess(
                                    VmessConfig {
                                        uuid,
                                        alter_id: match aid {
                                            Some(n) => n,
                                            None => 0,
                                        },
                                        cipher,
                                    },
                                ),
                                transport,
                                item_vmess_security(item),
                            ),
                        },
                    },
                },
            },
        },
    }
}

pub open spec fn trojan_item(item: YamlView, sub_id: SubId, timestamp: u64) -> Result<
    NodeView,
    ErrorView,
> {
    let password = uri::or_text(yaml::text_at(item, "password"@), ""@);
    if password.len() == 0 {
        Err(ParseError::MissingField("password"@))
    } else {
        match item_label(item) {
            Err(e) => Err(e),
            Ok(label) => match item_endpoint(item) {
                Err(e) => Err(e),
                Ok(endpoint) => match item_transport(item) {
                    Err(e) => Err(e),
                    Ok(transport) => match item_security(item, true) {
                        Err(e) => Err(e),
                        Ok(security) => uri::made_node(
                            metadata::metadata(sub_id, label, timestamp),
                            endpoint,
                            ProtocolSpec::Trojan(TrojanConfig { password }),
                            transport,
                            security,
                        ),
                    },
                },
            },
        }
    }
}

pub open spec fn vless_item(item: YamlView, sub_id: SubId, timestamp: u64) -> Result<
    NodeView,
    ErrorView,
> {
    match uri::uuid_of(uri::or_text(yaml::text_at(item, "uuid"@), ""@)) {
        Err(e) => Err(e),
        Ok(uuid) => match uri::flow_of(yaml::text_at(item, "flow"@)) {
            Err(e) => Err(e),
            Ok(flow) => match item_label(item) {
                Err(e) => Err(e),
                Ok(label) => match item_endpoint(item) {
                    Err(e) => Err(e),
                    Ok(endpoint) => match item_transport(item) {
                        Err(e) => Err(e),
                        Ok(transport) => match item_security(item, false) {
                            Err(e) => Err(e),
                            Ok(security) => uri::made_node(
                                metadata::metadata(sub_id, label, timestamp),
                                endpoint,
                                ProtocolSpec::Vless(VlessConfig { uuid, flow }),
                                transport,
                                security,
                            ),
                        },
                    },
                },
            },
        },
    }
}

pub open spec fn hysteria2_item(item: YamlView, sub_id: SubId, timestamp: u64) -> Result<
    NodeView,
    ErrorView,
> {
    let password = uri::or_text(yaml::text_at(item, "password"@), ""@);
    if password.len() == 0 {
        Err(ParseError::MissingField("password"@))
    } else {
        match item_label(item) {
            Err(e) => Err(e),
            Ok(label) => match item_endpoint(item) {
                Err(e) => Err(e),
                Ok(endpoint) => uri::made_node(
                    metadata::metadata(sub_id, label, timestamp),
                    endpoint,
                    ProtocolSpec::Hysteria2(
                        Hysteria2Config {
                            password,
                            up_mbps: u32_member(item, "up"@),
                            down_mbps: u32_member(item, "down"@),
                            obfs: match yaml::text_at(item, "obfs"@) {
                                Some(obfs_type) => Some(
                                    Hysteria2Obfs {
                                        obfs_type,
                                        password: uri::or_text(
                                            yaml::text_at(item, "obfs-password"@),
                                            ""@,
                                        ),
                                    },
                                ),
                                None => None,
                            },
                            port_hopping: yaml::text_at(item, "ports"@),
                        },
                    ),
                    TransportSpec::Tcp,
                    SecuritySpec::Plain,
                ),
            },
        }
    }
}

pub open spec fn tuic_item(item: YamlView, sub_id: SubId, timestamp: u64) -> Result<
    NodeView,
    ErrorView,
> {
    match uri::uuid_of(uri::or_text(yaml::text_at(item, "uuid"@), ""@)) {
        Err(e) => Err(e),
        Ok(uuid) => match uri::congestion_of(
            "congestion-controller"@,
            uri::or_text(yaml::text_at(item, "congestion-controller"@), "cubic"@),
        ) {
            Err(e) => Err(e),
            Ok(congestion_control) => match uri::relay_of(
                "udp-relay-mode"@,
                uri::or_text(yaml::text_at(item, "udp-relay-mode"@), "native"@),
            ) {
                Err(e) => Err(e),
                Ok(udp_relay_mode) => match item_label(item) {
                    Err(e) => Err(e),
                    Ok(label) => match item_endpoint(item) {
                        Err(e) => Err(e),
                        Ok(endpoint) => uri::made_node(
                            metadata::metadata(sub_id, label, timestamp),
                            endpoint,
                            ProtocolSpec::Tuic(
                                TuicConfig {
                                    uuid,
                                    password: uri::or_text(yaml::text_at(item, "password"@), ""@),
                                    congestion_control,
                                    udp_relay_mode,
                                    zero_rtt_handshake: or_bool(
                                        yaml::bool_at(item, "zero-rtt-handshake"@),
                                        false,
                                    ),
                                },
                            ),
                            TransportSpec::Tcp,
                            SecuritySpec::Plain,
                        ),
                    },
                },
            },
        },
    }
}

/// The node that a proxy item describes.
#[verifier::opaque]
pub open spec fn item_node(item: YamlView, sub_id: SubId, timestamp: u64) -> Result<
    NodeView,
    ErrorView,
> {
    let name = uri::or_text(yaml::text_at(item, "name"@), "Unnamed Proxy"@);
    let kind = uri::or_text(yaml::text_at(item, "type"@), ""@);
    if kind == "ss"@ {
        ss_item(item, sub_id, timestamp)
    } else if kind == "vmess"@ {
        vmess_item(item, sub_id, timestamp)
    } else if kind == "trojan"@ {
        trojan_item(item, sub_id, timestamp)
    } else if kind == "vless"@ {
        vless_item(item, sub_id, timestamp)
    } else if kind == "hysteria2"@ {
        hysteria2_item(item, sub_id, timestamp)
    } else if kind == "tuic"@ {
        tuic_item(item, sub_id, timestamp)
    } else if kind == ""@ {
        Err(ParseError::MissingField("type"@))
    } else {
        Err(
            ParseError::UnsupportedFormat(
                "Clash proxy type `"@ + kind + "` ("@ + name + ") is not supported"@,
            ),
        )
    }
}

/// The nodes of a document: one outcome for each proxy item.
pub open spec fn document_nodes(document: YamlView, sub_id: SubId, timestamp: u64) -> Result<
    Seq<Result<NodeView, ErrorView>>,
    ErrorView,
> {
    match yaml::member(document, "proxies"@) {
        Some(list) => match yaml::untagged(list) {
            YamlView::Sequence(items) => Ok(
                items.map_values(|item: YamlView| item_node(item, sub_id, timestamp)),
            ),
            _ => Err(ParseError::MissingField("proxies"@)),
        },
        None => Err(ParseError::MissingField("proxies"@)),
    }
}

/// The nodes of a document in a text.
#[verifier::opaque]
pub open spec fn clash_nodes(raw: Seq<char>, sub_id: SubId, timestamp: u64) -> Result<
    Seq<Result<NodeView, ErrorView>>,
    ErrorView,
> {
    match yaml::yaml_document(raw) {
        Err(e) => Err(ParseError::Json("Clash YAML: "@ + e)),
        Ok(document) => document_nodes(document, sub_id, timestamp),
    }
}

pub open spec fn outcomes_view(s: Seq<Result<CanonicalNode, ParseError>>) -> Seq<
    Result<NodeView, ErrorView>,
> {
    s.map_values(|r: Result<CanonicalNode, ParseError>| error::entry_result(r))
}

pub open spec fn document_result(
    r: Result<Vec<Result<CanonicalNode, ParseError>>, ParseError>,
) -> Result<Seq<Result<NodeView, ErrorView>>, ErrorView> {
    match r {
        Ok(v) => Ok(outcomes_view(v@)),
        Err(e) => Err(e@),
    }
}

// ---------------------------------------------------------------------------
// Executable forms
// ---------------------------------------------------------------------------

fn text_or(item: &Yaml, key: &str, fallback: &str) -> (r: String)
    ensures
        r@ == uri::or_text(yaml::text_at(item@, key@), fallback@),
{
    match item.string_at(key) {
        Some(s) => s,
        None => fallback.to_owned(),
    }
}

fn bool_or(item: &Yaml, key: &str, fallback: bool) -> (r: bool)
    ensures
        r == or_bool(yaml::bool_at(item@, key@), fallback),
{
    match item.bool_at(key) {
        Some(b) => b,
        None => fallback,
    }
}

fn either(item: &Yaml, first: &str, second: &str) -> (r: Option<String>)
    ensures
        text::text_of(r) == either_text(item@, first@, second@),
{
    match item.string_at(first) {
        Some(s) => Some(s),
        None => item.string_at(second),
    }
}

fn is_empty(s: &String) -> (r: bool)
    ensures
        r == (s@.len() == 0),
{
    text::to_chars(s.as_str()).len() == 0
}

/// A member as a number of 16 bits, where it is there.
pub fn u16_at(item: &Yaml, key: &'static str) -> (r: Result<Option<u16>, ParseError>)
    ensures
        (match r {
            Ok(n) => u16_member(item@, key@) == Ok::<_, ErrorView>(n),
            Err(e) => u16_member(item@, key@) == Err::<Option<u16>, _>(e@),
        }),
{
    match item.get(key) {
        None => Ok(None),
        Some(value) => match value.number() {
            Some(n) if n <= 65535 => Ok(Some(n as u16)),
            _ => Err(uri::invalid_value(key, value.to_text().as_str())),
        },
    }
}

/// A member as a number of 32 bits, where it is one.
fn u32_at(item: &Yaml, key: &str) -> (r: Option<u32>)
    ensures
        r == u32_member(item@, key@),
{
    match item.get(key) {
        None => None,
        Some(value) => match value.number() {
            Some(n) if n <= u32::MAX as u64 => Some(n as u32),
            _ => None,
        },
    }
}

fn endpoint(item: &Yaml) -> (r: Result<EndpointTarget, ParseError>)
    ensures
        uri::endpoint_outcome(r) == item_endpoint(item@),
{
    let host = match item.string_at("server") {
        Some(s) => s,
        None => return Err(ParseError::MissingField("server")),
    };
    match u16_at(item, "port") {
        Err(e) => Err(e),
        Ok(None) => Err(ParseError::MissingField("port")),
        Ok(Some(port)) => uri::endpoint_from_host(host.as_str(), port),
    }
}

fn label_of(item: &Yaml) -> (r: Result<String, ParseError>)
    ensures
        (match r {
            Ok(s) => item_label(item@) == Ok::<_, ErrorView>(s@),
            Err(e) => item_label(item@) == Err::<Seq<char>, _>(e@),
        }),
{
    match item.string_at("name") {
        Some(s) => Ok(s),
        None => Err(ParseError::MissingField("name")),
    }
}

fn path_of(item: &Yaml) -> (r: Option<String>)
    ensures
        text::text_of(r) == options_path(item@),
{
    match item.get("ws-opts") {
        None => None,
        Some(options) => either(options, "path", "serviceName"),
    }
}

fn host_of(item: &Yaml) -> (r: Option<String>)
    ensures
        text::text_of(r) == options_host(item@),
{
    match item.get("ws-opts") {
        None => None,
        Some(options) => match options.get("headers") {
            None => None,
            Some(headers) => headers.string_at("Host"),
        },
    }
}

fn or_default(value: Option<String>, fallback: &str) -> (r: String)
    ensures
        r@ == uri::or_text(text::text_of(value), fallback@),
{
    match value {
        Some(s) => s,
        None => fallback.to_owned(),
    }
}

/// The transport of an item.
pub fn parse_transport(item: &Yaml) -> (r: Result<TransportSpec, ParseError>)
    ensures
        (match r {
            Ok(t) => item_transport(item@) == Ok::<_, ErrorView>(t@),
            Err(e) => item_transport(item@) == Err::<TransportSpec<Seq<char>>, _>(e@),
        }),
{
    let network = text_or(item, "network", "tcp");
    let path = path_of(item);
    let host = host_of(item);
    let kind = network.as_str();
    if text::same(kind, "tcp") || text::same(kind, "") {
        Ok(TransportSpec::Tcp)
    } else if text::same(kind, "ws") {
        Ok(
            TransportSpec::WebSocket(
                WebSocketConfig {
                    path: or_default(path, "/"),
                    host,
                    max_early_data: 0,
                    early_data_header: None,
                },
            ),
        )
    } else if text::same(kind, "grpc") {
        Ok(
            TransportSpec::Grpc(
                GrpcConfig { service_name: or_default(path, ""), multi_mode: false },
            ),
        )
    } else if text::same(kind, "httpupgrade") {
        Ok(
            TransportSpec::HttpUpgrade(HttpUpgradeConfig { path: or_default(path, "/"), host }),
        )
    } else {
        Err(uri::invalid_value("network", kind))
    }
}

fn alpn(item: &Yaml) -> (r: Vec<String>)
    ensures
        text::texts_of(r@) == item_alpn(item@),
{
    match item.get("alpn") {
        Some(list) => list.texts(),
        None => {
            let none: Vec<String> = Vec::new();
            assert(text::texts_of(none@) =~= Seq::<Seq<char>>::empty());
            none
        },
    }
}

/// The transport security of an item.
pub fn parse_security(item: &Yaml, by_default: bool) -> (r: Result<SecuritySpec, ParseError>)
    ensures
        (match r {
            Ok(s) => item_security(item@, by_default) == Ok::<_, ErrorView>(s@),
            Err(e) => item_security(item@, by_default) == Err::<
                SecuritySpec<Seq<char>, Seq<Seq<char>>>,
                _,
            >(e@),
        }),
{
    let server_name = or_default(either(item, "servername", "sni"), "");
    let fingerprint = uri::parse_fingerprint(&item.string_at("client-fingerprint"));
    if let Some(reality) = item.get("reality-opts") {
        let public_key = match either(reality, "public-key", "public_key") {
            Some(s) => s,
            None => return Err(ParseError::MissingField("public-key")),
        };
        let short_id = or_default(either(reality, "short-id", "short_id"), "");
        let server_name = if is_empty(&server_name) {
            text_or(item, "server", "")
        } else {
            server_name
        };
        return Ok(
            SecuritySpec::Reality(
                RealityConfig {
                    server_name,
                    public_key,
                    short_id,
                    spider_x: either(reality, "spider-x", "spider_x"),
                    fingerprint,
                },
            ),
        );
    }
    if bool_or(item, "tls", by_default) || !is_empty(&server_name) {
        Ok(
            SecuritySpec::Tls(
                StandardTlsConfig {
                    server_name,
                    alpn: alpn(item),
                    fingerprint,
                    allow_insecure: bool_or(item, "allow-insecure", false),
                },
            ),
        )
    } else {
        Ok(SecuritySpec::Plain)
    }
}

fn parse_vmess_security(item: &Yaml) -> (r: SecuritySpec)
    ensures
        r@ == item_vmess_security(item@),
{
    if !bool_or(item, "tls", false) {
        return SecuritySpec::Plain;
    }
    SecuritySpec::Tls(
        StandardTlsConfig {
            server_name: text_or(item, "servername", ""),
            alpn: alpn(item),
            fingerprint: uri::parse_fingerprint(&item.string_at("client-fingerprint")),
            allow_insecure: bool_or(item, "allow-insecure", false),
        },
    )
}

fn parse_ss(item: &Yaml, sub_id: SubId, timestamp: u64) -> (r: Result<CanonicalNode, ParseError>)
    ensures
        error::entry_result(r) == ss_item(item@, sub_id, timestamp),
{
    let method = match uri::parse_ss_method(text_or(item, "cipher", "").as_str()) {
        Ok(v) => v,
        Err(e) => return Err(e),
    };
    let password = text_or(item, "password", "");
    let label = match label_of(item) {
        Ok(v) => v,
        Err(e) => return Err(e),
    };
    let meta = match metadata::make_metadata(sub_id, label.as_str(), timestamp) {
        Ok(v) => v,
        Err(e) => return Err(e),
    };
    let endpoint = match endpoint(item) {
        Ok(v) => v,
        Err(e) => return Err(e),
    };
    uri::make_node(
        meta,
        endpoint,
        ProtocolSpec::Shadowsocks(
            ShadowsocksConfig { method, password, plugin: None, plugin_opts: None },
        ),
        TransportSpec::Tcp,
        SecuritySpec::Plain,
    )
}

fn parse_vmess(item: &Yaml, sub_id: SubId, timestamp: u64) -> (r: Result<
    CanonicalNode,
    ParseError,
>)
    ensures
        error::entry_result(r) == vmess_item(item@, sub_id, timestamp),
{
    let uuid = match uri::parse_uuid(text_or(item, "uuid", "").as_str()) {
        Ok(v) => v,
        Err(e) => return Err(e),
    };
    let alter_id: u16 = match u16_at(item, "alterId") {
        Ok(Some(n)) => n,
        Ok(None) => 0,
        Err(e) => return Err(e),
    };
    let cipher = match uri::parse_cipher("cipher", text_or(item, "cipher", "auto").as_str()) {
        Ok(v) => v,
        Err(e) => return Err(e),
    };
    let label = match label_of(item) {
        Ok(v) => v,
        Err(e) => return Err(e),
    };
    let meta = match metadata::make_metadata(sub_id, label.as_str(), timestamp) {
        Ok(v) => v,
        Err(e) => return Err(e),
    };
    let endpoint = match endpoint(item) {
        Ok(v) => v,
        Err(e) => return Err(e),
    };
    let transport = match parse_transport(item) {
        Ok(v) => v,
        Err(e) => return Err(e),
    };
    uri::make_node(
        meta,
        endpoint,
        ProtocolSpec::Vmess(VmessConfig { uuid, alter_id, cipher }),
        transport,
        parse_vmess_security(item),
    )
}

fn parse_trojan(item: &Yaml, sub_id: SubId, timestamp: u64) -> (r: Result<
    CanonicalNode,
    ParseError,
>)
    ensures
        error::entry_result(r) == trojan_item(item@, sub_id, timestamp),
{
    let password = text_or(item, "password", "");
    if is_empty(&password) {
        return Err(ParseError::MissingField("password"));
    }
    let label = match label_of(item) {
        Ok(v) => v,
        Err(e) => return Err(e),
    };
    let meta = match metadata::make_metadata(sub_id, label.as_str(), timestamp) {
        Ok(v) => v,
        Err(e) => return Err(e),
    };
    let endpoint = match endpoint(item) {
        Ok(v) => v,
        Err(e) => return Err(e),
    };
    let transport = match parse_transport(item) {
        Ok(v) => v,
        Err(e) => return Err(e),
    };
    let security = match parse_security(item, true) {
        Ok(v) => v,
        Err(e) => return Err(e),
    };
    uri::make_node(
        meta,
        endpoint,
        ProtocolSpec::Trojan(TrojanConfig { password }),
        transport,
        security,
    )
}

fn parse_vless(item: &Yaml, sub_id: SubId, timestamp: u64) -> (r: Result<
    CanonicalNode,
    ParseError,
>)
    ensures
        error::entry_result(r) == vless_item(item@, sub_id, timestamp),
{
    let uuid = match uri::parse_uuid(text_or(item, "uuid", "").as_str()) {
        Ok(v) => v,
        Err(e) => return Err(e),
    };
    let flow = match uri::parse_flow(&item.string_at("flow")) {
        Ok(v) => v,
        Err(e) => return Err(e),
    };
    let label = match label_of(item) {
        Ok(v) => v,
        Err(e) => return Err(e),
    };
    let meta = match metadata::make_metadata(sub_id, label.as_str(), timestamp) {
        Ok(v) => v,
        Err(e) => return Err(e),
    };
    let endpoint = match endpoint(item) {
        Ok(v) => v,
        Err(e) => return Err(e),
    };
    let transport = match parse_transport(item) {
        Ok(v) => v,
        Err(e) => return Err(e),
    };
    let security = match parse_security(item, false) {
        Ok(v) => v,
        Err(e) => return Err(e),
    };
    uri::make_node(
        meta,
        endpoint,
        ProtocolSpec::Vless(VlessConfig { uuid, flow }),
        transport,
        security,
    )
}

fn parse_hysteria2(item: &Yaml, sub_id: SubId, timestamp: u64) -> (r: Result<
    CanonicalNode,
    ParseError,
>)
    ensures
        error::entry_result(r) == hysteria2_item(item@, sub_id, timestamp),
{
    let password = text_or(item, "password", "");
    if is_empty(&password) {
        return Err(ParseError::MissingField("password"));
    }
    let obfs = match item.string_at("obfs") {
        Some(obfs_type) => Some(
            Hysteria2Obfs { obfs_type, password: text_or(item, "obfs-password", "") },
        ),
        None => None,
    };
    let label = match label_of(item) {
        Ok(v) => v,
        Err(e) => return Err(e),
    };
    let meta = match metadata::make_metadata(sub_id, label.as_str(), timestamp) {
        Ok(v) => v,
        Err(e) => return Err(e),
    };
    let endpoint = match endpoint(item) {
        Ok(v) => v,
        Err(e) => return Err(e),
    };
    uri::make_node(
        meta,
        endpoint,
        ProtocolSpec::Hysteria2(
            Hysteria2Config {
                password,
                up_mbps: u32_at(item, "up"),
                down_mbps: u32_at(item, "down"),
                obfs,
                port_hopping: item.string_at("ports"),
            },
        ),
        TransportSpec::Tcp,
        SecuritySpec::Plain,
    )
}

fn parse_tuic(item: &Yaml, sub_id: SubId, timestamp: u64) -> (r: Result<
    CanonicalNode,
    ParseError,
>)
    ensures
        error::entry_result(r) == tuic_item(item@, sub_id, timestamp),
{
    let uuid = match uri::parse_uuid(text_or(item, "uuid", "").as_str()) {
        Ok(v) => v,
        Err(e) => return Err(e),
    };
    let password = text_or(item, "password", "");
    let congestion = text_or(item, "congestion-controller", "cubic");
    let congestion_control = match uri::parse_congestion(
        "congestion-controller",
        congestion.as_str(),
    ) {
        Ok(v) => v,
        Err(e) => return Err(e),
    };
    let relay = text_or(item, "udp-relay-mode", "native");
    let udp_relay_mode = match uri::parse_relay("udp-relay-mode", relay.as_str()) {
        Ok(v) => v,
        Err(e) => return Err(e),
    };
    let label = match label_of(item) {
        Ok(v) => v,
        Err(e) => return Err(e),
    };
    let meta = match metadata::make_metadata(sub_id, label.as_str(), timestamp) {
        Ok(v) => v,
        Err(e) => return Err(e),
    };
    let endpoint = match endpoint(item) {
        Ok(v) => v,
        Err(e) => return Err(e),
    };
    uri::make_node(
        meta,
        endpoint,
        ProtocolSpec::Tuic(
            TuicConfig {
                uuid,
                password,
                congestion_control,
                udp_relay_mode,
                zero_rtt_handshake: bool_or(item, "zero-rtt-handshake", false),
            },
        ),
        TransportSpec::Tcp,
        SecuritySpec::Plain,
    )
}

/// The node that a proxy item describes.
pub fn parse_proxy(item: &Yaml, sub_id: SubId, timestamp: u64) -> (r: Result<
    CanonicalNode,
    ParseError,
>)
    ensures
        error::entry_result(r) == item_node(item@, sub_id, timestamp),
{
    proof {
        reveal(item_node);
    }
    let name = text_or(item, "name", "Unnamed Proxy");
    let proxy_type = text_or(item, "type", "");
    let kind = proxy_type.as_str();
    if text::same(kind, "ss") {
        parse_ss(item, sub_id, timestamp)
    } else if text::same(kind, "vmess") {
        parse_vmess(item, sub_id, timestamp)
    } else if text::same(kind, "trojan") {
        parse_trojan(item, sub_id, timestamp)
    } else if text::same(kind, "vless") {
        parse_vless(item, sub_id, timestamp)
    } else if text::same(kind, "hysteria2") {
        parse_hysteria2(item, sub_id, timestamp)
    } else if text::same(kind, "tuic") {
        parse_tuic(item, sub_id, timestamp)
    } else if text::same(kind, "") {
        Err(ParseError::MissingField("type"))
    } else {
        let mut reason = "Clash proxy type `".to_owned();
        reason.append(kind);
        reason.append("` (");
        reason.append(name.as_str());
        reason.append(") is not supported");
        Err(ParseError::UnsupportedFormat(reason))
    }
}

/// The nodes of a parsed document: one outcome for each proxy item.
pub fn parse_document(document: &Yaml, sub_id: SubId, timestamp: u64) -> (r: Result<
    Vec<Result<CanonicalNode, ParseError>>,
    ParseError,
>)
    ensures
        document_result(r) == document_nodes(document@, sub_id, timestamp),
{
    let items = match document.get("proxies") {
        Some(list) => match list.items() {
            Some(items) => items,
            None => return Err(ParseError::MissingField("proxies")),
        },
        None => return Err(ParseError::MissingField("proxies")),
    };
    let ghost models = items@.map_values(|y: Yaml| y@);
    let ghost want = models.map_values(|item: YamlView| item_node(item, sub_id, timestamp));
    let mut out: Vec<Result<CanonicalNode, ParseError>> = Vec::new();
    let mut i: usize = 0;
    while i < items.len()
        invariant
            i <= items@.len(),
            models == items@.map_values(|y: Yaml| y@),
            want == models.map_values(|item: YamlView| item_node(item, sub_id, timestamp)),
            out@.len() == i,
            forall|k: int| 0 <= k < i ==> error::entry_result(#[trigger] out@[k]) == want[k],
        decreases items@.len() - i,
    {
        out.push(parse_proxy(&items[i], sub_id, timestamp));
        i += 1;
    }
    assert(outcomes_view(out@) =~= want);
    Ok(out)
}

/// Parses a document into canonical nodes: one outcome for each proxy item, so
/// that a report can name each item that was passed over.
pub fn ingest_clash_yaml(raw: &str, sub_id: SubId, timestamp: u64) -> (r: Result<
    Vec<Result<CanonicalNode, ParseError>>,
    ParseError,
>)
    ensures
        document_result(r) == clash_nodes(raw@, sub_id, timestamp),
{
    proof {
        reveal(clash_nodes);
    }
    match yaml::read_yaml(raw) {
        Ok(document) => parse_document(&document, sub_id, timestamp),
        Err(e) => {
            let mut reason = "Clash YAML: ".to_owned();
            reason.append(e.as_str());
            Err(ParseError::Json(reason))
        },
    }
}

} // verus!
