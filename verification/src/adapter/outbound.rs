//! Outbounds: one canonical node as the core's JSON.
use crate::ip;
use crate::ip::IpView;
use crate::ir::node::{CanonicalNode, EndpointTarget, EndpointView, NodeView};
use crate::ir::protocol::{
    Hysteria2Config, ProtocolSpec, ShadowsocksCipher, ShadowsocksConfig, TuicCongestion,
    TuicConfig, TuicUdpRelay, VlessConfig, VlessFlow, VmessCipher, VmessConfig, WireGuardConfig,
};
use crate::ir::transport::{
    MuxProtocol, MuxSpec, SecuritySpec, TransportSpec, UtlsFingerprint, XHttpMode,
};
use crate::ir::uuid;
use crate::json::{Json, JsonObject, JsonView};
use crate::text;
use vstd::prelude::*;
use vstd::string::*;

verus! {

/// Why an adapter cannot do what it is asked.
#[derive(Clone, Debug, PartialEq, Eq)]
pub enum AdapterError<T = String> {
    /// The server name is empty or holds white space.
    InvalidServer(T),
    /// The core's version command failed.
    VersionUnavailable,
    /// The core refused a configuration, for the given reason.
    ConfigRejected(T),
}

impl View for AdapterError {
    type V = AdapterError<Seq<char>>;

    open spec fn view(&self) -> AdapterError<Seq<char>> {
        match *self {
            AdapterError::InvalidServer(s) => AdapterError::InvalidServer(s@),
            AdapterError::VersionUnavailable => AdapterError::VersionUnavailable,
            AdapterError::ConfigRejected(s) => AdapterError::ConfigRejected(s@),
        }
    }
}

/// The message of an error.
pub open spec fn adapter_error_text(e: AdapterError<Seq<char>>) -> Seq<char> {
    match e {
        AdapterError::InvalidServer(s) => "invalid server address: "@ + text::quoted(s),
        AdapterError::VersionUnavailable => "sing-box failed to report its version"@,
        AdapterError::ConfigRejected(s) => "sing-box rejected the config: "@ + s,
    }
}

impl AdapterError {
    /// The message for a user.
    pub fn message(&self) -> (r: String)
        ensures
            r@ == adapter_error_text(self@),
    {
        match self {
            AdapterError::InvalidServer(s) => {
                let mut r = "invalid server address: ".to_owned();
                r.append(text::quote(s.as_str()).as_str());
                r
            },
            AdapterError::VersionUnavailable => "sing-box failed to report its version".to_owned(),
            AdapterError::ConfigRejected(s) => {
                let mut r = "sing-box rejected the config: ".to_owned();
                r.append(s.as_str());
                r
            },
        }
    }
}

// ---------------------------------------------------------------------------
// Model
// ---------------------------------------------------------------------------

/// The members of an object with one more text.
pub open spec fn with_text(m: Map<Seq<char>, JsonView>, name: Seq<char>, s: Seq<char>) -> Map<
    Seq<char>,
    JsonView,
> {
    m.insert(name, JsonView::Text(s))
}

/// The members of an object with one more text, where there is one.
pub open spec fn with_optional(
    m: Map<Seq<char>, JsonView>,
    name: Seq<char>,
    s: Option<Seq<char>>,
) -> Map<Seq<char>, JsonView> {
    match s {
        Some(t) => with_text(m, name, t),
        None => m,
    }
}

/// The members of an object with one more number, where there is one.
pub open spec fn with_number(
    m: Map<Seq<char>, JsonView>,
    name: Seq<char>,
    n: Option<u64>,
) -> Map<Seq<char>, JsonView> {
    match n {
        Some(v) => m.insert(name, JsonView::Number(v)),
        None => m,
    }
}

pub open spec fn flow_name(f: VlessFlow) -> Seq<char> {
    match f {
        VlessFlow::XtlsRprxVision => "xtls-rprx-vision"@,
        VlessFlow::XtlsRprxVisionUdp443 => "xtls-rprx-vision-udp443"@,
    }
}

pub open spec fn cipher_name(c: VmessCipher) -> Seq<char> {
    match c {
        VmessCipher::Auto => "auto"@,
        VmessCipher::Aes128Gcm => "aes-128-gcm"@,
        VmessCipher::Chacha20Poly1305 => "chacha20-poly1305"@,
        VmessCipher::Plain => "none"@,
    }
}

pub open spec fn ss_method(m: ShadowsocksCipher) -> Seq<char> {
    match m {
        ShadowsocksCipher::Aes128Gcm => "aes-128-gcm"@,
        ShadowsocksCipher::Aes256Gcm => "aes-256-gcm"@,
        ShadowsocksCipher::Chacha20IetfPoly1305 => "chacha20-ietf-poly1305"@,
        ShadowsocksCipher::Ss2022Blake3Aes128Gcm => "2022-blake3-aes-128-gcm"@,
        ShadowsocksCipher::Ss2022Blake3Aes256Gcm => "2022-blake3-aes-256-gcm"@,
        ShadowsocksCipher::Ss2022Blake3Chacha20Poly1305 => "2022-blake3-chacha20-poly1305"@,
    }
}

pub open spec fn congestion_name(c: TuicCongestion) -> Seq<char> {
    match c {
        TuicCongestion::Bbr => "bbr"@,
        TuicCongestion::Cubic => "cubic"@,
        TuicCongestion::NewReno => "new_reno"@,
    }
}

pub open spec fn relay_mode(r: TuicUdpRelay) -> Seq<char> {
    match r {
        TuicUdpRelay::Native => "native"@,
        TuicUdpRelay::Quic => "quic"@,
    }
}

pub open spec fn mux_protocol(m: MuxProtocol) -> Seq<char> {
    match m {
        MuxProtocol::Smux => "smux"@,
        MuxProtocol::Yamux => "yamux"@,
        MuxProtocol::H2Mux => "h2mux"@,
    }
}

pub open spec fn xhttp_mode(m: XHttpMode) -> Seq<char> {
    match m {
        XHttpMode::StreamOne => "stream-one"@,
        XHttpMode::StreamUp => "stream-up"@,
        XHttpMode::PacketUp => "packet-up"@,
    }
}

pub open spec fn fingerprint_name(f: UtlsFingerprint) -> Option<Seq<char>> {
    match f {
        UtlsFingerprint::Chrome => Some("chrome"@),
        UtlsFingerprint::Firefox => Some("firefox"@),
        UtlsFingerprint::Safari => Some("safari"@),
        UtlsFingerprint::Edge => Some("edge"@),
        UtlsFingerprint::Randomized => Some("randomized"@),
        UtlsFingerprint::Disabled => None,
    }
}

pub open spec fn with_mux(m: Map<Seq<char>, JsonView>, mux: Option<MuxSpec>) -> Map<
    Seq<char>,
    JsonView,
> {
    match mux {
        None => m,
        Some(mux) => m.insert(
            "multiplex"@,
            JsonView::Object(
                Map::empty().insert("enabled"@, JsonView::Bool(mux.enabled)).insert(
                    "protocol"@,
                    JsonView::Text(mux_protocol(mux.protocol)),
                ).insert("max_connections"@, JsonView::Number(mux.concurrency as u64)),
            ),
        ),
    }
}

pub open spec fn transport_object(t: TransportSpec<Seq<char>>) -> Map<Seq<char>, JsonView> {
    let empty = Map::<Seq<char>, JsonView>::empty();
    match t {
        TransportSpec::Tcp => empty,
        TransportSpec::WebSocket(c) => {
            let base = with_text(with_text(empty, "type"@, "ws"@), "path"@, c.path);
            let with_headers = match c.host {
                None => base,
                Some(host) => base.insert(
                    "headers"@,
                    JsonView::Object(with_text(empty, "Host"@, host)),
                ),
            };
            with_headers.insert("max_early_data"@, JsonView::Number(c.max_early_data as u64)).insert(
                "early_data_header_name"@,
                crate::json::optional_text(c.early_data_header),
            )
        },
        TransportSpec::Grpc(c) => with_text(
            with_text(with_text(empty, "type"@, "grpc"@), "service_name"@, c.service_name),
            "mode"@,
            if c.multi_mode {
                "multi"@
            } else {
                "gun"@
            },
        ),
        TransportSpec::HttpUpgrade(c) => with_text(
            with_optional(with_text(empty, "type"@, "httpupgrade"@), "host"@, c.host),
            "path"@,
            c.path,
        ),
        TransportSpec::XHttp(c) => with_text(
            with_text(with_text(empty, "type"@, "xhttp"@), "mode"@, xhttp_mode(c.mode)),
            "path"@,
            c.path,
        ),
    }
}

pub open spec fn with_transport(
    m: Map<Seq<char>, JsonView>,
    t: TransportSpec<Seq<char>>,
) -> Map<Seq<char>, JsonView> {
    if t is Tcp {
        m
    } else {
        m.insert("transport"@, JsonView::Object(transport_object(t)))
    }
}

pub open spec fn with_utls(m: Map<Seq<char>, JsonView>, f: UtlsFingerprint) -> Map<
    Seq<char>,
    JsonView,
> {
    match fingerprint_name(f) {
        None => m,
        Some(name) => m.insert(
            "utls"@,
            JsonView::Object(
                with_text(
                    Map::empty().insert("enabled"@, JsonView::Bool(true)),
                    "fingerprint"@,
                    name,
                ),
            ),
        ),
    }
}

pub open spec fn tls_object(s: SecuritySpec<Seq<char>, Seq<Seq<char>>>) -> Map<
    Seq<char>,
    JsonView,
> {
    let enabled = Map::<Seq<char>, JsonView>::empty().insert("enabled"@, JsonView::Bool(true));
    match s {
        SecuritySpec::Plain => enabled,
        SecuritySpec::Tls(c) => {
            let base = with_text(enabled, "server_name"@, c.server_name).insert(
                "insecure"@,
                JsonView::Bool(c.allow_insecure),
            );
            let with_alpn = if c.alpn.len() == 0 {
                base
            } else {
                base.insert("alpn"@, crate::json::text_list(c.alpn))
            };
            with_utls(with_alpn, c.fingerprint)
        },
        SecuritySpec::Reality(c) => with_utls(
            with_text(enabled, "server_name"@, c.server_name),
            c.fingerprint,
        ).insert(
            "reality"@,
            JsonView::Object(
                with_optional(
                    with_text(
                        with_text(enabled, "public_key"@, c.public_key),
                        "short_id"@,
                        c.short_id,
                    ),
                    "spider_x"@,
                    c.spider_x,
                ),
            ),
        ),
    }
}

pub open spec fn with_security(
    m: Map<Seq<char>, JsonView>,
    s: SecuritySpec<Seq<char>, Seq<Seq<char>>>,
) -> Map<Seq<char>, JsonView> {
    if s is Plain {
        m
    } else {
        m.insert("tls"@, JsonView::Object(tls_object(s)))
    }
}

/// The members that a stream protocol shares: transport, security, multiplexing.
pub open spec fn with_stream(m: Map<Seq<char>, JsonView>, n: NodeView) -> Map<
    Seq<char>,
    JsonView,
> {
    with_mux(with_security(with_transport(m, n.transport), n.security), n.mux)
}

pub open spec fn optional_number(v: Option<u32>) -> Option<u64> {
    match v {
        Some(n) => Some(n as u64),
        None => None,
    }
}

pub open spec fn with_shadowsocks(
    m: Map<Seq<char>, JsonView>,
    c: ShadowsocksConfig<Seq<char>>,
) -> Map<Seq<char>, JsonView> {
    let base = with_text(
        with_text(with_text(m, "type"@, "shadowsocks"@), "method"@, ss_method(c.method)),
        "password"@,
        c.password,
    );
    match c.plugin {
        None => base,
        Some(plugin) => with_optional(
            with_text(base, "plugin"@, plugin),
            "plugin_opts"@,
            c.plugin_opts,
        ),
    }
}

pub open spec fn with_hysteria2(
    m: Map<Seq<char>, JsonView>,
    c: Hysteria2Config<Seq<char>>,
) -> Map<Seq<char>, JsonView> {
    let base = with_text(with_text(m, "type"@, "hysteria2"@), "password"@, c.password);
    let rates = with_number(
        with_number(base, "up_mbps"@, optional_number(c.up_mbps)),
        "down_mbps"@,
        optional_number(c.down_mbps),
    );
    let obfs = match c.obfs {
        None => rates,
        Some(o) => rates.insert(
            "obfs"@,
            JsonView::Object(
                with_text(with_text(Map::empty(), "type"@, o.obfs_type), "password"@, o.password),
            ),
        ),
    };
    with_optional(obfs, "port_hopping"@, c.port_hopping)
}

pub open spec fn with_tuic(m: Map<Seq<char>, JsonView>, c: TuicConfig<Seq<char>>) -> Map<
    Seq<char>,
    JsonView,
> {
    with_text(
        with_text(
            with_text(
                with_text(with_text(m, "type"@, "tuic"@), "uuid"@, uuid::uuid_text(c.uuid)),
                "password"@,
                c.password,
            ),
            "congestion_control"@,
            congestion_name(c.congestion_control),
        ),
        "udp_relay_mode"@,
        relay_mode(c.udp_relay_mode),
    ).insert("zero_rtt_handshake"@, JsonView::Bool(c.zero_rtt_handshake))
}

/// Numbers of one byte as a list.
pub open spec fn byte_list(s: Seq<u8>) -> JsonView {
    JsonView::List(s.map_values(|b: u8| JsonView::Number(b as u64)))
}

pub open spec fn with_wireguard(
    m: Map<Seq<char>, JsonView>,
    c: WireGuardConfig<Seq<char>, Seq<IpView>>,
) -> Map<Seq<char>, JsonView> {
    let base = with_text(with_text(m, "type"@, "wireguard"@), "private_key"@, c.private_key);
    let addressed = base.insert(
        "local_address"@,
        crate::json::text_list(c.local_address.map_values(|a: IpView| ip::ip_text(a))),
    );
    let peer = with_optional(
        with_text(Map::empty(), "public_key"@, c.peer_public_key),
        "preshared_key"@,
        c.preshared_key,
    );
    let peered = addressed.insert("peers"@, JsonView::List(seq![JsonView::Object(peer)]));
    let reserved = match c.reserved {
        None => peered,
        Some(r) => peered.insert("reserved"@, byte_list(r@)),
    };
    with_number(
        reserved,
        "mtu"@,
        match c.mtu {
            Some(v) => Some(v as u64),
            None => None,
        },
    )
}

pub open spec fn with_protocol(m: Map<Seq<char>, JsonView>, n: NodeView) -> Map<
    Seq<char>,
    JsonView,
> {
    match n.protocol {
        ProtocolSpec::Vless(c) => with_stream(
            with_text(
                with_optional(
                    with_text(with_text(m, "type"@, "vless"@), "uuid"@, uuid::uuid_text(c.uuid)),
                    "flow"@,
                    match c.flow {
                        Some(f) => Some(flow_name(f)),
                        None => None,
                    },
                ),
                "packet_encoding"@,
                "xudp"@,
            ),
            n,
        ),
        ProtocolSpec::Vmess(c) => with_stream(
            with_text(
                with_text(with_text(m, "type"@, "vmess"@), "uuid"@, uuid::uuid_text(c.uuid)).insert(
                    "alter_id"@,
                    JsonView::Number(c.alter_id as u64),
                ),
                "security"@,
                cipher_name(c.cipher),
            ),
            n,
        ),
        ProtocolSpec::Trojan(c) => with_stream(
            with_text(with_text(m, "type"@, "trojan"@), "password"@, c.password),
            n,
        ),
        ProtocolSpec::Shadowsocks(c) => with_shadowsocks(m, c),
        ProtocolSpec::Hysteria2(c) => with_hysteria2(m, c),
        ProtocolSpec::Tuic(c) => with_tuic(m, c),
        ProtocolSpec::WireGuard(c) => with_wireguard(m, c),
    }
}

/// The server and the port of an endpoint.
pub open spec fn server_of(e: EndpointView) -> (Seq<char>, u16) {
    match e {
        EndpointTarget::Ip(addr) => (ip::ip_text(addr.ip), addr.port),
        EndpointTarget::Domain { host, port } => (host, port),
    }
}

pub open spec fn is_bad_server(s: Seq<char>) -> bool {
    s.len() == 0 || exists|i: int| 0 <= i < s.len() && text::is_space(#[trigger] s[i])
}

/// The members that every outbound has.
pub open spec fn outbound_base(n: NodeView) -> Map<Seq<char>, JsonView> {
    let (server, port) = server_of(n.endpoint);
    let tagged = with_mux(with_text(Map::empty(), "tag"@, n.meta.label), n.mux);
    with_text(
        with_text(tagged, "server"@, server).insert("server_port"@, JsonView::Number(port as u64)),
        "tag"@,
        n.meta.label,
    )
}

/// The outbound for a node.
pub open spec fn outbound_json(n: NodeView) -> Result<JsonView, AdapterError<Seq<char>>> {
    let (server, port) = server_of(n.endpoint);
    if is_bad_server(server) {
        Err(AdapterError::InvalidServer(server))
    } else {
        Ok(JsonView::Object(with_protocol(outbound_base(n), n)))
    }
}

/// The outcome of a compilation, as its model.
pub open spec fn json_result(r: Result<Json, AdapterError>) -> Result<
    JsonView,
    AdapterError<Seq<char>>,
> {
    match r {
        Ok(j) => Ok(j@),
        Err(e) => Err(e@),
    }
}

/// An outbound carries the node's label as its tag, and the server and port of
/// the node's endpoint, whatever the protocol.
pub proof fn law_outbound_names_the_node(n: NodeView)
    requires
        outbound_json(n) is Ok,
    ensures
        crate::json::member(outbound_json(n)->Ok_0, "tag"@) == Some(JsonView::Text(n.meta.label)),
        crate::json::member(outbound_json(n)->Ok_0, "server"@) == Some(
            JsonView::Text(server_of(n.endpoint).0),
        ),
        crate::json::member(outbound_json(n)->Ok_0, "server_port"@) == Some(
            JsonView::Number(server_of(n.endpoint).1 as u64),
        ),
{
    lemma_names_differ();
}

/// The names that every outbound shares differ from each other and from all
/// names that a protocol adds.
proof fn lemma_names_differ()
    ensures
        "type"@ != "tag"@,
        "type"@ != "server"@,
        "type"@ != "server_port"@,
        "uuid"@ != "tag"@,
        "uuid"@ != "server"@,
        "uuid"@ != "server_port"@,
        "flow"@ != "tag"@,
        "flow"@ != "server"@,
        "flow"@ != "server_port"@,
        "packet_encoding"@ != "tag"@,
        "packet_encoding"@ != "server"@,
        "packet_encoding"@ != "server_port"@,
        "alter_id"@ != "tag"@,
        "alter_id"@ != "server"@,
        "alter_id"@ != "server_port"@,
        "security"@ != "tag"@,
        "security"@ != "server"@,
        "security"@ != "server_port"@,
        "password"@ != "tag"@,
        "password"@ != "server"@,
        "password"@ != "server_port"@,
        "transport"@ != "tag"@,
        "transport"@ != "server"@,
        "transport"@ != "server_port"@,
        "tls"@ != "tag"@,
        "tls"@ != "server"@,
        "tls"@ != "server_port"@,
        "multiplex"@ != "tag"@,
        "multiplex"@ != "server"@,
        "multiplex"@ != "server_port"@,
        "method"@ != "tag"@,
        "method"@ != "server"@,
        "method"@ != "server_port"@,
        "plugin"@ != "tag"@,
        "plugin"@ != "server"@,
        "plugin"@ != "server_port"@,
        "plugin_opts"@ != "tag"@,
        "plugin_opts"@ != "server"@,
        "plugin_opts"@ != "server_port"@,
        "up_mbps"@ != "tag"@,
        "up_mbps"@ != "server"@,
        "up_mbps"@ != "server_port"@,
        "down_mbps"@ != "tag"@,
        "down_mbps"@ != "server"@,
        "down_mbps"@ != "server_port"@,
        "obfs"@ != "tag"@,
        "obfs"@ != "server"@,
        "obfs"@ != "server_port"@,
        "port_hopping"@ != "tag"@,
        "port_hopping"@ != "server"@,
        "port_hopping"@ != "server_port"@,
        "congestion_control"@ != "tag"@,
        "congestion_control"@ != "server"@,
        "congestion_control"@ != "server_port"@,
        "udp_relay_mode"@ != "tag"@,
        "udp_relay_mode"@ != "server"@,
        "udp_relay_mode"@ != "server_port"@,
        "zero_rtt_handshake"@ != "tag"@,
        "zero_rtt_handshake"@ != "server"@,
        "zero_rtt_handshake"@ != "server_port"@,
        "private_key"@ != "tag"@,
        "private_key"@ != "server"@,
        "private_key"@ != "server_port"@,
        "local_address"@ != "tag"@,
        "local_address"@ != "server"@,
        "local_address"@ != "server_port"@,
        "peers"@ != "tag"@,
        "peers"@ != "server"@,
        "peers"@ != "server_port"@,
        "reserved"@ != "tag"@,
        "reserved"@ != "server"@,
        "reserved"@ != "server_port"@,
        "mtu"@ != "tag"@,
        "mtu"@ != "server"@,
        "mtu"@ != "server_port"@,
        "tag"@ != "server"@,
        "tag"@ != "server_port"@,
        "server"@ != "server_port"@,
{
    reveal_strlit("type");
    reveal_strlit("uuid");
    reveal_strlit("flow");
    reveal_strlit("packet_encoding");
    reveal_strlit("alter_id");
    reveal_strlit("security");
    reveal_strlit("password");
    reveal_strlit("transport");
    reveal_strlit("tls");
    reveal_strlit("multiplex");
    reveal_strlit("method");
    reveal_strlit("plugin");
    reveal_strlit("plugin_opts");
    reveal_strlit("up_mbps");
    reveal_strlit("down_mbps");
    reveal_strlit("obfs");
    reveal_strlit("port_hopping");
    reveal_strlit("congestion_control");
    reveal_strlit("udp_relay_mode");
    reveal_strlit("zero_rtt_handshake");
    reveal_strlit("private_key");
    reveal_strlit("local_address");
    reveal_strlit("peers");
    reveal_strlit("reserved");
    reveal_strlit("mtu");
    reveal_strlit("tag");
    reveal_strlit("server");
    reveal_strlit("server_port");
    assert("type"@.len() != "tag"@.len());
    assert("type"@.len() != "server"@.len());
    assert("type"@.len() != "server_port"@.len());
    assert("uuid"@.len() != "tag"@.len());
    assert("uuid"@.len() != "server"@.len());
    assert("uuid"@.len() != "server_port"@.len());
    assert("flow"@.len() != "tag"@.len());
    assert("flow"@.len() != "server"@.len());
    assert("flow"@.len() != "server_port"@.len());
    assert("packet_encoding"@.len() != "tag"@.len());
    assert("packet_encoding"@.len() != "server"@.len());
    assert("packet_encoding"@.len() != "server_port"@.len());
    assert("alter_id"@.len() != "tag"@.len());
    assert("alter_id"@.len() != "server"@.len());
    assert("alter_id"@.len() != "server_port"@.len());
    assert("security"@.len() != "tag"@.len());
    assert("security"@.len() != "server"@.len());
    assert("security"@.len() != "server_port"@.len());
    assert("password"@.len() != "tag"@.len());
    assert("password"@.len() != "server"@.len());
    assert("password"@.len() != "server_port"@.len());
    assert("transport"@.len() != "tag"@.len());
    assert("transport"@.len() != "server"@.len());
    assert("transport"@.len() != "server_port"@.len());
    assert("tls"@[1] != "tag"@[1]);
    assert("tls"@.len() != "server"@.len());
    assert("tls"@.len() != "server_port"@.len());
    assert("multiplex"@.len() != "tag"@.len());
    assert("multiplex"@.len() != "server"@.len());
    assert("multiplex"@.len() != "server_port"@.len());
    assert("method"@.len() != "tag"@.len());
    assert("method"@[0] != "server"@[0]);
    assert("method"@.len() != "server_port"@.len());
    assert("plugin"@.len() != "tag"@.len());
    assert("plugin"@[0] != "server"@[0]);
    assert("plugin"@.len() != "server_port"@.len());
    assert("plugin_opts"@.len() != "tag"@.len());
    assert("plugin_opts"@.len() != "server"@.len());
    assert("plugin_opts"@[0] != "server_port"@[0]);
    assert("up_mbps"@.len() != "tag"@.len());
    assert("up_mbps"@.len() != "server"@.len());
    assert("up_mbps"@.len() != "server_port"@.len());
    assert("down_mbps"@.len() != "tag"@.len());
    assert("down_mbps"@.len() != "server"@.len());
    assert("down_mbps"@.len() != "server_port"@.len());
    assert("obfs"@.len() != "tag"@.len());
    assert("obfs"@.len() != "server"@.len());
    assert("obfs"@.len() != "server_port"@.len());
    assert("port_hopping"@.len() != "tag"@.len());
    assert("port_hopping"@.len() != "server"@.len());
    assert("port_hopping"@.len() != "server_port"@.len());
    assert("congestion_control"@.len() != "tag"@.len());
    assert("congestion_control"@.len() != "server"@.len());
    assert("congestion_control"@.len() != "server_port"@.len());
    assert("udp_relay_mode"@.len() != "tag"@.len());
    assert("udp_relay_mode"@.len() != "server"@.len());
    assert("udp_relay_mode"@.len() != "server_port"@.len());
    assert("zero_rtt_handshake"@.len() != "tag"@.len());
    assert("zero_rtt_handshake"@.len() != "server"@.len());
    assert("zero_rtt_handshake"@.len() != "server_port"@.len());
    assert("private_key"@.len() != "tag"@.len());
    assert("private_key"@.len() != "server"@.len());
    assert("private_key"@[0] != "server_port"@[0]);
    assert("local_address"@.len() != "tag"@.len());
    assert("local_address"@.len() != "server"@.len());
    assert("local_address"@.len() != "server_port"@.len());
    assert("peers"@.len() != "tag"@.len());
    assert("peers"@.len() != "server"@.len());
    assert("peers"@.len() != "server_port"@.len());
    assert("reserved"@.len() != "tag"@.len());
    assert("reserved"@.len() != "server"@.len());
    assert("reserved"@.len() != "server_port"@.len());
    assert("mtu"@[0] != "tag"@[0]);
    assert("mtu"@.len() != "server"@.len());
    assert("mtu"@.len() != "server_port"@.len());
    assert("tag"@.len() != "server"@.len());
    assert("tag"@.len() != "server_port"@.len());
    assert("server"@.len() != "server_port"@.len());
}

// ---------------------------------------------------------------------------
// Executable forms
// ---------------------------------------------------------------------------

fn flow_label(f: VlessFlow) -> (r: &'static str)
    ensures
        r@ == flow_name(f),
{
    match f {
        VlessFlow::XtlsRprxVision => "xtls-rprx-vision",
        VlessFlow::XtlsRprxVisionUdp443 => "xtls-rprx-vision-udp443",
    }
}

fn cipher_label(c: VmessCipher) -> (r: &'static str)
    ensures
        r@ == cipher_name(c),
{
    match c {
        VmessCipher::Auto => "auto",
        VmessCipher::Aes128Gcm => "aes-128-gcm",
        VmessCipher::Chacha20Poly1305 => "chacha20-poly1305",
        VmessCipher::Plain => "none",
    }
}

fn method_label(m: ShadowsocksCipher) -> (r: &'static str)
    ensures
        r@ == ss_method(m),
{
    match m {
        ShadowsocksCipher::Aes128Gcm => "aes-128-gcm",
        ShadowsocksCipher::Aes256Gcm => "aes-256-gcm",
        ShadowsocksCipher::Chacha20IetfPoly1305 => "chacha20-ietf-poly1305",
        ShadowsocksCipher::Ss2022Blake3Aes128Gcm => "2022-blake3-aes-128-gcm",
        ShadowsocksCipher::Ss2022Blake3Aes256Gcm => "2022-blake3-aes-256-gcm",
        ShadowsocksCipher::Ss2022Blake3Chacha20Poly1305 => "2022-blake3-chacha20-poly1305",
    }
}

fn congestion_label(c: TuicCongestion) -> (r: &'static str)
    ensures
        r@ == congestion_name(c),
{
    match c {
        TuicCongestion::Bbr => "bbr",
        TuicCongestion::Cubic => "cubic",
        TuicCongestion::NewReno => "new_reno",
    }
}

fn relay_label(m: TuicUdpRelay) -> (r: &'static str)
    ensures
        r@ == relay_mode(m),
{
    match m {
        TuicUdpRelay::Native => "native",
        TuicUdpRelay::Quic => "quic",
    }
}

fn mux_label(m: MuxProtocol) -> (r: &'static str)
    ensures
        r@ == mux_protocol(m),
{
    match m {
        MuxProtocol::Smux => "smux",
        MuxProtocol::Yamux => "yamux",
        MuxProtocol::H2Mux => "h2mux",
    }
}

fn xhttp_label(m: XHttpMode) -> (r: &'static str)
    ensures
        r@ == xhttp_mode(m),
{
    match m {
        XHttpMode::StreamOne => "stream-one",
        XHttpMode::StreamUp => "stream-up",
        XHttpMode::PacketUp => "packet-up",
    }
}

fn fingerprint_label(f: UtlsFingerprint) -> (r: Option<&'static str>)
    ensures
        (match r {
            Some(s) => fingerprint_name(f) == Some(s@),
            None => fingerprint_name(f) is None,
        }),
{
    match f {
        UtlsFingerprint::Chrome => Some("chrome"),
        UtlsFingerprint::Firefox => Some("firefox"),
        UtlsFingerprint::Safari => Some("safari"),
        UtlsFingerprint::Edge => Some("edge"),
        UtlsFingerprint::Randomized => Some("randomized"),
        UtlsFingerprint::Disabled => None,
    }
}

/// Sets a member to a text, where there is one.
fn set_optional(object: &mut JsonObject, name: &str, value: &Option<String>)
    ensures
        final(object)@ == with_optional(old(object)@, name@, text::text_of(*value)),
{
    match value {
        Some(s) => object.set_text(name, s.as_str()),
        None => {},
    }
}

/// Adds the client fingerprint to a TLS object.
fn embed_utls(tls: &mut JsonObject, fingerprint: UtlsFingerprint)
    ensures
        final(tls)@ == with_utls(old(tls)@, fingerprint),
{
    match fingerprint_label(fingerprint) {
        None => {},
        Some(name) => {
            let mut utls = JsonObject::new();
            utls.set("enabled", Json::Bool(true));
            utls.set_text("fingerprint", name);
            tls.set("utls", Json::Object(utls));
        },
    }
}

/// Collects the members of an outbound.
pub struct OutboundBuilder {
    value: JsonObject,
}

impl View for OutboundBuilder {
    type V = Map<Seq<char>, JsonView>;

    closed spec fn view(&self) -> Map<Seq<char>, JsonView> {
        self.value@
    }
}

impl OutboundBuilder {
    /// Starts with the node's label and multiplexing.
    pub fn new(node: &CanonicalNode) -> (r: OutboundBuilder)
        ensures
            r@ == with_mux(with_text(Map::empty(), "tag"@, node@.meta.label), node@.mux),
    {
        let mut value = JsonObject::new();
        value.set_text("tag", node.meta.label.as_str());
        let mut builder = OutboundBuilder { value };
        builder.embed_mux(&node.mux);
        builder
    }

    /// Sets the server; one that is empty or holds white space is refused.
    pub fn server(self, server: &str) -> (r: Result<OutboundBuilder, AdapterError>)
        ensures
            (match r {
                Ok(b) => !is_bad_server(server@) && b@ == with_text(self@, "server"@, server@),
                Err(e) => is_bad_server(server@) && e@ == AdapterError::InvalidServer(server@),
            }),
    {
        let mut builder = self;
        if !OutboundBuilder::is_valid_server(server) {
            return Err(AdapterError::InvalidServer(server.to_owned()));
        }
        builder.set_text("server", server);
        Ok(builder)
    }

    pub fn server_port(self, port: u16) -> (r: OutboundBuilder)
        ensures
            r@ == self@.insert("server_port"@, JsonView::Number(port as u64)),
    {
        let mut builder = self;
        builder.set("server_port", Json::Number(port as u64));
        builder
    }

    pub fn tag(self, tag: &str) -> (r: OutboundBuilder)
        ensures
            r@ == with_text(self@, "tag"@, tag@),
    {
        let mut builder = self;
        builder.set_text("tag", tag);
        builder
    }

    fn is_valid_server(server: &str) -> (r: bool)
        ensures
            r == !is_bad_server(server@),
    {
        let chars = text::to_chars(server);
        if chars.len() == 0 {
            return false;
        }
        let mut i: usize = 0;
        while i < chars.len()
            invariant
                i <= chars@.len(),
                chars@ == server@,
                forall|k: int| 0 <= k < i ==> !text::is_space(#[trigger] chars@[k]),
            decreases chars@.len() - i,
        {
            if text::is_space_char(chars[i]) {
                return false;
            }
            i += 1;
        }
        true
    }

    pub fn set(&mut self, key: &str, value: Json)
        ensures
            final(self)@ == old(self)@.insert(key@, value@),
    {
        self.value.set(key, value);
    }

    pub fn set_text(&mut self, key: &str, value: &str)
        ensures
            final(self)@ == with_text(old(self)@, key@, value@),
    {
        self.value.set_text(key, value);
    }

    fn set_optional(&mut self, key: &str, value: &Option<String>)
        ensures
            final(self)@ == with_optional(old(self)@, key@, text::text_of(*value)),
    {
        set_optional(&mut self.value, key, value);
    }

    pub fn embed_mux(&mut self, mux: &Option<MuxSpec>)
        ensures
            final(self)@ == with_mux(old(self)@, *mux),
    {
        match mux {
            None => {},
            Some(mux) => {
                let mut object = JsonObject::new();
                object.set("enabled", Json::Bool(mux.enabled));
                object.set_text("protocol", mux_label(mux.protocol));
                object.set("max_connections", Json::Number(mux.concurrency as u64));
                self.set("multiplex", Json::Object(object));
            },
        }
    }

    pub fn embed_transport(&mut self, transport: &TransportSpec)
        ensures
            final(self)@ == with_transport(old(self)@, transport@),
    {
        let mut object = JsonObject::new();
        match transport {
            TransportSpec::Tcp => {
                return ;
            },
            TransportSpec::WebSocket(config) => {
                object.set_text("type", "ws");
                object.set_text("path", config.path.as_str());
                match &config.host {
                    None => {},
                    Some(host) => {
                        let mut headers = JsonObject::new();
                        headers.set_text("Host", host.as_str());
                        object.set("headers", Json::Object(headers));
                    },
                }
                object.set("max_early_data", Json::Number(config.max_early_data as u64));
                object.set("early_data_header_name", Json::optional(&config.early_data_header));
            },
            TransportSpec::Grpc(config) => {
                object.set_text("type", "grpc");
                object.set_text("service_name", config.service_name.as_str());
                object.set_text(
                    "mode",
                    if config.multi_mode {
                        "multi"
                    } else {
                        "gun"
                    },
                );
            },
            TransportSpec::HttpUpgrade(config) => {
                object.set_text("type", "httpupgrade");
                set_optional(&mut object, "host", &config.host);
                object.set_text("path", config.path.as_str());
            },
            TransportSpec::XHttp(config) => {
                object.set_text("type", "xhttp");
                object.set_text("mode", xhttp_label(config.mode));
                object.set_text("path", config.path.as_str());
            },
        }
        self.set("transport", Json::Object(object));
    }

    pub fn embed_security(&mut self, security: &SecuritySpec)
        ensures
            final(self)@ == with_security(old(self)@, security@),
    {
        let mut tls = JsonObject::new();
        tls.set("enabled", Json::Bool(true));
        match security {
            SecuritySpec::Plain => {
                return ;
            },
            SecuritySpec::Tls(config) => {
                tls.set_text("server_name", config.server_name.as_str());
                tls.set("insecure", Json::Bool(config.allow_insecure));
                if config.alpn.len() != 0 {
                    tls.set("alpn", Json::texts(&config.alpn));
                }
                embed_utls(&mut tls, config.fingerprint);
            },
            SecuritySpec::Reality(config) => {
                tls.set_text("server_name", config.server_name.as_str());
                embed_utls(&mut tls, config.fingerprint);
                let mut reality = JsonObject::new();
                reality.set("enabled", Json::Bool(true));
                reality.set_text("public_key", config.public_key.as_str());
                reality.set_text("short_id", config.short_id.as_str());
                set_optional(&mut reality, "spider_x", &config.spider_x);
                tls.set("reality", Json::Object(reality));
            },
        }
        self.set("tls", Json::Object(tls));
    }

    fn embed_stream(&mut self, node: &CanonicalNode)
        ensures
            final(self)@ == with_stream(old(self)@, node@),
    {
        self.embed_transport(&node.transport);
        self.embed_security(&node.security);
        self.embed_mux(&node.mux);
    }

    fn embed_vless(&mut self, config: &VlessConfig)
        ensures
            final(self)@ == with_text(
                with_optional(
                    with_text(
                        with_text(old(self)@, "type"@, "vless"@),
                        "uuid"@,
                        uuid::uuid_text(config.uuid),
                    ),
                    "flow"@,
                    match config.flow {
                        Some(f) => Some(flow_name(f)),
                        None => None,
                    },
                ),
                "packet_encoding"@,
                "xudp"@,
            ),
    {
        self.set_text("type", "vless");
        self.set_text("uuid", config.uuid.to_text().as_str());
        match config.flow {
            None => {},
            Some(flow) => self.set_text("flow", flow_label(flow)),
        }
        self.set_text("packet_encoding", "xudp");
    }

    fn embed_vmess(&mut self, config: &VmessConfig)
        ensures
            final(self)@ == with_text(
                with_text(
                    with_text(old(self)@, "type"@, "vmess"@),
                    "uuid"@,
                    uuid::uuid_text(config.uuid),
                ).insert("alter_id"@, JsonView::Number(config.alter_id as u64)),
                "security"@,
                cipher_name(config.cipher),
            ),
    {
        self.set_text("type", "vmess");
        self.set_text("uuid", config.uuid.to_text().as_str());
        self.set("alter_id", Json::Number(config.alter_id as u64));
        self.set_text("security", cipher_label(config.cipher));
    }

    fn embed_shadowsocks(&mut self, config: &ShadowsocksConfig)
        ensures
            final(self)@ == with_shadowsocks(old(self)@, config@),
    {
        self.set_text("type", "shadowsocks");
        self.set_text("method", method_label(config.method));
        self.set_text("password", config.password.as_str());
        match &config.plugin {
            None => {},
            Some(plugin) => {
                self.set_text("plugin", plugin.as_str());
                self.set_optional("plugin_opts", &config.plugin_opts);
            },
        }
    }

    fn embed_hysteria2(&mut self, config: &Hysteria2Config)
        ensures
            final(self)@ == with_hysteria2(old(self)@, config@),
    {
        self.set_text("type", "hysteria2");
        self.set_text("password", config.password.as_str());
        match config.up_mbps {
            None => {},
            Some(up) => self.set("up_mbps", Json::Number(up as u64)),
        }
        match config.down_mbps {
            None => {},
            Some(down) => self.set("down_mbps", Json::Number(down as u64)),
        }
        match &config.obfs {
            None => {},
            Some(obfs) => {
                let mut object = JsonObject::new();
                object.set_text("type", obfs.obfs_type.as_str());
                object.set_text("password", obfs.password.as_str());
                self.set("obfs", Json::Object(object));
            },
        }
        self.set_optional("port_hopping", &config.port_hopping);
    }

    fn embed_tuic(&mut self, config: &TuicConfig)
        ensures
            final(self)@ == with_tuic(old(self)@, config@),
    {
        self.set_text("type", "tuic");
        self.set_text("uuid", config.uuid.to_text().as_str());
        self.set_text("password", config.password.as_str());
        self.set_text("congestion_control", congestion_label(config.congestion_control));
        self.set_text("udp_relay_mode", relay_label(config.udp_relay_mode));
        self.set("zero_rtt_handshake", Json::Bool(config.zero_rtt_handshake));
    }

    fn embed_wireguard(&mut self, config: &WireGuardConfig)
        ensures
            final(self)@ == with_wireguard(old(self)@, config@),
    {
        self.set_text("type", "wireguard");
        self.set_text("private_key", config.private_key.as_str());
        let mut texts: Vec<String> = Vec::new();
        let ghost addresses = config@.local_address.map_values(|a: IpView| ip::ip_text(a));
        let mut i: usize = 0;
        while i < config.local_address.len()
            invariant
                i <= config.local_address@.len(),
                texts@.len() == i,
                addresses == config@.local_address.map_values(|a: IpView| ip::ip_text(a)),
                forall|k: int| 0 <= k < i ==> (#[trigger] texts@[k])@ == addresses[k],
            decreases config.local_address@.len() - i,
        {
            texts.push(config.local_address[i].to_text());
            i += 1;
        }
        assert(text::texts_of(texts@) =~= addresses);
        self.set("local_address", Json::texts(&texts));
        let mut peer = JsonObject::new();
        peer.set_text("public_key", config.peer_public_key.as_str());
        set_optional(&mut peer, "preshared_key", &config.preshared_key);
        self.set("peers", Json::single(Json::Object(peer)));
        match config.reserved {
            None => {},
            Some(r) => {
                let mut bytes: Vec<Json> = Vec::new();
                bytes.push(Json::Number(r[0] as u64));
                bytes.push(Json::Number(r[1] as u64));
                bytes.push(Json::Number(r[2] as u64));
                proof {
                    crate::json::lemma_list_view(bytes@);
                    assert(crate::json::list_view(bytes@) =~= r@.map_values(
                        |b: u8| JsonView::Number(b as u64),
                    ));
                }
                self.set("reserved", Json::List(bytes));
            },
        }
        match config.mtu {
            None => {},
            Some(mtu) => self.set("mtu", Json::Number(mtu as u64)),
        }
    }

    pub fn finish(self) -> (r: Json)
        ensures
            r@ == JsonView::Object(self@),
    {
        Json::Object(self.value)
    }
}

/// Compiles a node into a ready-to-embed outbound.
pub fn compile_outbound(node: &CanonicalNode) -> (r: Result<Json, AdapterError>)
    ensures
        json_result(r) == outbound_json(node@),
{
    let (server, port) = match &node.endpoint {
        EndpointTarget::Ip(address) => (address.ip.to_text(), address.port),
        EndpointTarget::Domain { host, port } => (host.clone(), *port),
    };
    let mut builder = match OutboundBuilder::new(node).server(server.as_str()) {
        Ok(builder) => builder.server_port(port).tag(node.meta.label.as_str()),
        Err(e) => return Err(e),
    };
    match &node.protocol {
        ProtocolSpec::Vless(config) => {
            builder.embed_vless(config);
            builder.embed_stream(node);
        },
        ProtocolSpec::Vmess(config) => {
            builder.embed_vmess(config);
            builder.embed_stream(node);
        },
        ProtocolSpec::Trojan(config) => {
            builder.set_text("type", "trojan");
            builder.set_text("password", config.password.as_str());
            builder.embed_stream(node);
        },
        ProtocolSpec::Shadowsocks(config) => builder.embed_shadowsocks(config),
        ProtocolSpec::Hysteria2(config) => builder.embed_hysteria2(config),
        ProtocolSpec::Tuic(config) => builder.embed_tuic(config),
        ProtocolSpec::WireGuard(config) => builder.embed_wireguard(config),
    }
    Ok(builder.finish())
}

} // verus!
