//! What outbounds promise.
use crate::adapter::outbound;
use crate::adapter::outbound::AdapterError;
use crate::ip;
use crate::ip::IpView;
use crate::ir::node::{EndpointTarget, NodeView};
use crate::ir::protocol::{
    ProtocolSpec, ShadowsocksCipher, TuicCongestion, TuicUdpRelay, VlessFlow, VmessCipher,
};
use crate::ir::transport::{
    MuxProtocol, SecuritySpec, TransportSpec, UtlsFingerprint, XHttpMode,
};
use crate::ir::uuid;
use crate::json;
use crate::json::JsonView;
use crate::laws;
use crate::laws::names;
use crate::text;
use vstd::prelude::*;

verus! {

/// The object has the text as the member.
pub open spec fn says(o: JsonView, name: Seq<char>, s: Seq<char>) -> bool {
    json::member(o, name) == Some(JsonView::Text(s))
}

/// The object has the number as the member.
pub open spec fn counts(o: JsonView, name: Seq<char>, n: int) -> bool {
    json::member(o, name) is Some && json::member(o, name)->0 is Number && json::member(
        o,
        name,
    )->0->Number_0 == n
}

/// The object has the truth value as the member.
pub open spec fn tells(o: JsonView, name: Seq<char>, b: bool) -> bool {
    json::member(o, name) == Some(JsonView::Bool(b))
}

/// The object has no such member.
pub open spec fn omits(o: JsonView, name: Seq<char>) -> bool {
    json::member(o, name) is None
}

/// The object has the text as the member where there is one, and no such member where
/// there is none.
pub open spec fn may_say(o: JsonView, name: Seq<char>, s: Option<Seq<char>>) -> bool {
    match s {
        Some(t) => says(o, name, t),
        None => omits(o, name),
    }
}

/// The object has an object as the member.
pub open spec fn nests(o: JsonView, name: Seq<char>) -> bool {
    json::member(o, name) is Some && json::member(o, name)->0 is Object
}

pub open spec fn within(o: JsonView, name: Seq<char>) -> JsonView {
    json::member(o, name)->0
}

/// A node with a domain name is refused exactly if the name is empty or holds white
/// space, and the error names it. Otherwise its outbound goes to that name and port. A
/// node with an address is never refused, and its outbound goes to that address and
/// port.
pub proof fn law_outbounds_lead_to_the_endpoint(n: NodeView)
    ensures
        ({
            let r = outbound::outbound_json(n);
            match n.endpoint {
                EndpointTarget::Domain { host, port } => {
                    &&& r is Err <==> host.len() == 0 || exists|i: int|
                        0 <= i < host.len() && text::is_space(#[trigger] host[i])
                    &&& r is Err ==> r->Err_0 == AdapterError::<Seq<char>>::InvalidServer(host)
                    &&& r is Ok ==> says(r->Ok_0, "server"@, host)
                    &&& r is Ok ==> counts(r->Ok_0, "server_port"@, port as int)
                    &&& r is Ok ==> says(r->Ok_0, "tag"@, n.meta.label)
                },
                EndpointTarget::Ip(addr) => {
                    &&& addr.ip is V4 && addr.ip->V4_0.len() == 4 ==> r is Ok
                    &&& addr.ip is V6 && addr.ip->V6_0.len() == 8 ==> r is Ok
                    &&& r is Ok ==> says(r->Ok_0, "server"@, ip::ip_text(addr.ip))
                    &&& r is Ok ==> counts(r->Ok_0, "server_port"@, addr.port as int)
                    &&& r is Ok ==> says(r->Ok_0, "tag"@, n.meta.label)
                },
            }
        }),
{
    names::lemma_outbound_names();
    if let EndpointTarget::Ip(addr) = n.endpoint {
        if addr.ip is V4 && addr.ip->V4_0.len() == 4 || addr.ip is V6 && addr.ip->V6_0.len() == 8 {
            laws::address::law_addresses_hold_no_white_space(addr.ip, 0);
            assert forall|i: int| 0 <= i < ip::ip_text(addr.ip).len() implies !text::is_space(
                #[trigger] ip::ip_text(addr.ip)[i],
            ) by {
                laws::address::law_addresses_hold_no_white_space(addr.ip, i);
            }
        }
    }
}

/// A VLESS outbound names its user and its flow.
pub proof fn law_vless_outbounds_name_their_user(n: NodeView)
    requires
        n.protocol is Vless,
        outbound::outbound_json(n) is Ok,
    ensures
        ({
            let o = outbound::outbound_json(n)->Ok_0;
            let c = n.protocol->Vless_0;
            &&& says(o, "type"@, "vless"@)
            &&& says(o, "uuid"@, uuid::uuid_text(c.uuid))
            &&& c.flow is None ==> omits(o, "flow"@)
            &&& c.flow == Some(VlessFlow::XtlsRprxVision) ==> says(o, "flow"@, "xtls-rprx-vision"@)
            &&& c.flow == Some(VlessFlow::XtlsRprxVisionUdp443) ==> says(
                o,
                "flow"@,
                "xtls-rprx-vision-udp443"@,
            )
            &&& says(o, "packet_encoding"@, "xudp"@)
        }),
{
    names::lemma_outbound_names();
}

/// A VMess outbound names its user, the number of alternatives and the cipher.
pub proof fn law_vmess_outbounds_name_their_user(n: NodeView)
    requires
        n.protocol is Vmess,
        outbound::outbound_json(n) is Ok,
    ensures
        ({
            let o = outbound::outbound_json(n)->Ok_0;
            let c = n.protocol->Vmess_0;
            &&& says(o, "type"@, "vmess"@)
            &&& says(o, "uuid"@, uuid::uuid_text(c.uuid))
            &&& counts(o, "alter_id"@, c.alter_id as int)
            &&& c.cipher is Auto ==> says(o, "security"@, "auto"@)
            &&& c.cipher is Aes128Gcm ==> says(o, "security"@, "aes-128-gcm"@)
            &&& c.cipher is Chacha20Poly1305 ==> says(o, "security"@, "chacha20-poly1305"@)
            &&& c.cipher is Plain ==> says(o, "security"@, "none"@)
        }),
{
    names::lemma_outbound_names();
}

/// A Trojan outbound carries its password; a Shadowsocks one carries its method too,
/// and its plug-in with the options where it has one. A Shadowsocks outbound has no
/// transport and no security of its own.
pub proof fn law_password_outbounds_carry_their_password(n: NodeView)
    requires
        outbound::outbound_json(n) is Ok,
    ensures
        ({
            let o = outbound::outbound_json(n)->Ok_0;
            &&& n.protocol is Trojan ==> says(o, "type"@, "trojan"@) && says(
                o,
                "password"@,
                n.protocol->Trojan_0.password,
            )
            &&& n.protocol is Shadowsocks ==> {
                let c = n.protocol->Shadowsocks_0;
                &&& says(o, "type"@, "shadowsocks"@)
                &&& says(o, "password"@, c.password)
                &&& c.method is Aes128Gcm ==> says(o, "method"@, "aes-128-gcm"@)
                &&& c.method is Aes256Gcm ==> says(o, "method"@, "aes-256-gcm"@)
                &&& c.method is Chacha20IetfPoly1305 ==> says(
                    o,
                    "method"@,
                    "chacha20-ietf-poly1305"@,
                )
                &&& c.method is Ss2022Blake3Aes128Gcm ==> says(
                    o,
                    "method"@,
                    "2022-blake3-aes-128-gcm"@,
                )
                &&& c.method is Ss2022Blake3Aes256Gcm ==> says(
                    o,
                    "method"@,
                    "2022-blake3-aes-256-gcm"@,
                )
                &&& c.method is Ss2022Blake3Chacha20Poly1305 ==> says(
                    o,
                    "method"@,
                    "2022-blake3-chacha20-poly1305"@,
                )
                &&& may_say(o, "plugin"@, c.plugin)
                &&& c.plugin is Some ==> may_say(o, "plugin_opts"@, c.plugin_opts)
                &&& c.plugin is None ==> omits(o, "plugin_opts"@)
                &&& omits(o, "transport"@)
                &&& omits(o, "tls"@)
            }
        }),
{
    names::lemma_outbound_names();
}

/// A Hysteria2 outbound carries its password, its rates, its obfuscation and its port
/// range, each where it has one.
pub proof fn law_hysteria2_outbounds_carry_their_rates(n: NodeView)
    requires
        n.protocol is Hysteria2,
        outbound::outbound_json(n) is Ok,
    ensures
        ({
            let o = outbound::outbound_json(n)->Ok_0;
            let c = n.protocol->Hysteria2_0;
            &&& says(o, "type"@, "hysteria2"@)
            &&& says(o, "password"@, c.password)
            &&& match c.up_mbps {
                Some(v) => counts(o, "up_mbps"@, v as int),
                None => omits(o, "up_mbps"@),
            }
            &&& match c.down_mbps {
                Some(v) => counts(o, "down_mbps"@, v as int),
                None => omits(o, "down_mbps"@),
            }
            &&& match c.obfs {
                Some(f) => nests(o, "obfs"@) && says(within(o, "obfs"@), "type"@, f.obfs_type)
                    && says(within(o, "obfs"@), "password"@, f.password),
                None => omits(o, "obfs"@),
            }
            &&& may_say(o, "port_hopping"@, c.port_hopping)
            &&& omits(o, "transport"@)
            &&& omits(o, "tls"@)
        }),
{
    names::lemma_outbound_names();
}

/// A TUIC outbound names its user, password, congestion control and relay mode.
pub proof fn law_tuic_outbounds_name_their_user(n: NodeView)
    requires
        n.protocol is Tuic,
        outbound::outbound_json(n) is Ok,
    ensures
        ({
            let o = outbound::outbound_json(n)->Ok_0;
            let c = n.protocol->Tuic_0;
            &&& says(o, "type"@, "tuic"@)
            &&& says(o, "uuid"@, uuid::uuid_text(c.uuid))
            &&& says(o, "password"@, c.password)
            &&& c.congestion_control is Bbr ==> says(o, "congestion_control"@, "bbr"@)
            &&& c.congestion_control is Cubic ==> says(o, "congestion_control"@, "cubic"@)
            &&& c.congestion_control is NewReno ==> says(o, "congestion_control"@, "new_reno"@)
            &&& c.udp_relay_mode is Native ==> says(o, "udp_relay_mode"@, "native"@)
            &&& c.udp_relay_mode is Quic ==> says(o, "udp_relay_mode"@, "quic"@)
            &&& tells(o, "zero_rtt_handshake"@, c.zero_rtt_handshake)
            &&& omits(o, "transport"@)
            &&& omits(o, "tls"@)
        }),
{
    names::lemma_outbound_names();
}

/// A WireGuard outbound carries its keys, its addresses in order, and its reserved bytes
/// and packet size where it has them.
#[verifier::rlimit(40)]
pub proof fn law_wireguard_outbounds_carry_their_keys(n: NodeView)
    requires
        n.protocol is WireGuard,
        outbound::outbound_json(n) is Ok,
    ensures
        ({
            let o = outbound::outbound_json(n)->Ok_0;
            let c = n.protocol->WireGuard_0;
            let peers = json::member(o, "peers"@)->0;
            let addresses = json::member(o, "local_address"@)->0;
            let reserved = json::member(o, "reserved"@)->0;
            &&& says(o, "type"@, "wireguard"@)
            &&& says(o, "private_key"@, c.private_key)
            &&& json::member(o, "peers"@) is Some && peers is List && peers->List_0.len() == 1
            &&& says(peers->List_0[0], "public_key"@, c.peer_public_key)
            &&& may_say(peers->List_0[0], "preshared_key"@, c.preshared_key)
            &&& json::member(o, "local_address"@) is Some && addresses is List
            &&& addresses->List_0.len() == c.local_address.len()
            &&& forall|i: int|
                0 <= i < c.local_address.len() ==> (#[trigger] addresses->List_0[i]) == JsonView::Text(
                    ip::ip_text(c.local_address[i]),
                )
            &&& c.reserved is None ==> omits(o, "reserved"@)
            &&& c.reserved is Some ==> {
                &&& json::member(o, "reserved"@) is Some && reserved is List
                &&& reserved->List_0.len() == c.reserved->0@.len()
                &&& forall|i: int|
                    0 <= i < c.reserved->0@.len() ==> (#[trigger] reserved->List_0[i])
                        == JsonView::Number(c.reserved->0@[i] as u64)
            }
            &&& match c.mtu {
                Some(v) => counts(o, "mtu"@, v as int),
                None => omits(o, "mtu"@),
            }
            &&& omits(o, "transport"@)
            &&& omits(o, "tls"@)
        }),
{
    names::lemma_outbound_names();
}

/// The outbound of a stream protocol describes the node's transport; plain TCP needs no
/// description.
#[verifier::rlimit(40)]
pub proof fn law_stream_outbounds_describe_the_transport(n: NodeView)
    requires
        n.protocol is Vless || n.protocol is Vmess || n.protocol is Trojan,
        outbound::outbound_json(n) is Ok,
    ensures
        ({
            let o = outbound::outbound_json(n)->Ok_0;
            let t = within(o, "transport"@);
            match n.transport {
                TransportSpec::Tcp => omits(o, "transport"@),
                TransportSpec::WebSocket(c) => {
                    &&& nests(o, "transport"@)
                    &&& says(t, "type"@, "ws"@)
                    &&& says(t, "path"@, c.path)
                    &&& c.host is None ==> omits(t, "headers"@)
                    &&& c.host is Some ==> nests(t, "headers"@) && says(
                        within(t, "headers"@),
                        "Host"@,
                        c.host->0,
                    )
                    &&& counts(t, "max_early_data"@, c.max_early_data as int)
                    &&& c.early_data_header is Some ==> says(
                        t,
                        "early_data_header_name"@,
                        c.early_data_header->0,
                    )
                    &&& c.early_data_header is None ==> json::member(t, "early_data_header_name"@)
                        == Some(JsonView::Null)
                },
                TransportSpec::Grpc(c) => {
                    &&& nests(o, "transport"@)
                    &&& says(t, "type"@, "grpc"@)
                    &&& says(t, "service_name"@, c.service_name)
                    &&& c.multi_mode ==> says(t, "mode"@, "multi"@)
                    &&& !c.multi_mode ==> says(t, "mode"@, "gun"@)
                },
                TransportSpec::HttpUpgrade(c) => {
                    &&& nests(o, "transport"@)
                    &&& says(t, "type"@, "httpupgrade"@)
                    &&& says(t, "path"@, c.path)
                    &&& may_say(t, "host"@, c.host)
                },
                TransportSpec::XHttp(c) => {
                    &&& nests(o, "transport"@)
                    &&& says(t, "type"@, "xhttp"@)
                    &&& says(t, "path"@, c.path)
                    &&& c.mode is StreamOne ==> says(t, "mode"@, "stream-one"@)
                    &&& c.mode is StreamUp ==> says(t, "mode"@, "stream-up"@)
                    &&& c.mode is PacketUp ==> says(t, "mode"@, "packet-up"@)
                },
            }
        }),
{
    names::lemma_outbound_names();
}

/// The object asks for a handshake that looks like that of the browser, where there is
/// one to look like.
pub open spec fn imitates(o: JsonView, f: UtlsFingerprint) -> bool {
    match f {
        UtlsFingerprint::Disabled => omits(o, "utls"@),
        _ => nests(o, "utls"@) && tells(within(o, "utls"@), "enabled"@, true) && says(
            within(o, "utls"@),
            "fingerprint"@,
            match f {
                UtlsFingerprint::Chrome => "chrome"@,
                UtlsFingerprint::Firefox => "firefox"@,
                UtlsFingerprint::Safari => "safari"@,
                UtlsFingerprint::Edge => "edge"@,
                _ => "randomized"@,
            },
        ),
    }
}

/// The outbound of a stream protocol describes the node's security: the name that the
/// server must show, and whether certificates are checked or which key stands in their
/// place.
#[verifier::rlimit(40)]
pub proof fn law_stream_outbounds_describe_the_security(n: NodeView)
    requires
        n.protocol is Vless || n.protocol is Vmess || n.protocol is Trojan,
        outbound::outbound_json(n) is Ok,
    ensures
        ({
            let o = outbound::outbound_json(n)->Ok_0;
            let t = within(o, "tls"@);
            let reality = within(t, "reality"@);
            match n.security {
                SecuritySpec::Plain => omits(o, "tls"@),
                SecuritySpec::Tls(c) => {
                    &&& nests(o, "tls"@)
                    &&& tells(t, "enabled"@, true)
                    &&& says(t, "server_name"@, c.server_name)
                    &&& tells(t, "insecure"@, c.allow_insecure)
                    &&& imitates(t, c.fingerprint)
                    &&& c.alpn.len() == 0 ==> omits(t, "alpn"@)
                    &&& c.alpn.len() > 0 ==> {
                        &&& json::member(t, "alpn"@) is Some && json::member(t, "alpn"@)->0 is List
                        &&& json::member(t, "alpn"@)->0->List_0.len() == c.alpn.len()
                        &&& forall|i: int|
                            0 <= i < c.alpn.len() ==> (#[trigger] json::member(
                                t,
                                "alpn"@,
                            )->0->List_0[i]) == JsonView::Text(c.alpn[i])
                    }
                    &&& omits(t, "reality"@)
                },
                SecuritySpec::Reality(c) => {
                    &&& nests(o, "tls"@)
                    &&& tells(t, "enabled"@, true)
                    &&& says(t, "server_name"@, c.server_name)
                    &&& imitates(t, c.fingerprint)
                    &&& nests(t, "reality"@)
                    &&& tells(reality, "enabled"@, true)
                    &&& says(reality, "public_key"@, c.public_key)
                    &&& says(reality, "short_id"@, c.short_id)
                    &&& may_say(reality, "spider_x"@, c.spider_x)
                    &&& omits(t, "insecure"@)
                },
            }
        }),
{
    names::lemma_outbound_names();
}

/// An outbound describes how the node multiplexes, where it does.
pub proof fn law_outbounds_describe_multiplexing(n: NodeView)
    requires
        outbound::outbound_json(n) is Ok,
    ensures
        ({
            let o = outbound::outbound_json(n)->Ok_0;
            let m = within(o, "multiplex"@);
            match n.mux {
                None => omits(o, "multiplex"@),
                Some(mux) => {
                    &&& nests(o, "multiplex"@)
                    &&& tells(m, "enabled"@, mux.enabled)
                    &&& counts(m, "max_connections"@, mux.concurrency as int)
                    &&& mux.protocol is Smux ==> says(m, "protocol"@, "smux"@)
                    &&& mux.protocol is Yamux ==> says(m, "protocol"@, "yamux"@)
                    &&& mux.protocol is H2Mux ==> says(m, "protocol"@, "h2mux"@)
                },
            }
        }),
{
    names::lemma_outbound_names();
}

} // verus!
