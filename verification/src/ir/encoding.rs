//! The binary form of a node's functional identity.
use crate::ip::{IpAddr, IpView, SocketAddr};
use crate::ir::binary::Binary;
use crate::ir::node::{CanonicalNode, EndpointTarget, EndpointView, NodeMetadata, NodeView};
use crate::ir::protocol::{
    Hysteria2Config, Hysteria2Obfs, ProtocolSpec, ShadowsocksCipher, ShadowsocksConfig,
    TuicCongestion, TuicConfig, TuicUdpRelay, VlessConfig, VlessFlow, VmessCipher, VmessConfig,
    WireGuardConfig,
};
use crate::ir::transport::{
    MuxProtocol, MuxSpec, RealityConfig, SecuritySpec, StandardTlsConfig, TransportSpec,
    UtlsFingerprint, WebSocketConfig, XHttpMode,
};
use crate::ir::uuid::Uuid;
use vstd::prelude::*;

verus! {

// ---------------------------------------------------------------------------
// Model
// ---------------------------------------------------------------------------

/// The lowest `n` bytes of a number, least significant first.
pub open spec fn le_bytes(v: nat, n: nat) -> Seq<u8>
    decreases n,
{
    if n == 0 {
        Seq::empty()
    } else {
        seq![(v % 256) as u8] + le_bytes(v / 256, (n - 1) as nat)
    }
}

/// The lowest `n` bytes of a number, most significant first.
pub open spec fn be_bytes(v: nat, n: nat) -> Seq<u8>
    decreases n,
{
    if n == 0 {
        Seq::empty()
    } else {
        be_bytes(v / 256, (n - 1) as nat).push((v % 256) as u8)
    }
}

/// A text: its length in bytes as eight bytes, then its UTF-8 form.
pub open spec fn text_bytes(s: Seq<char>) -> Seq<u8> {
    let bytes = vstd::utf8::encode_utf8(s);
    le_bytes(bytes.len(), 8) + bytes
}

/// The number of an enumeration's variant, as four bytes.
pub open spec fn variant(n: nat) -> Seq<u8> {
    le_bytes(n, 4)
}

pub open spec fn flag(b: bool) -> Seq<u8> {
    if b {
        seq![1u8]
    } else {
        seq![0u8]
    }
}

/// An optional value: a zero byte, or a one byte and the value.
pub open spec fn optional<X>(v: Option<X>, bytes: spec_fn(X) -> Seq<u8>) -> Seq<u8> {
    match v {
        None => seq![0u8],
        Some(x) => seq![1u8] + bytes(x),
    }
}

pub open spec fn optional_text(v: Option<Seq<char>>) -> Seq<u8> {
    optional(v, |s: Seq<char>| text_bytes(s))
}

pub open spec fn uuid_bytes(id: Uuid) -> Seq<u8> {
    le_bytes(16, 8) + be_bytes(id.0 as nat, 16)
}

pub open spec fn ip_bytes(ip: IpView) -> Seq<u8> {
    match ip {
        IpView::V4(octets) => variant(0) + octets,
        IpView::V6(segments) => variant(1) + segment_bytes(segments),
    }
}

pub open spec fn segment_bytes(s: Seq<u16>) -> Seq<u8>
    decreases s.len(),
{
    if s.len() == 0 {
        Seq::empty()
    } else {
        segment_bytes(s.drop_last()) + be_bytes(s.last() as nat, 2)
    }
}

pub open spec fn ip_list_bytes(s: Seq<IpView>) -> Seq<u8>
    decreases s.len(),
{
    if s.len() == 0 {
        Seq::empty()
    } else {
        ip_list_bytes(s.drop_last()) + ip_bytes(s.last())
    }
}

pub open spec fn text_list_bytes(s: Seq<Seq<char>>) -> Seq<u8>
    decreases s.len(),
{
    if s.len() == 0 {
        Seq::empty()
    } else {
        text_list_bytes(s.drop_last()) + text_bytes(s.last())
    }
}

pub open spec fn endpoint_bytes(e: EndpointView) -> Seq<u8> {
    match e {
        EndpointTarget::Ip(addr) => variant(0) + ip_bytes(addr.ip) + le_bytes(addr.port as nat, 2),
        EndpointTarget::Domain { host, port } => variant(1) + text_bytes(host) + le_bytes(
            port as nat,
            2,
        ),
    }
}

pub open spec fn flow_number(f: VlessFlow) -> nat {
    match f {
        VlessFlow::XtlsRprxVision => 0,
        VlessFlow::XtlsRprxVisionUdp443 => 1,
    }
}

pub open spec fn cipher_number(c: VmessCipher) -> nat {
    match c {
        VmessCipher::Auto => 0,
        VmessCipher::Aes128Gcm => 1,
        VmessCipher::Chacha20Poly1305 => 2,
        VmessCipher::Plain => 3,
    }
}

pub open spec fn method_number(m: ShadowsocksCipher) -> nat {
    match m {
        ShadowsocksCipher::Aes128Gcm => 0,
        ShadowsocksCipher::Aes256Gcm => 1,
        ShadowsocksCipher::Chacha20IetfPoly1305 => 2,
        ShadowsocksCipher::Ss2022Blake3Aes128Gcm => 3,
        ShadowsocksCipher::Ss2022Blake3Aes256Gcm => 4,
        ShadowsocksCipher::Ss2022Blake3Chacha20Poly1305 => 5,
    }
}

pub open spec fn congestion_number(c: TuicCongestion) -> nat {
    match c {
        TuicCongestion::Bbr => 0,
        TuicCongestion::Cubic => 1,
        TuicCongestion::NewReno => 2,
    }
}

pub open spec fn relay_number(r: TuicUdpRelay) -> nat {
    match r {
        TuicUdpRelay::Native => 0,
        TuicUdpRelay::Quic => 1,
    }
}

pub open spec fn mode_number(m: XHttpMode) -> nat {
    match m {
        XHttpMode::StreamOne => 0,
        XHttpMode::StreamUp => 1,
        XHttpMode::PacketUp => 2,
    }
}

pub open spec fn fingerprint_number(f: UtlsFingerprint) -> nat {
    match f {
        UtlsFingerprint::Chrome => 0,
        UtlsFingerprint::Firefox => 1,
        UtlsFingerprint::Safari => 2,
        UtlsFingerprint::Edge => 3,
        UtlsFingerprint::Randomized => 4,
        UtlsFingerprint::Disabled => 5,
    }
}

pub open spec fn mux_number(m: MuxProtocol) -> nat {
    match m {
        MuxProtocol::Smux => 0,
        MuxProtocol::Yamux => 1,
        MuxProtocol::H2Mux => 2,
    }
}

pub open spec fn obfs_bytes(o: Hysteria2Obfs<Seq<char>>) -> Seq<u8> {
    text_bytes(o.obfs_type) + text_bytes(o.password)
}

pub open spec fn vless_bytes(c: VlessConfig) -> Seq<u8> {
    uuid_bytes(c.uuid) + optional(c.flow, |f: VlessFlow| variant(flow_number(f)))
}

pub open spec fn vmess_bytes(c: VmessConfig) -> Seq<u8> {
    uuid_bytes(c.uuid) + le_bytes(c.alter_id as nat, 2) + variant(cipher_number(c.cipher))
}

pub open spec fn shadowsocks_bytes(c: ShadowsocksConfig<Seq<char>>) -> Seq<u8> {
    variant(method_number(c.method)) + text_bytes(c.password) + optional_text(c.plugin)
        + optional_text(c.plugin_opts)
}

pub open spec fn hysteria2_bytes(c: Hysteria2Config<Seq<char>>) -> Seq<u8> {
    text_bytes(c.password) + optional(c.up_mbps, |v: u32| le_bytes(v as nat, 4)) + optional(
        c.down_mbps,
        |v: u32| le_bytes(v as nat, 4),
    ) + optional(c.obfs, |o: Hysteria2Obfs<Seq<char>>| obfs_bytes(o)) + optional_text(
        c.port_hopping,
    )
}

pub open spec fn tuic_bytes(c: TuicConfig<Seq<char>>) -> Seq<u8> {
    uuid_bytes(c.uuid) + text_bytes(c.password) + variant(congestion_number(c.congestion_control))
        + variant(relay_number(c.udp_relay_mode)) + flag(c.zero_rtt_handshake)
}

pub open spec fn wireguard_bytes(c: WireGuardConfig<Seq<char>, Seq<IpView>>) -> Seq<u8> {
    text_bytes(c.private_key) + text_bytes(c.peer_public_key) + optional_text(c.preshared_key)
        + le_bytes(c.local_address.len(), 8) + ip_list_bytes(c.local_address) + optional(
        c.reserved,
        |r: [u8; 3]| r@,
    ) + optional(c.mtu, |m: u16| le_bytes(m as nat, 2))
}

pub open spec fn protocol_bytes(p: ProtocolSpec<Seq<char>, Seq<IpView>>) -> Seq<u8> {
    match p {
        ProtocolSpec::Vless(c) => variant(0) + vless_bytes(c),
        ProtocolSpec::Vmess(c) => variant(1) + vmess_bytes(c),
        ProtocolSpec::Trojan(c) => variant(2) + text_bytes(c.password),
        ProtocolSpec::Shadowsocks(c) => variant(3) + shadowsocks_bytes(c),
        ProtocolSpec::Hysteria2(c) => variant(4) + hysteria2_bytes(c),
        ProtocolSpec::Tuic(c) => variant(5) + tuic_bytes(c),
        ProtocolSpec::WireGuard(c) => variant(6) + wireguard_bytes(c),
    }
}

pub open spec fn transport_bytes(t: TransportSpec<Seq<char>>) -> Seq<u8> {
    match t {
        TransportSpec::Tcp => variant(0),
        TransportSpec::WebSocket(c) => variant(1) + text_bytes(c.path) + optional_text(c.host)
            + le_bytes(c.max_early_data as nat, 4) + optional_text(c.early_data_header),
        TransportSpec::Grpc(c) => variant(2) + text_bytes(c.service_name) + flag(c.multi_mode),
        TransportSpec::HttpUpgrade(c) => variant(3) + text_bytes(c.path) + optional_text(c.host),
        TransportSpec::XHttp(c) => variant(4) + variant(mode_number(c.mode)) + text_bytes(c.path)
            + optional_text(c.host),
    }
}

pub open spec fn security_bytes(s: SecuritySpec<Seq<char>, Seq<Seq<char>>>) -> Seq<u8> {
    match s {
        SecuritySpec::Plain => variant(0),
        SecuritySpec::Tls(c) => variant(1) + text_bytes(c.server_name) + le_bytes(c.alpn.len(), 8)
            + text_list_bytes(c.alpn) + variant(fingerprint_number(c.fingerprint)) + flag(
            c.allow_insecure,
        ),
        SecuritySpec::Reality(c) => variant(2) + text_bytes(c.server_name) + text_bytes(
            c.public_key,
        ) + text_bytes(c.short_id) + optional_text(c.spider_x) + variant(
            fingerprint_number(c.fingerprint),
        ),
    }
}

pub open spec fn mux_bytes(m: MuxSpec) -> Seq<u8> {
    flag(m.enabled) + le_bytes(m.concurrency as nat, 2) + variant(mux_number(m.protocol))
}

/// The functional identity of a node: everything that decides where and how a
/// connection is made, and nothing else.
pub open spec fn identity_bytes(
    version: u8,
    endpoint: EndpointView,
    protocol: ProtocolSpec<Seq<char>, Seq<IpView>>,
    transport: TransportSpec<Seq<char>>,
    security: SecuritySpec<Seq<char>, Seq<Seq<char>>>,
    mux: Option<MuxSpec>,
) -> Seq<u8> {
    seq![version] + endpoint_bytes(endpoint) + protocol_bytes(protocol) + transport_bytes(transport)
        + security_bytes(security) + optional(mux, |m: MuxSpec| mux_bytes(m))
}

pub open spec fn meta_bytes(m: NodeMetadata<Seq<char>>) -> Seq<u8> {
    le_bytes(m.sub_id as nat, 2) + text_bytes(m.label) + m.country_code@ + le_bytes(
        m.import_timestamp as nat,
        8,
    )
}

/// A whole node, as it is persisted.
pub open spec fn node_bytes(n: NodeView) -> Seq<u8> {
    n.hash + meta_bytes(n.meta) + endpoint_bytes(n.endpoint) + protocol_bytes(n.protocol)
        + transport_bytes(n.transport) + security_bytes(n.security) + optional(
        n.mux,
        |m: MuxSpec| mux_bytes(m),
    )
}

/// The SHA-256 digest of bytes, as `sha2::Sha256::digest` computes it.
pub uninterp spec fn sha256_of(bytes: Seq<u8>) -> Seq<u8>;

// ---------------------------------------------------------------------------
// Outside calls
// ---------------------------------------------------------------------------

/// `sha2::Sha256::digest`: the digest of the bytes, under a name.
#[verifier::external_body]
pub(crate) fn sha256(bytes: &Vec<u8>) -> (r: [u8; 32])
    ensures
        r@ == sha256_of(bytes@),
{
    <sha2::Sha256 as sha2::Digest>::digest(bytes.as_slice()).into()
}

/// `bincode::serialize` of a `u16`: two bytes, least significant first. Writing
/// an integer to memory without a size limit does not fail.
#[verifier::external_body]
fn bincode_u16(v: u16) -> (r: Vec<u8>)
    ensures
        r@ == le_bytes(v as nat, 2),
{
    bincode::serialize(&v).unwrap_or_default()
}

/// `bincode::serialize` of a `u32`: four bytes, least significant first.
#[verifier::external_body]
fn bincode_u32(v: u32) -> (r: Vec<u8>)
    ensures
        r@ == le_bytes(v as nat, 4),
{
    bincode::serialize(&v).unwrap_or_default()
}

/// `bincode::serialize` of a `u64`: eight bytes, least significant first.
#[verifier::external_body]
fn bincode_u64(v: u64) -> (r: Vec<u8>)
    ensures
        r@ == le_bytes(v as nat, 8),
{
    bincode::serialize(&v).unwrap_or_default()
}

/// `bincode::serialize` of a `str`: the length in bytes as a `u64`, then the
/// bytes. Writing a text to memory without a size limit does not fail.
#[verifier::external_body]
fn bincode_str(s: &str) -> (r: Vec<u8>)
    ensures
        r@ == text_bytes(s@),
{
    bincode::serialize(s).unwrap_or_default()
}

// ---------------------------------------------------------------------------
// Executable forms
// ---------------------------------------------------------------------------

pub(crate) fn put_u16(out: &mut Vec<u8>, v: u16)
    ensures
        final(out)@ == old(out)@ + le_bytes(v as nat, 2),
{
    let mut bytes = bincode_u16(v);
    out.append(&mut bytes);
}

pub(crate) fn put_u32(out: &mut Vec<u8>, v: u32)
    ensures
        final(out)@ == old(out)@ + le_bytes(v as nat, 4),
{
    let mut bytes = bincode_u32(v);
    out.append(&mut bytes);
}

pub(crate) fn put_u64(out: &mut Vec<u8>, v: u64)
    ensures
        final(out)@ == old(out)@ + le_bytes(v as nat, 8),
{
    let mut bytes = bincode_u64(v);
    out.append(&mut bytes);
}

fn put_len(out: &mut Vec<u8>, v: usize)
    ensures
        final(out)@ == old(out)@ + le_bytes(v as nat, 8),
{
    put_u64(out, v as u64);
}

pub(crate) fn put_text(out: &mut Vec<u8>, s: &String)
    ensures
        final(out)@ == old(out)@ + text_bytes(s@),
        String::fits(s@),
{
    out.reserve(s.as_str().as_bytes().len());
    let mut bytes = bincode_str(s.as_str());
    out.append(&mut bytes);
}

pub(crate) fn put_flag(out: &mut Vec<u8>, b: bool)
    ensures
        final(out)@ == old(out)@ + flag(b),
{
    out.push(if b { 1 } else { 0 });
}

fn put_optional_text(out: &mut Vec<u8>, v: &Option<String>)
    ensures
        final(out)@ == old(out)@ + optional_text(crate::text::text_of(*v)),
        <Option<String> as Binary>::fits(crate::text::text_of(*v)),
{
    let ghost start = out@;
    match v {
        None => out.push(0),
        Some(s) => {
            out.push(1);
            put_text(out, s);
            assert(out@ =~= start + (seq![1u8] + text_bytes(s@)));
        },
    }
}

pub(crate) fn put_optional_u32(out: &mut Vec<u8>, v: Option<u32>)
    ensures
        final(out)@ == old(out)@ + optional(v, |v: u32| le_bytes(v as nat, 4)),
{
    let ghost start = out@;
    match v {
        None => out.push(0),
        Some(n) => {
            out.push(1);
            put_u32(out, n);
            assert(out@ =~= start + (seq![1u8] + le_bytes(n as nat, 4)));
        },
    }
}

/// Appends the lowest `n` bytes of a number, most significant first.
fn put_be(out: &mut Vec<u8>, v: u128, n: usize)
    ensures
        final(out)@ == old(out)@ + be_bytes(v as nat, n as nat),
    decreases n,
{
    let ghost start = out@;
    if n > 0 {
        put_be(out, v / 256, n - 1);
        out.push((v % 256) as u8);
        assert(out@ =~= start + be_bytes(v as nat, n as nat));
    }
}

fn put_uuid(out: &mut Vec<u8>, id: Uuid)
    ensures
        final(out)@ == old(out)@ + uuid_bytes(id),
{
    let ghost start = out@;
    put_len(out, 16);
    put_be(out, id.0, 16);
    assert(out@ =~= start + uuid_bytes(id));
}

fn put_ip(out: &mut Vec<u8>, ip: &IpAddr)
    ensures
        final(out)@ == old(out)@ + ip_bytes(ip@),
        IpAddr::fits(ip@),
{
    let ghost start = out@;
    match ip {
        IpAddr::V4(o) => {
            put_u32(out, 0);
            out.push(o[0]);
            out.push(o[1]);
            out.push(o[2]);
            out.push(o[3]);
            assert(out@ =~= start + (variant(0) + o@));
        },
        IpAddr::V6(s) => {
            put_u32(out, 1);
            let mut i: usize = 0;
            assert(s@.take(0) =~= Seq::<u16>::empty());
            while i < 8
                invariant
                    i <= 8,
                    s@.len() == 8,
                    out@ == start + (variant(1) + segment_bytes(s@.take(i as int))),
                decreases 8 - i,
            {
                put_be(out, s[i] as u128, 2);
                assert(s@.take(i + 1).drop_last() =~= s@.take(i as int));
                assert(out@ =~= start + (variant(1) + segment_bytes(s@.take(i + 1))));
                i += 1;
            }
            assert(s@.take(8) =~= s@);
        },
    }
}

fn put_endpoint(out: &mut Vec<u8>, e: &EndpointTarget)
    ensures
        final(out)@ == old(out)@ + endpoint_bytes(e@),
        EndpointTarget::fits(e@),
{
    let ghost start = out@;
    match e {
        EndpointTarget::Ip(addr) => {
            put_u32(out, 0);
            put_ip(out, &addr.ip);
            put_u16(out, addr.port);
        },
        EndpointTarget::Domain { host, port } => {
            put_u32(out, 1);
            put_text(out, host);
            put_u16(out, *port);
        },
    }
    assert(out@ =~= start + endpoint_bytes(e@));
}

fn flow_of(f: VlessFlow) -> (r: u32)
    ensures
        r == flow_number(f),
{
    match f {
        VlessFlow::XtlsRprxVision => 0,
        VlessFlow::XtlsRprxVisionUdp443 => 1,
    }
}

fn cipher_of(c: VmessCipher) -> (r: u32)
    ensures
        r == cipher_number(c),
{
    match c {
        VmessCipher::Auto => 0,
        VmessCipher::Aes128Gcm => 1,
        VmessCipher::Chacha20Poly1305 => 2,
        VmessCipher::Plain => 3,
    }
}

fn method_of(m: ShadowsocksCipher) -> (r: u32)
    ensures
        r == method_number(m),
{
    match m {
        ShadowsocksCipher::Aes128Gcm => 0,
        ShadowsocksCipher::Aes256Gcm => 1,
        ShadowsocksCipher::Chacha20IetfPoly1305 => 2,
        ShadowsocksCipher::Ss2022Blake3Aes128Gcm => 3,
        ShadowsocksCipher::Ss2022Blake3Aes256Gcm => 4,
        ShadowsocksCipher::Ss2022Blake3Chacha20Poly1305 => 5,
    }
}

fn congestion_of(c: TuicCongestion) -> (r: u32)
    ensures
        r == congestion_number(c),
{
    match c {
        TuicCongestion::Bbr => 0,
        TuicCongestion::Cubic => 1,
        TuicCongestion::NewReno => 2,
    }
}

fn relay_of(m: TuicUdpRelay) -> (r: u32)
    ensures
        r == relay_number(m),
{
    match m {
        TuicUdpRelay::Native => 0,
        TuicUdpRelay::Quic => 1,
    }
}

fn mode_of(m: XHttpMode) -> (r: u32)
    ensures
        r == mode_number(m),
{
    match m {
        XHttpMode::StreamOne => 0,
        XHttpMode::StreamUp => 1,
        XHttpMode::PacketUp => 2,
    }
}

fn fingerprint_of(f: UtlsFingerprint) -> (r: u32)
    ensures
        r == fingerprint_number(f),
{
    match f {
        UtlsFingerprint::Chrome => 0,
        UtlsFingerprint::Firefox => 1,
        UtlsFingerprint::Safari => 2,
        UtlsFingerprint::Edge => 3,
        UtlsFingerprint::Randomized => 4,
        UtlsFingerprint::Disabled => 5,
    }
}

fn mux_of(m: MuxProtocol) -> (r: u32)
    ensures
        r == mux_number(m),
{
    match m {
        MuxProtocol::Smux => 0,
        MuxProtocol::Yamux => 1,
        MuxProtocol::H2Mux => 2,
    }
}

fn put_vless(out: &mut Vec<u8>, c: &VlessConfig)
    ensures
        final(out)@ == old(out)@ + vless_bytes(*c),
{
    let ghost start = out@;
    put_uuid(out, c.uuid);
    match c.flow {
        None => out.push(0),
        Some(f) => {
            out.push(1);
            put_u32(out, flow_of(f));
        },
    }
    assert(out@ =~= start + vless_bytes(*c));
}

fn put_vmess(out: &mut Vec<u8>, c: &VmessConfig)
    ensures
        final(out)@ == old(out)@ + vmess_bytes(*c),
{
    let ghost start = out@;
    put_uuid(out, c.uuid);
    put_u16(out, c.alter_id);
    put_u32(out, cipher_of(c.cipher));
    assert(out@ =~= start + vmess_bytes(*c));
}

fn put_shadowsocks(out: &mut Vec<u8>, c: &ShadowsocksConfig)
    ensures
        final(out)@ == old(out)@ + shadowsocks_bytes(c@),
        ShadowsocksConfig::fits(c@),
{
    let ghost start = out@;
    put_u32(out, method_of(c.method));
    put_text(out, &c.password);
    put_optional_text(out, &c.plugin);
    put_optional_text(out, &c.plugin_opts);
    assert(out@ =~= start + shadowsocks_bytes(c@));
}

fn put_hysteria2(out: &mut Vec<u8>, c: &Hysteria2Config)
    ensures
        final(out)@ == old(out)@ + hysteria2_bytes(c@),
        Hysteria2Config::fits(c@),
{
    let ghost start = out@;
    put_text(out, &c.password);
    put_optional_u32(out, c.up_mbps);
    put_optional_u32(out, c.down_mbps);
    let ghost middle = out@;
    match &c.obfs {
        None => out.push(0),
        Some(o) => {
            out.push(1);
            put_text(out, &o.obfs_type);
            put_text(out, &o.password);
            assert(out@ =~= middle + (seq![1u8] + obfs_bytes(o@)));
        },
    }
    put_optional_text(out, &c.port_hopping);
    assert(out@ =~= start + hysteria2_bytes(c@));
}

fn put_tuic(out: &mut Vec<u8>, c: &TuicConfig)
    ensures
        final(out)@ == old(out)@ + tuic_bytes(c@),
        TuicConfig::fits(c@),
{
    let ghost start = out@;
    put_uuid(out, c.uuid);
    put_text(out, &c.password);
    put_u32(out, congestion_of(c.congestion_control));
    put_u32(out, relay_of(c.udp_relay_mode));
    put_flag(out, c.zero_rtt_handshake);
    assert(out@ =~= start + tuic_bytes(c@));
}

fn put_ip_list(out: &mut Vec<u8>, list: &Vec<IpAddr>)
    ensures
        final(out)@ == old(out)@ + le_bytes(list@.len(), 8) + ip_list_bytes(
            crate::ir::protocol::addresses(list@),
        ),
        <Vec<IpAddr> as Binary>::fits(crate::ir::protocol::addresses(list@)),
{
    let ghost start = out@ + le_bytes(list@.len(), 8);
    let ghost all = crate::ir::protocol::addresses(list@);
    put_len(out, list.len());
    let mut i: usize = 0;
    assert(all.take(0) =~= Seq::<IpView>::empty());
    assert(out@ =~= start + ip_list_bytes(all.take(0)));
    while i < list.len()
        invariant
            i <= list@.len(),
            all == crate::ir::protocol::addresses(list@),
            out@ == start + ip_list_bytes(all.take(i as int)),
            forall|k: int| 0 <= k < i ==> IpAddr::fits(#[trigger] all[k]),
        decreases list@.len() - i,
    {
        put_ip(out, &list[i]);
        assert(all.take(i + 1).drop_last() =~= all.take(i as int));
        assert(out@ =~= start + ip_list_bytes(all.take(i + 1)));
        i += 1;
    }
    assert(all.take(all.len() as int) =~= all);
}

pub(crate) fn put_text_list(out: &mut Vec<u8>, list: &Vec<String>)
    ensures
        final(out)@ == old(out)@ + le_bytes(list@.len(), 8) + text_list_bytes(
            crate::text::texts_of(list@),
        ),
        <Vec<String> as Binary>::fits(crate::text::texts_of(list@)),
{
    let ghost start = out@ + le_bytes(list@.len(), 8);
    let ghost all = crate::text::texts_of(list@);
    put_len(out, list.len());
    let mut i: usize = 0;
    assert(all.take(0) =~= Seq::<Seq<char>>::empty());
    assert(out@ =~= start + text_list_bytes(all.take(0)));
    while i < list.len()
        invariant
            i <= list@.len(),
            all == crate::text::texts_of(list@),
            out@ == start + text_list_bytes(all.take(i as int)),
            forall|k: int| 0 <= k < i ==> String::fits(#[trigger] all[k]),
        decreases list@.len() - i,
    {
        put_text(out, &list[i]);
        assert(all.take(i + 1).drop_last() =~= all.take(i as int));
        assert(out@ =~= start + text_list_bytes(all.take(i + 1)));
        i += 1;
    }
    assert(all.take(all.len() as int) =~= all);
}

fn put_reserved(out: &mut Vec<u8>, v: Option<[u8; 3]>)
    ensures
        final(out)@ == old(out)@ + optional(v, |r: [u8; 3]| r@),
{
    let ghost start = out@;
    match v {
        None => out.push(0),
        Some(r) => {
            out.push(1);
            out.push(r[0]);
            out.push(r[1]);
            out.push(r[2]);
            assert(out@ =~= start + (seq![1u8] + r@));
        },
    }
}

fn put_optional_u16(out: &mut Vec<u8>, v: Option<u16>)
    ensures
        final(out)@ == old(out)@ + optional(v, |m: u16| le_bytes(m as nat, 2)),
{
    let ghost start = out@;
    match v {
        None => out.push(0),
        Some(m) => {
            out.push(1);
            put_u16(out, m);
            assert(out@ =~= start + (seq![1u8] + le_bytes(m as nat, 2)));
        },
    }
}

fn put_wireguard(out: &mut Vec<u8>, c: &WireGuardConfig)
    ensures
        final(out)@ == old(out)@ + wireguard_bytes(c@),
        WireGuardConfig::fits(c@),
{
    let ghost start = out@;
    put_text(out, &c.private_key);
    put_text(out, &c.peer_public_key);
    put_optional_text(out, &c.preshared_key);
    let ghost keys = text_bytes(c@.private_key) + text_bytes(c@.peer_public_key) + optional_text(
        c@.preshared_key,
    );
    assert(out@ =~= start + keys);
    put_ip_list(out, &c.local_address);
    let ghost listed = keys + le_bytes(c@.local_address.len(), 8) + ip_list_bytes(c@.local_address);
    assert(out@ =~= start + listed);
    put_reserved(out, c.reserved);
    put_optional_u16(out, c.mtu);
    assert(out@ =~= start + wireguard_bytes(c@));
}

fn put_protocol(out: &mut Vec<u8>, p: &ProtocolSpec)
    ensures
        final(out)@ == old(out)@ + protocol_bytes(p@),
        ProtocolSpec::fits(p@),
{
    let ghost start = out@;
    match p {
        ProtocolSpec::Vless(c) => {
            put_u32(out, 0);
            put_vless(out, c);
        },
        ProtocolSpec::Vmess(c) => {
            put_u32(out, 1);
            put_vmess(out, c);
        },
        ProtocolSpec::Trojan(c) => {
            put_u32(out, 2);
            put_text(out, &c.password);
        },
        ProtocolSpec::Shadowsocks(c) => {
            put_u32(out, 3);
            put_shadowsocks(out, c);
        },
        ProtocolSpec::Hysteria2(c) => {
            put_u32(out, 4);
            put_hysteria2(out, c);
        },
        ProtocolSpec::Tuic(c) => {
            put_u32(out, 5);
            put_tuic(out, c);
        },
        ProtocolSpec::WireGuard(c) => {
            put_u32(out, 6);
            put_wireguard(out, c);
        },
    }
    assert(out@ =~= start + protocol_bytes(p@));
}

fn put_transport(out: &mut Vec<u8>, t: &TransportSpec)
    ensures
        final(out)@ == old(out)@ + transport_bytes(t@),
        TransportSpec::fits(t@),
{
    let ghost start = out@;
    match t {
        TransportSpec::Tcp => put_u32(out, 0),
        TransportSpec::WebSocket(c) => {
            put_u32(out, 1);
            put_text(out, &c.path);
            put_optional_text(out, &c.host);
            put_u32(out, c.max_early_data);
            put_optional_text(out, &c.early_data_header);
        },
        TransportSpec::Grpc(c) => {
            put_u32(out, 2);
            put_text(out, &c.service_name);
            put_flag(out, c.multi_mode);
        },
        TransportSpec::HttpUpgrade(c) => {
            put_u32(out, 3);
            put_text(out, &c.path);
            put_optional_text(out, &c.host);
        },
        TransportSpec::XHttp(c) => {
            put_u32(out, 4);
            put_u32(out, mode_of(c.mode));
            put_text(out, &c.path);
            put_optional_text(out, &c.host);
        },
    }
    assert(out@ =~= start + transport_bytes(t@));
}

fn put_security(out: &mut Vec<u8>, s: &SecuritySpec)
    ensures
        final(out)@ == old(out)@ + security_bytes(s@),
        SecuritySpec::fits(s@),
{
    let ghost start = out@;
    match s {
        SecuritySpec::Plain => put_u32(out, 0),
        SecuritySpec::Tls(c) => {
            put_u32(out, 1);
            put_text(out, &c.server_name);
            put_text_list(out, &c.alpn);
            put_u32(out, fingerprint_of(c.fingerprint));
            put_flag(out, c.allow_insecure);
        },
        SecuritySpec::Reality(c) => {
            put_u32(out, 2);
            put_text(out, &c.server_name);
            put_text(out, &c.public_key);
            put_text(out, &c.short_id);
            put_optional_text(out, &c.spider_x);
            put_u32(out, fingerprint_of(c.fingerprint));
        },
    }
    assert(out@ =~= start + security_bytes(s@));
}

fn put_mux(out: &mut Vec<u8>, mux: &Option<MuxSpec>)
    ensures
        final(out)@ == old(out)@ + optional(*mux, |m: MuxSpec| mux_bytes(m)),
{
    let ghost start = out@;
    match mux {
        None => out.push(0),
        Some(m) => {
            out.push(1);
            put_flag(out, m.enabled);
            put_u16(out, m.concurrency);
            put_u32(out, mux_of(m.protocol));
            assert(out@ =~= start + (seq![1u8] + mux_bytes(*m)));
        },
    }
}

pub(crate) fn put_raw(out: &mut Vec<u8>, bytes: &[u8])
    ensures
        final(out)@ == old(out)@ + bytes@,
{
    let ghost start = out@;
    let mut i: usize = 0;
    assert(start =~= start + bytes@.take(0));
    while i < bytes.len()
        invariant
            i <= bytes@.len(),
            out@ == start + bytes@.take(i as int),
        decreases bytes@.len() - i,
    {
        out.push(bytes[i]);
        assert(out@ =~= start + bytes@.take(i + 1));
        i += 1;
    }
    assert(bytes@.take(bytes@.len() as int) =~= bytes@);
}

fn put_meta(out: &mut Vec<u8>, m: &NodeMetadata)
    ensures
        final(out)@ == old(out)@ + meta_bytes(m@),
        NodeMetadata::fits(m@),
{
    let ghost start = out@;
    put_u16(out, m.sub_id);
    put_text(out, &m.label);
    put_raw(out, &m.country_code);
    put_u64(out, m.import_timestamp);
    assert(out@ =~= start + meta_bytes(m@));
}

/// Encodes a node as it is persisted.
pub fn encode_node(node: &CanonicalNode) -> (r: Vec<u8>)
    ensures
        r@ == node_bytes(node@),
        CanonicalNode::fits(node@),
{
    let mut out: Vec<u8> = Vec::new();
    put_raw(&mut out, &node.hash);
    put_meta(&mut out, &node.meta);
    put_endpoint(&mut out, &node.endpoint);
    put_protocol(&mut out, &node.protocol);
    put_transport(&mut out, &node.transport);
    put_security(&mut out, &node.security);
    put_mux(&mut out, &node.mux);
    assert(out@ =~= node_bytes(node@));
    out
}

/// Encodes a functional identity.
pub fn encode_identity(
    version: u8,
    endpoint: &EndpointTarget,
    protocol: &ProtocolSpec,
    transport: &TransportSpec,
    security: &SecuritySpec,
    mux: &Option<MuxSpec>,
) -> (r: Vec<u8>)
    ensures
        r@ == identity_bytes(version, endpoint@, protocol@, transport@, security@, *mux),
{
    let mut out: Vec<u8> = Vec::new();
    out.push(version);
    put_endpoint(&mut out, endpoint);
    put_protocol(&mut out, protocol);
    put_transport(&mut out, transport);
    put_security(&mut out, security);
    put_mux(&mut out, mux);
    assert(out@ =~= identity_bytes(version, endpoint@, protocol@, transport@, security@, *mux));
    out
}

} // verus!
