//! Reading the binary form of a node's parts back.
use crate::ip::{IpAddr, IpView, SocketAddr, SocketView};
use crate::ir::binary;
use crate::ir::binary::{Binary, Read, Shaped};
use crate::ir::encoding;
use crate::ir::node::{
    CanonicalHash, CanonicalNode, EndpointTarget, EndpointView, NodeMetadata, NodeView,
};
use crate::ir::protocol;
use crate::ir::protocol::{
    Hysteria2Config, Hysteria2Obfs, ProtocolSpec, ShadowsocksCipher, ShadowsocksConfig,
    TrojanConfig, TuicCongestion, TuicConfig, TuicUdpRelay, VlessConfig, VlessFlow, VmessCipher,
    VmessConfig, WireGuardConfig,
};
use crate::ir::transport::{
    GrpcConfig, HttpUpgradeConfig, MuxProtocol, MuxSpec, RealityConfig, SecuritySpec,
    StandardTlsConfig, TransportSpec, UtlsFingerprint, WebSocketConfig, XHttpConfig, XHttpMode,
};
use crate::ir::uuid::Uuid;
use crate::text;
use vstd::prelude::*;
use vstd::slice::slice_subrange;

verus! {

/// What connects a node, in the order in which it is written.
type Link = (EndpointTarget, (ProtocolSpec, (TransportSpec, (SecuritySpec, Option<MuxSpec>))));

// ---------------------------------------------------------------------------
// Identifiers and addresses
// ---------------------------------------------------------------------------

/// The number of the first `n` bytes, most significant first.
fn leading(s: &[u8], n: usize) -> (r: u128)
    requires
        n <= 16,
        n <= s@.len(),
    ensures
        r == binary::be_value(s@.take(n as int)),
{
    let mut v: u128 = 0;
    let mut i: usize = 0;
    while i < n
        invariant
            i <= n <= 16,
            n <= s@.len(),
            v == binary::be_value(s@.take(i as int)),
        decreases n - i,
    {
        proof {
            let next = s@.take(i + 1);
            assert(next.drop_last() =~= s@.take(i as int));
            binary::lemma_be_back(next);
            binary::lemma_powers();
            binary::lemma_power_grows((i + 1) as nat, 16);
        }
        v = v * 256 + s[i] as u128;
        i += 1;
    }
    v
}

impl Binary for Uuid {
    type Model = Uuid;

    open spec fn model(self) -> Uuid {
        self
    }

    open spec fn bytes(m: Uuid) -> Seq<u8> {
        encoding::uuid_bytes(m)
    }

    open spec fn fits(m: Uuid) -> bool {
        true
    }

    open spec fn read(s: Seq<u8>) -> Read<Uuid> {
        match u64::read(s) {
            Some((16, rest)) => match binary::read_raw(rest, 16) {
                Some((bytes, rest)) => Some((Uuid(binary::be_value(bytes) as u128), rest)),
                None => None,
            },
            _ => None,
        }
    }

    proof fn reads_back(m: Uuid, rest: Seq<u8>) {
        let bytes = encoding::be_bytes(m.0 as nat, 16);
        binary::lemma_powers();
        binary::lemma_be(m.0 as nat, 16);
        assert(Self::bytes(m) + rest =~= u64::bytes(16) + (bytes + rest));
        u64::reads_back(16, bytes + rest);
        binary::lemma_raw(bytes, rest);
    }

    proof fn was_written(s: Seq<u8>) {
        u64::was_written(s);
        let rest = u64::read(s)->Some_0.1;
        binary::lemma_raw_back(rest, 16);
        binary::lemma_powers();
        binary::lemma_be_back(binary::read_raw(rest, 16)->Some_0.0);
        assert(s =~= Self::bytes(Self::read(s)->Some_0.0) + Self::read(s)->Some_0.1);
    }

    fn take<'a>(s: &'a [u8]) -> (r: Option<(Uuid, &'a [u8])>) {
        match u64::take(s) {
            Some((16, rest)) => if rest.len() >= 16 {
                Some((Uuid(leading(rest, 16)), slice_subrange(rest, 16, rest.len())))
            } else {
                None
            },
            _ => None,
        }
    }
}

/// The first `n` segments of an address.
pub open spec fn read_segments(s: Seq<u8>, n: nat) -> Read<Seq<u16>>
    decreases n,
{
    if n == 0 {
        Some((Seq::empty(), s))
    } else {
        match read_segments(s, (n - 1) as nat) {
            Some((before, rest)) => match binary::read_raw(rest, 2) {
                Some((part, rest)) => Some((before.push(binary::be_value(part) as u16), rest)),
                None => None,
            },
            None => None,
        }
    }
}

proof fn lemma_segments(v: Seq<u16>, rest: Seq<u8>)
    ensures
        read_segments(encoding::segment_bytes(v) + rest, v.len()) == Some((v, rest)),
    decreases v.len(),
{
    if v.len() == 0 {
        assert(encoding::segment_bytes(v) + rest =~= rest);
        assert(v =~= Seq::empty());
    } else {
        let (head, last) = (v.drop_last(), encoding::be_bytes(v.last() as nat, 2));
        binary::lemma_powers();
        binary::lemma_be(v.last() as nat, 2);
        assert(encoding::segment_bytes(v) + rest =~= encoding::segment_bytes(head) + (last + rest));
        lemma_segments(head, last + rest);
        binary::lemma_raw(last, rest);
        assert(v =~= head.push(v.last()));
    }
}

proof fn lemma_segments_back(s: Seq<u8>, n: nat)
    requires
        read_segments(s, n) is Some,
    ensures
        ({
            let (v, rest) = read_segments(s, n)->Some_0;
            s == encoding::segment_bytes(v) + rest && v.len() == n
        }),
    decreases n,
{
    let (v, rest) = read_segments(s, n)->Some_0;
    if n > 0 {
        lemma_segments_back(s, (n - 1) as nat);
        let (head, middle) = read_segments(s, (n - 1) as nat)->Some_0;
        binary::lemma_raw_back(middle, 2);
        binary::lemma_powers();
        binary::lemma_be_back(binary::read_raw(middle, 2)->Some_0.0);
        assert(v.drop_last() =~= head);
    }
    assert(s =~= encoding::segment_bytes(v) + rest);
}

/// Reads eight segments.
fn take_segments<'a>(start: &'a [u8]) -> (r: Option<([u16; 8], &'a [u8])>)
    ensures
        (match r {
            Some((v, rest)) => read_segments(start@, 8) == Some((v@, rest@)),
            None => read_segments(start@, 8) is None,
        }),
{
    reveal_with_fuel(read_segments, 9);
    if start.len() < 16 {
        return None;
    }
    let mut v: [u16; 8] = [0;8];
    let mut left = start;
    let mut i: usize = 0;
    while i < 8
        invariant
            i <= 8,
            v@.len() == 8,
            left@.len() == start@.len() - 2 * i,
            start@.len() >= 16,
            read_segments(start@, i as nat) == Some((v@.take(i as int), left@)),
        decreases 8 - i,
    {
        let ghost before = v@;
        let part: u128 = leading(left, 2);
        proof {
            binary::lemma_powers();
            binary::lemma_be_back(left@.take(2));
        }
        v[i] = part as u16;
        left = slice_subrange(left, 2, left.len());
        assert(v@.take(i + 1) =~= before.take(i as int).push(part as u16));
        i += 1;
    }
    assert(v@.take(8) =~= v@);
    Some((v, left))
}

impl Binary for IpAddr {
    type Model = IpView;

    open spec fn model(self) -> IpView {
        self@
    }

    open spec fn bytes(m: IpView) -> Seq<u8> {
        encoding::ip_bytes(m)
    }

    open spec fn fits(m: IpView) -> bool {
        match m {
            IpView::V4(octets) => octets.len() == 4,
            IpView::V6(segments) => segments.len() == 8,
        }
    }

    open spec fn read(s: Seq<u8>) -> Read<IpView> {
        match u32::read(s) {
            Some((0, rest)) => match binary::read_raw(rest, 4) {
                Some((octets, rest)) => Some((IpView::V4(octets), rest)),
                None => None,
            },
            Some((1, rest)) => match read_segments(rest, 8) {
                Some((segments, rest)) => Some((IpView::V6(segments), rest)),
                None => None,
            },
            _ => None,
        }
    }

    proof fn reads_back(m: IpView, rest: Seq<u8>) {
        match m {
            IpView::V4(octets) => {
                assert(Self::bytes(m) + rest =~= u32::bytes(0) + (octets + rest));
                u32::reads_back(0, octets + rest);
                binary::lemma_raw(octets, rest);
            },
            IpView::V6(segments) => {
                let part = encoding::segment_bytes(segments);
                assert(Self::bytes(m) + rest =~= u32::bytes(1) + (part + rest));
                u32::reads_back(1, part + rest);
                lemma_segments(segments, rest);
            },
        }
    }

    proof fn was_written(s: Seq<u8>) {
        u32::was_written(s);
        let (n, rest) = u32::read(s)->Some_0;
        if n == 0 {
            binary::lemma_raw_back(rest, 4);
        } else {
            lemma_segments_back(rest, 8);
        }
        assert(s =~= Self::bytes(Self::read(s)->Some_0.0) + Self::read(s)->Some_0.1);
    }

    fn take<'a>(s: &'a [u8]) -> (r: Option<(IpAddr, &'a [u8])>) {
        match u32::take(s) {
            Some((0, rest)) => match <[u8; 4] as Binary>::take(rest) {
                Some((octets, rest)) => Some((IpAddr::V4(octets), rest)),
                None => None,
            },
            Some((1, rest)) => match take_segments(rest) {
                Some((segments, rest)) => Some((IpAddr::V6(segments), rest)),
                None => None,
            },
            _ => None,
        }
    }
}

proof fn lemma_ip_items(m: Seq<IpView>)
    ensures
        binary::item_bytes::<IpAddr>(m) == encoding::ip_list_bytes(m),
    decreases m.len(),
{
    if m.len() > 0 {
        lemma_ip_items(m.drop_last());
    }
}

pub proof fn lemma_text_items(m: Seq<Seq<char>>)
    ensures
        binary::item_bytes::<String>(m) == encoding::text_list_bytes(m),
    decreases m.len(),
{
    if m.len() > 0 {
        lemma_text_items(m.drop_last());
    }
}

// ---------------------------------------------------------------------------
// Enumerations
// ---------------------------------------------------------------------------

impl Shaped for VlessFlow {
    type Value = VlessFlow;

    type Shape = u32;

    open spec fn value(self) -> VlessFlow {
        self
    }

    open spec fn written(m: VlessFlow) -> Seq<u8> {
        encoding::variant(encoding::flow_number(m))
    }

    open spec fn shape(m: VlessFlow) -> u32 {
        encoding::flow_number(m) as u32
    }

    open spec fn of(n: u32) -> Option<VlessFlow> {
        match n {
            0 => Some(VlessFlow::XtlsRprxVision),
            1 => Some(VlessFlow::XtlsRprxVisionUdp443),
            _ => None,
        }
    }

    proof fn shape_is_exact(m: VlessFlow) {
    }

    proof fn shape_is_met(n: u32) {
    }

    fn make(n: u32) -> (r: Option<VlessFlow>) {
        match n {
            0 => Some(VlessFlow::XtlsRprxVision),
            1 => Some(VlessFlow::XtlsRprxVisionUdp443),
            _ => None,
        }
    }
}

impl Shaped for VmessCipher {
    type Value = VmessCipher;

    type Shape = u32;

    open spec fn value(self) -> VmessCipher {
        self
    }

    open spec fn written(m: VmessCipher) -> Seq<u8> {
        encoding::variant(encoding::cipher_number(m))
    }

    open spec fn shape(m: VmessCipher) -> u32 {
        encoding::cipher_number(m) as u32
    }

    open spec fn of(n: u32) -> Option<VmessCipher> {
        match n {
            0 => Some(VmessCipher::Auto),
            1 => Some(VmessCipher::Aes128Gcm),
            2 => Some(VmessCipher::Chacha20Poly1305),
            3 => Some(VmessCipher::Plain),
            _ => None,
        }
    }

    proof fn shape_is_exact(m: VmessCipher) {
    }

    proof fn shape_is_met(n: u32) {
    }

    fn make(n: u32) -> (r: Option<VmessCipher>) {
        match n {
            0 => Some(VmessCipher::Auto),
            1 => Some(VmessCipher::Aes128Gcm),
            2 => Some(VmessCipher::Chacha20Poly1305),
            3 => Some(VmessCipher::Plain),
            _ => None,
        }
    }
}

impl Shaped for ShadowsocksCipher {
    type Value = ShadowsocksCipher;

    type Shape = u32;

    open spec fn value(self) -> ShadowsocksCipher {
        self
    }

    open spec fn written(m: ShadowsocksCipher) -> Seq<u8> {
        encoding::variant(encoding::method_number(m))
    }

    open spec fn shape(m: ShadowsocksCipher) -> u32 {
        encoding::method_number(m) as u32
    }

    open spec fn of(n: u32) -> Option<ShadowsocksCipher> {
        match n {
            0 => Some(ShadowsocksCipher::Aes128Gcm),
            1 => Some(ShadowsocksCipher::Aes256Gcm),
            2 => Some(ShadowsocksCipher::Chacha20IetfPoly1305),
            3 => Some(ShadowsocksCipher::Ss2022Blake3Aes128Gcm),
            4 => Some(ShadowsocksCipher::Ss2022Blake3Aes256Gcm),
            5 => Some(ShadowsocksCipher::Ss2022Blake3Chacha20Poly1305),
            _ => None,
        }
    }

    proof fn shape_is_exact(m: ShadowsocksCipher) {
    }

    proof fn shape_is_met(n: u32) {
    }

    fn make(n: u32) -> (r: Option<ShadowsocksCipher>) {
        match n {
            0 => Some(ShadowsocksCipher::Aes128Gcm),
            1 => Some(ShadowsocksCipher::Aes256Gcm),
            2 => Some(ShadowsocksCipher::Chacha20IetfPoly1305),
            3 => Some(ShadowsocksCipher::Ss2022Blake3Aes128Gcm),
            4 => Some(ShadowsocksCipher::Ss2022Blake3Aes256Gcm),
            5 => Some(ShadowsocksCipher::Ss2022Blake3Chacha20Poly1305),
            _ => None,
        }
    }
}

impl Shaped for TuicCongestion {
    type Value = TuicCongestion;

    type Shape = u32;

    open spec fn value(self) -> TuicCongestion {
        self
    }

    open spec fn written(m: TuicCongestion) -> Seq<u8> {
        encoding::variant(encoding::congestion_number(m))
    }

    open spec fn shape(m: TuicCongestion) -> u32 {
        encoding::congestion_number(m) as u32
    }

    open spec fn of(n: u32) -> Option<TuicCongestion> {
        match n {
            0 => Some(TuicCongestion::Bbr),
            1 => Some(TuicCongestion::Cubic),
            2 => Some(TuicCongestion::NewReno),
            _ => None,
        }
    }

    proof fn shape_is_exact(m: TuicCongestion) {
    }

    proof fn shape_is_met(n: u32) {
    }

    fn make(n: u32) -> (r: Option<TuicCongestion>) {
        match n {
            0 => Some(TuicCongestion::Bbr),
            1 => Some(TuicCongestion::Cubic),
            2 => Some(TuicCongestion::NewReno),
            _ => None,
        }
    }
}

impl Shaped for TuicUdpRelay {
    type Value = TuicUdpRelay;

    type Shape = u32;

    open spec fn value(self) -> TuicUdpRelay {
        self
    }

    open spec fn written(m: TuicUdpRelay) -> Seq<u8> {
        encoding::variant(encoding::relay_number(m))
    }

    open spec fn shape(m: TuicUdpRelay) -> u32 {
        encoding::relay_number(m) as u32
    }

    open spec fn of(n: u32) -> Option<TuicUdpRelay> {
        match n {
            0 => Some(TuicUdpRelay::Native),
            1 => Some(TuicUdpRelay::Quic),
            _ => None,
        }
    }

    proof fn shape_is_exact(m: TuicUdpRelay) {
    }

    proof fn shape_is_met(n: u32) {
    }

    fn make(n: u32) -> (r: Option<TuicUdpRelay>) {
        match n {
            0 => Some(TuicUdpRelay::Native),
            1 => Some(TuicUdpRelay::Quic),
            _ => None,
        }
    }
}

impl Shaped for XHttpMode {
    type Value = XHttpMode;

    type Shape = u32;

    open spec fn value(self) -> XHttpMode {
        self
    }

    open spec fn written(m: XHttpMode) -> Seq<u8> {
        encoding::variant(encoding::mode_number(m))
    }

    open spec fn shape(m: XHttpMode) -> u32 {
        encoding::mode_number(m) as u32
    }

    open spec fn of(n: u32) -> Option<XHttpMode> {
        match n {
            0 => Some(XHttpMode::StreamOne),
            1 => Some(XHttpMode::StreamUp),
            2 => Some(XHttpMode::PacketUp),
            _ => None,
        }
    }

    proof fn shape_is_exact(m: XHttpMode) {
    }

    proof fn shape_is_met(n: u32) {
    }

    fn make(n: u32) -> (r: Option<XHttpMode>) {
        match n {
            0 => Some(XHttpMode::StreamOne),
            1 => Some(XHttpMode::StreamUp),
            2 => Some(XHttpMode::PacketUp),
            _ => None,
        }
    }
}

impl Shaped for UtlsFingerprint {
    type Value = UtlsFingerprint;

    type Shape = u32;

    open spec fn value(self) -> UtlsFingerprint {
        self
    }

    open spec fn written(m: UtlsFingerprint) -> Seq<u8> {
        encoding::variant(encoding::fingerprint_number(m))
    }

    open spec fn shape(m: UtlsFingerprint) -> u32 {
        encoding::fingerprint_number(m) as u32
    }

    open spec fn of(n: u32) -> Option<UtlsFingerprint> {
        match n {
            0 => Some(UtlsFingerprint::Chrome),
            1 => Some(UtlsFingerprint::Firefox),
            2 => Some(UtlsFingerprint::Safari),
            3 => Some(UtlsFingerprint::Edge),
            4 => Some(UtlsFingerprint::Randomized),
            5 => Some(UtlsFingerprint::Disabled),
            _ => None,
        }
    }

    proof fn shape_is_exact(m: UtlsFingerprint) {
    }

    proof fn shape_is_met(n: u32) {
    }

    fn make(n: u32) -> (r: Option<UtlsFingerprint>) {
        match n {
            0 => Some(UtlsFingerprint::Chrome),
            1 => Some(UtlsFingerprint::Firefox),
            2 => Some(UtlsFingerprint::Safari),
            3 => Some(UtlsFingerprint::Edge),
            4 => Some(UtlsFingerprint::Randomized),
            5 => Some(UtlsFingerprint::Disabled),
            _ => None,
        }
    }
}

impl Shaped for MuxProtocol {
    type Value = MuxProtocol;

    type Shape = u32;

    open spec fn value(self) -> MuxProtocol {
        self
    }

    open spec fn written(m: MuxProtocol) -> Seq<u8> {
        encoding::variant(encoding::mux_number(m))
    }

    open spec fn shape(m: MuxProtocol) -> u32 {
        encoding::mux_number(m) as u32
    }

    open spec fn of(n: u32) -> Option<MuxProtocol> {
        match n {
            0 => Some(MuxProtocol::Smux),
            1 => Some(MuxProtocol::Yamux),
            2 => Some(MuxProtocol::H2Mux),
            _ => None,
        }
    }

    proof fn shape_is_exact(m: MuxProtocol) {
    }

    proof fn shape_is_met(n: u32) {
    }

    fn make(n: u32) -> (r: Option<MuxProtocol>) {
        match n {
            0 => Some(MuxProtocol::Smux),
            1 => Some(MuxProtocol::Yamux),
            2 => Some(MuxProtocol::H2Mux),
            _ => None,
        }
    }
}

// ---------------------------------------------------------------------------
// Structures
// ---------------------------------------------------------------------------

impl Shaped for VlessConfig {
    type Value = VlessConfig;

    type Shape = (Uuid, Option<VlessFlow>);

    open spec fn value(self) -> Self::Value {
        self
    }

    open spec fn written(m: Self::Value) -> Seq<u8> {
        encoding::vless_bytes(m)
    }

    open spec fn shape(m: Self::Value) -> <Self::Shape as Binary>::Model {
        (m.uuid, m.flow)
    }

    open spec fn of(x: <Self::Shape as Binary>::Model) -> Option<Self::Value> {
        let (uuid, flow) = x;
        Some(VlessConfig { uuid, flow })
    }

    proof fn shape_is_exact(m: Self::Value) {
        assert(Self::written(m) =~= <Self::Shape as Binary>::bytes(Self::shape(m)));
    }

    proof fn shape_is_met(x: <Self::Shape as Binary>::Model) {
    }

    fn make(x: Self::Shape) -> (r: Option<VlessConfig>) {
        let (uuid, flow) = x;
        Some(VlessConfig { uuid, flow })
    }
}

impl Shaped for VmessConfig {
    type Value = VmessConfig;

    type Shape = (Uuid, (u16, VmessCipher));

    open spec fn value(self) -> Self::Value {
        self
    }

    open spec fn written(m: Self::Value) -> Seq<u8> {
        encoding::vmess_bytes(m)
    }

    open spec fn shape(m: Self::Value) -> <Self::Shape as Binary>::Model {
        (m.uuid, (m.alter_id, m.cipher))
    }

    open spec fn of(x: <Self::Shape as Binary>::Model) -> Option<Self::Value> {
        let (uuid, (alter_id, cipher)) = x;
        Some(VmessConfig { uuid, alter_id, cipher })
    }

    proof fn shape_is_exact(m: Self::Value) {
        assert(Self::written(m) =~= <Self::Shape as Binary>::bytes(Self::shape(m)));
    }

    proof fn shape_is_met(x: <Self::Shape as Binary>::Model) {
    }

    fn make(x: Self::Shape) -> (r: Option<VmessConfig>) {
        let (uuid, (alter_id, cipher)) = x;
        Some(VmessConfig { uuid, alter_id, cipher })
    }
}

impl Shaped for TrojanConfig {
    type Value = TrojanConfig<Seq<char>>;

    type Shape = String;

    open spec fn value(self) -> Self::Value {
        self@
    }

    open spec fn written(m: Self::Value) -> Seq<u8> {
        encoding::text_bytes(m.password)
    }

    open spec fn shape(m: Self::Value) -> <Self::Shape as Binary>::Model {
        m.password
    }

    open spec fn of(x: <Self::Shape as Binary>::Model) -> Option<Self::Value> {
        let password = x;
        Some(TrojanConfig { password })
    }

    proof fn shape_is_exact(m: Self::Value) {
        assert(Self::written(m) =~= <Self::Shape as Binary>::bytes(Self::shape(m)));
    }

    proof fn shape_is_met(x: <Self::Shape as Binary>::Model) {
    }

    fn make(x: Self::Shape) -> (r: Option<TrojanConfig>) {
        let password = x;
        Some(TrojanConfig { password })
    }
}

impl Shaped for ShadowsocksConfig {
    type Value = ShadowsocksConfig<Seq<char>>;

    type Shape = (ShadowsocksCipher, (String, (Option<String>, Option<String>)));

    open spec fn value(self) -> Self::Value {
        self@
    }

    open spec fn written(m: Self::Value) -> Seq<u8> {
        encoding::shadowsocks_bytes(m)
    }

    open spec fn shape(m: Self::Value) -> <Self::Shape as Binary>::Model {
        (m.method, (m.password, (m.plugin, m.plugin_opts)))
    }

    open spec fn of(x: <Self::Shape as Binary>::Model) -> Option<Self::Value> {
        let (method, (password, (plugin, plugin_opts))) = x;
        Some(ShadowsocksConfig { method, password, plugin, plugin_opts })
    }

    proof fn shape_is_exact(m: Self::Value) {
        assert(Self::written(m) =~= <Self::Shape as Binary>::bytes(Self::shape(m)));
    }

    proof fn shape_is_met(x: <Self::Shape as Binary>::Model) {
    }

    fn make(x: Self::Shape) -> (r: Option<ShadowsocksConfig>) {
        let (method, (password, (plugin, plugin_opts))) = x;
        Some(ShadowsocksConfig { method, password, plugin, plugin_opts })
    }
}

impl Shaped for Hysteria2Obfs {
    type Value = Hysteria2Obfs<Seq<char>>;

    type Shape = (String, String);

    open spec fn value(self) -> Self::Value {
        self@
    }

    open spec fn written(m: Self::Value) -> Seq<u8> {
        encoding::obfs_bytes(m)
    }

    open spec fn shape(m: Self::Value) -> <Self::Shape as Binary>::Model {
        (m.obfs_type, m.password)
    }

    open spec fn of(x: <Self::Shape as Binary>::Model) -> Option<Self::Value> {
        let (obfs_type, password) = x;
        Some(Hysteria2Obfs { obfs_type, password })
    }

    proof fn shape_is_exact(m: Self::Value) {
        assert(Self::written(m) =~= <Self::Shape as Binary>::bytes(Self::shape(m)));
    }

    proof fn shape_is_met(x: <Self::Shape as Binary>::Model) {
    }

    fn make(x: Self::Shape) -> (r: Option<Hysteria2Obfs>) {
        let (obfs_type, password) = x;
        Some(Hysteria2Obfs { obfs_type, password })
    }
}

impl Shaped for Hysteria2Config {
    type Value = Hysteria2Config<Seq<char>>;

    type Shape = (String, (Option<u32>, (Option<u32>, (Option<Hysteria2Obfs>, Option<String>))));

    open spec fn value(self) -> Self::Value {
        self@
    }

    open spec fn written(m: Self::Value) -> Seq<u8> {
        encoding::hysteria2_bytes(m)
    }

    open spec fn shape(m: Self::Value) -> <Self::Shape as Binary>::Model {
        (m.password, (m.up_mbps, (m.down_mbps, (m.obfs, m.port_hopping))))
    }

    open spec fn of(x: <Self::Shape as Binary>::Model) -> Option<Self::Value> {
        let (password, (up_mbps, (down_mbps, (obfs, port_hopping)))) = x;
        Some(Hysteria2Config { password, up_mbps, down_mbps, obfs, port_hopping })
    }

    proof fn shape_is_exact(m: Self::Value) {
        assert(Self::written(m) =~= <Self::Shape as Binary>::bytes(Self::shape(m)));
    }

    proof fn shape_is_met(x: <Self::Shape as Binary>::Model) {
    }

    fn make(x: Self::Shape) -> (r: Option<Hysteria2Config>) {
        let (password, (up_mbps, (down_mbps, (obfs, port_hopping)))) = x;
        Some(Hysteria2Config { password, up_mbps, down_mbps, obfs, port_hopping })
    }
}

impl Shaped for TuicConfig {
    type Value = TuicConfig<Seq<char>>;

    type Shape = (Uuid, (String, (TuicCongestion, (TuicUdpRelay, bool))));

    open spec fn value(self) -> Self::Value {
        self@
    }

    open spec fn written(m: Self::Value) -> Seq<u8> {
        encoding::tuic_bytes(m)
    }

    open spec fn shape(m: Self::Value) -> <Self::Shape as Binary>::Model {
        (m.uuid, (m.password, (m.congestion_control, (m.udp_relay_mode, m.zero_rtt_handshake))))
    }

    open spec fn of(x: <Self::Shape as Binary>::Model) -> Option<Self::Value> {
        let (uuid, (password, (congestion_control, (udp_relay_mode, zero_rtt_handshake)))) = x;
        Some(
            TuicConfig {
                uuid,
                password,
                congestion_control,
                udp_relay_mode,
                zero_rtt_handshake,
            },
        )
    }

    proof fn shape_is_exact(m: Self::Value) {
        assert(Self::written(m) =~= <Self::Shape as Binary>::bytes(Self::shape(m)));
    }

    proof fn shape_is_met(x: <Self::Shape as Binary>::Model) {
    }

    fn make(x: Self::Shape) -> (r: Option<TuicConfig>) {
        let (uuid, (password, (congestion_control, (udp_relay_mode, zero_rtt_handshake)))) = x;
        Some(
            TuicConfig {
                uuid,
                password,
                congestion_control,
                udp_relay_mode,
                zero_rtt_handshake,
            },
        )
    }
}

impl Shaped for WireGuardConfig {
    type Value = WireGuardConfig<Seq<char>, Seq<IpView>>;

    type Shape = (String, (String, (Option<String>,
        (Vec<IpAddr>, (Option<[u8; 3]>, Option<u16>)))));

    open spec fn value(self) -> Self::Value {
        self@
    }

    open spec fn written(m: Self::Value) -> Seq<u8> {
        encoding::wireguard_bytes(m)
    }

    open spec fn shape(m: Self::Value) -> <Self::Shape as Binary>::Model {
        (m.private_key, (m.peer_public_key, (m.preshared_key, (m.local_address, (match m.reserved {
            Some(r) => Some(r@),
            None => None,
        }, m.mtu)))))
    }

    open spec fn of(x: <Self::Shape as Binary>::Model) -> Option<Self::Value> {
        let (private_key, (peer_public_key, (preshared_key, (local_address, (reserved, mtu))))) = x;
        Some(
            WireGuardConfig {
                private_key,
                peer_public_key,
                preshared_key,
                local_address,
                reserved: match reserved {
                    Some(r) => Some([r[0], r[1], r[2]]),
                    None => None,
                },
                mtu,
            },
        )
    }

    proof fn shape_is_exact(m: Self::Value) {
        lemma_ip_items(m.local_address);
        lemma_reserved(m.reserved);
        assert(Self::written(m) =~= <Self::Shape as Binary>::bytes(Self::shape(m)));
    }

    proof fn shape_is_met(x: <Self::Shape as Binary>::Model) {
        if let Some(r) = x.1.1.1.1.0 {
            let again = [r[0], r[1], r[2]];
            assert(again@ =~= r);
        }
    }

    fn make(x: Self::Shape) -> (r: Option<WireGuardConfig>) {
        let (private_key, (peer_public_key, (preshared_key, (local_address, (reserved, mtu))))) = x;
        proof {
            lemma_reserved(reserved);
            assert(binary::models(local_address@) =~= protocol::addresses(local_address@));
        }
        Some(
            WireGuardConfig {
                private_key,
                peer_public_key,
                preshared_key,
                local_address,
                reserved,
                mtu,
            },
        )
    }
}

impl Shaped for WebSocketConfig {
    type Value = WebSocketConfig<Seq<char>>;

    type Shape = (String, (Option<String>, (u32, Option<String>)));

    open spec fn value(self) -> Self::Value {
        self@
    }

    open spec fn written(m: Self::Value) -> Seq<u8> {
        encoding::text_bytes(m.path) + encoding::optional_text(m.host) + encoding::le_bytes(
            m.max_early_data as nat,
            4,
        ) + encoding::optional_text(m.early_data_header)
    }

    open spec fn shape(m: Self::Value) -> <Self::Shape as Binary>::Model {
        (m.path, (m.host, (m.max_early_data, m.early_data_header)))
    }

    open spec fn of(x: <Self::Shape as Binary>::Model) -> Option<Self::Value> {
        let (path, (host, (max_early_data, early_data_header))) = x;
        Some(WebSocketConfig { path, host, max_early_data, early_data_header })
    }

    proof fn shape_is_exact(m: Self::Value) {
        assert(Self::written(m) =~= <Self::Shape as Binary>::bytes(Self::shape(m)));
    }

    proof fn shape_is_met(x: <Self::Shape as Binary>::Model) {
    }

    fn make(x: Self::Shape) -> (r: Option<WebSocketConfig>) {
        let (path, (host, (max_early_data, early_data_header))) = x;
        Some(WebSocketConfig { path, host, max_early_data, early_data_header })
    }
}

impl Shaped for GrpcConfig {
    type Value = GrpcConfig<Seq<char>>;

    type Shape = (String, bool);

    open spec fn value(self) -> Self::Value {
        self@
    }

    open spec fn written(m: Self::Value) -> Seq<u8> {
        encoding::text_bytes(m.service_name) + encoding::flag(m.multi_mode)
    }

    open spec fn shape(m: Self::Value) -> <Self::Shape as Binary>::Model {
        (m.service_name, m.multi_mode)
    }

    open spec fn of(x: <Self::Shape as Binary>::Model) -> Option<Self::Value> {
        let (service_name, multi_mode) = x;
        Some(GrpcConfig { service_name, multi_mode })
    }

    proof fn shape_is_exact(m: Self::Value) {
        assert(Self::written(m) =~= <Self::Shape as Binary>::bytes(Self::shape(m)));
    }

    proof fn shape_is_met(x: <Self::Shape as Binary>::Model) {
    }

    fn make(x: Self::Shape) -> (r: Option<GrpcConfig>) {
        let (service_name, multi_mode) = x;
        Some(GrpcConfig { service_name, multi_mode })
    }
}

impl Shaped for HttpUpgradeConfig {
    type Value = HttpUpgradeConfig<Seq<char>>;

    type Shape = (String, Option<String>);

    open spec fn value(self) -> Self::Value {
        self@
    }

    open spec fn written(m: Self::Value) -> Seq<u8> {
        encoding::text_bytes(m.path) + encoding::optional_text(m.host)
    }

    open spec fn shape(m: Self::Value) -> <Self::Shape as Binary>::Model {
        (m.path, m.host)
    }

    open spec fn of(x: <Self::Shape as Binary>::Model) -> Option<Self::Value> {
        let (path, host) = x;
        Some(HttpUpgradeConfig { path, host })
    }

    proof fn shape_is_exact(m: Self::Value) {
        assert(Self::written(m) =~= <Self::Shape as Binary>::bytes(Self::shape(m)));
    }

    proof fn shape_is_met(x: <Self::Shape as Binary>::Model) {
    }

    fn make(x: Self::Shape) -> (r: Option<HttpUpgradeConfig>) {
        let (path, host) = x;
        Some(HttpUpgradeConfig { path, host })
    }
}

impl Shaped for XHttpConfig {
    type Value = XHttpConfig<Seq<char>>;

    type Shape = (XHttpMode, (String, Option<String>));

    open spec fn value(self) -> Self::Value {
        self@
    }

    open spec fn written(m: Self::Value) -> Seq<u8> {
        encoding::variant(encoding::mode_number(m.mode)) + encoding::text_bytes(m.path)
            + encoding::optional_text(m.host)
    }

    open spec fn shape(m: Self::Value) -> <Self::Shape as Binary>::Model {
        (m.mode, (m.path, m.host))
    }

    open spec fn of(x: <Self::Shape as Binary>::Model) -> Option<Self::Value> {
        let (mode, (path, host)) = x;
        Some(XHttpConfig { mode, path, host })
    }

    proof fn shape_is_exact(m: Self::Value) {
        assert(Self::written(m) =~= <Self::Shape as Binary>::bytes(Self::shape(m)));
    }

    proof fn shape_is_met(x: <Self::Shape as Binary>::Model) {
    }

    fn make(x: Self::Shape) -> (r: Option<XHttpConfig>) {
        let (mode, (path, host)) = x;
        Some(XHttpConfig { mode, path, host })
    }
}

impl Shaped for StandardTlsConfig {
    type Value = StandardTlsConfig<Seq<char>, Seq<Seq<char>>>;

    type Shape = (String, (Vec<String>, (UtlsFingerprint, bool)));

    open spec fn value(self) -> Self::Value {
        self@
    }

    open spec fn written(m: Self::Value) -> Seq<u8> {
        encoding::text_bytes(m.server_name) + encoding::le_bytes(m.alpn.len(), 8)
            + encoding::text_list_bytes(m.alpn) + encoding::variant(
            encoding::fingerprint_number(m.fingerprint),
        ) + encoding::flag(m.allow_insecure)
    }

    open spec fn shape(m: Self::Value) -> <Self::Shape as Binary>::Model {
        (m.server_name, (m.alpn, (m.fingerprint, m.allow_insecure)))
    }

    open spec fn of(x: <Self::Shape as Binary>::Model) -> Option<Self::Value> {
        let (server_name, (alpn, (fingerprint, allow_insecure))) = x;
        Some(StandardTlsConfig { server_name, alpn, fingerprint, allow_insecure })
    }

    proof fn shape_is_exact(m: Self::Value) {
        lemma_text_items(m.alpn);
        assert(Self::written(m) =~= <Self::Shape as Binary>::bytes(Self::shape(m)));
    }

    proof fn shape_is_met(x: <Self::Shape as Binary>::Model) {
    }

    fn make(x: Self::Shape) -> (r: Option<StandardTlsConfig>) {
        let (server_name, (alpn, (fingerprint, allow_insecure))) = x;
        proof {
            assert(binary::models(alpn@) =~= text::texts_of(alpn@));
        }
        Some(StandardTlsConfig { server_name, alpn, fingerprint, allow_insecure })
    }
}

impl Shaped for RealityConfig {
    type Value = RealityConfig<Seq<char>>;

    type Shape = (String, (String, (String, (Option<String>, UtlsFingerprint))));

    open spec fn value(self) -> Self::Value {
        self@
    }

    open spec fn written(m: Self::Value) -> Seq<u8> {
        encoding::text_bytes(m.server_name) + encoding::text_bytes(m.public_key)
            + encoding::text_bytes(m.short_id) + encoding::optional_text(m.spider_x)
            + encoding::variant(encoding::fingerprint_number(m.fingerprint))
    }

    open spec fn shape(m: Self::Value) -> <Self::Shape as Binary>::Model {
        (m.server_name, (m.public_key, (m.short_id, (m.spider_x, m.fingerprint))))
    }

    open spec fn of(x: <Self::Shape as Binary>::Model) -> Option<Self::Value> {
        let (server_name, (public_key, (short_id, (spider_x, fingerprint)))) = x;
        Some(RealityConfig { server_name, public_key, short_id, spider_x, fingerprint })
    }

    proof fn shape_is_exact(m: Self::Value) {
        assert(Self::written(m) =~= <Self::Shape as Binary>::bytes(Self::shape(m)));
    }

    proof fn shape_is_met(x: <Self::Shape as Binary>::Model) {
    }

    fn make(x: Self::Shape) -> (r: Option<RealityConfig>) {
        let (server_name, (public_key, (short_id, (spider_x, fingerprint)))) = x;
        Some(RealityConfig { server_name, public_key, short_id, spider_x, fingerprint })
    }
}

impl Shaped for MuxSpec {
    type Value = MuxSpec;

    type Shape = (bool, (u16, MuxProtocol));

    open spec fn value(self) -> Self::Value {
        self
    }

    open spec fn written(m: Self::Value) -> Seq<u8> {
        encoding::mux_bytes(m)
    }

    open spec fn shape(m: Self::Value) -> <Self::Shape as Binary>::Model {
        (m.enabled, (m.concurrency, m.protocol))
    }

    open spec fn of(x: <Self::Shape as Binary>::Model) -> Option<Self::Value> {
        let (enabled, (concurrency, protocol)) = x;
        Some(MuxSpec { enabled, concurrency, protocol })
    }

    proof fn shape_is_exact(m: Self::Value) {
        assert(Self::written(m) =~= <Self::Shape as Binary>::bytes(Self::shape(m)));
    }

    proof fn shape_is_met(x: <Self::Shape as Binary>::Model) {
    }

    fn make(x: Self::Shape) -> (r: Option<MuxSpec>) {
        let (enabled, (concurrency, protocol)) = x;
        Some(MuxSpec { enabled, concurrency, protocol })
    }
}

impl Shaped for SocketAddr {
    type Value = SocketView;

    type Shape = (IpAddr, u16);

    open spec fn value(self) -> Self::Value {
        self@
    }

    open spec fn written(m: Self::Value) -> Seq<u8> {
        encoding::ip_bytes(m.ip) + encoding::le_bytes(m.port as nat, 2)
    }

    open spec fn shape(m: Self::Value) -> <Self::Shape as Binary>::Model {
        (m.ip, m.port)
    }

    open spec fn of(x: <Self::Shape as Binary>::Model) -> Option<Self::Value> {
        let (ip, port) = x;
        Some(SocketView { ip, port })
    }

    proof fn shape_is_exact(m: Self::Value) {
        assert(Self::written(m) =~= <Self::Shape as Binary>::bytes(Self::shape(m)));
    }

    proof fn shape_is_met(x: <Self::Shape as Binary>::Model) {
    }

    fn make(x: Self::Shape) -> (r: Option<SocketAddr>) {
        let (ip, port) = x;
        Some(SocketAddr { ip, port })
    }
}

proof fn lemma_reserved(v: Option<[u8; 3]>)
    ensures
        (match v {
            Some(r) => r == [r@[0], r@[1], r@[2]],
            None => true,
        }),
{
    if let Some(r) = v {
        let again = [r@[0], r@[1], r@[2]];
        assert(again@ =~= r@);
        assert(again == r);
    }
}

proof fn lemma_two(v: [u8; 2])
    ensures
        v == [v@[0], v@[1]],
{
    let again = [v@[0], v@[1]];
    assert(again@ =~= v@);
    assert(again == v);
}

impl Binary for EndpointTarget {
    type Model = EndpointView;

    open spec fn model(self) -> EndpointView {
        self@
    }

    open spec fn bytes(m: EndpointView) -> Seq<u8> {
        encoding::endpoint_bytes(m)
    }

    open spec fn fits(m: EndpointView) -> bool {
        match m {
            EndpointTarget::Ip(addr) => SocketAddr::fits(addr),
            EndpointTarget::Domain { host, port } => String::fits(host),
        }
    }

    open spec fn read(s: Seq<u8>) -> Read<EndpointView> {
        match u32::read(s) {
            Some((0, rest)) => match SocketAddr::read(rest) {
                Some((addr, rest)) => Some((EndpointTarget::Ip(addr), rest)),
                None => None,
            },
            Some((1, rest)) => match <(String, u16) as Binary>::read(rest) {
                Some(((host, port), rest)) => Some((EndpointTarget::Domain { host, port }, rest)),
                None => None,
            },
            _ => None,
        }
    }

    proof fn reads_back(m: EndpointView, rest: Seq<u8>) {
        match m {
            EndpointTarget::Ip(addr) => {
                let part = <SocketAddr as Binary>::bytes(addr);
                assert(Self::bytes(m) + rest =~= u32::bytes(0) + (part + rest));
                u32::reads_back(0, part + rest);
                SocketAddr::reads_back(addr, rest);
            },
            EndpointTarget::Domain { host, port } => {
                let part = <(String, u16) as Binary>::bytes((host, port));
                assert(Self::bytes(m) + rest =~= u32::bytes(1) + (part + rest));
                u32::reads_back(1, part + rest);
                <(String, u16) as Binary>::reads_back((host, port), rest);
            },
        }
    }

    proof fn was_written(s: Seq<u8>) {
        u32::was_written(s);
        let (n, rest) = u32::read(s)->Some_0;
        if n == 0 {
            SocketAddr::was_written(rest);
        } else {
            <(String, u16) as Binary>::was_written(rest);
        }
        assert(s =~= Self::bytes(Self::read(s)->Some_0.0) + Self::read(s)->Some_0.1);
    }

    fn take<'a>(s: &'a [u8]) -> (r: Option<(EndpointTarget, &'a [u8])>) {
        match u32::take(s) {
            Some((0, rest)) => match SocketAddr::take(rest) {
                Some((addr, rest)) => Some((EndpointTarget::Ip(addr), rest)),
                None => None,
            },
            Some((1, rest)) => match <(String, u16) as Binary>::take(rest) {
                Some(((host, port), rest)) => Some((EndpointTarget::Domain { host, port }, rest)),
                None => None,
            },
            _ => None,
        }
    }
}

// ---------------------------------------------------------------------------
// Parts of a node
// ---------------------------------------------------------------------------

impl Binary for ProtocolSpec {
    type Model = ProtocolSpec<Seq<char>, Seq<IpView>>;

    open spec fn model(self) -> ProtocolSpec<Seq<char>, Seq<IpView>> {
        self@
    }

    open spec fn bytes(m: ProtocolSpec<Seq<char>, Seq<IpView>>) -> Seq<u8> {
        encoding::protocol_bytes(m)
    }

    open spec fn fits(m: ProtocolSpec<Seq<char>, Seq<IpView>>) -> bool {
        match m {
            ProtocolSpec::Vless(c) => VlessConfig::fits(c),
            ProtocolSpec::Vmess(c) => VmessConfig::fits(c),
            ProtocolSpec::Trojan(c) => TrojanConfig::fits(c),
            ProtocolSpec::Shadowsocks(c) => ShadowsocksConfig::fits(c),
            ProtocolSpec::Hysteria2(c) => Hysteria2Config::fits(c),
            ProtocolSpec::Tuic(c) => TuicConfig::fits(c),
            ProtocolSpec::WireGuard(c) => WireGuardConfig::fits(c),
        }
    }

    open spec fn read(s: Seq<u8>) -> Read<ProtocolSpec<Seq<char>, Seq<IpView>>> {
        match u32::read(s) {
            Some((0, rest)) => match VlessConfig::read(rest) {
                Some((c, rest)) => Some((ProtocolSpec::Vless(c), rest)),
                None => None,
            },
            Some((1, rest)) => match VmessConfig::read(rest) {
                Some((c, rest)) => Some((ProtocolSpec::Vmess(c), rest)),
                None => None,
            },
            Some((2, rest)) => match TrojanConfig::read(rest) {
                Some((c, rest)) => Some((ProtocolSpec::Trojan(c), rest)),
                None => None,
            },
            Some((3, rest)) => match ShadowsocksConfig::read(rest) {
                Some((c, rest)) => Some((ProtocolSpec::Shadowsocks(c), rest)),
                None => None,
            },
            Some((4, rest)) => match Hysteria2Config::read(rest) {
                Some((c, rest)) => Some((ProtocolSpec::Hysteria2(c), rest)),
                None => None,
            },
            Some((5, rest)) => match TuicConfig::read(rest) {
                Some((c, rest)) => Some((ProtocolSpec::Tuic(c), rest)),
                None => None,
            },
            Some((6, rest)) => match WireGuardConfig::read(rest) {
                Some((c, rest)) => Some((ProtocolSpec::WireGuard(c), rest)),
                None => None,
            },
            _ => None,
        }
    }

    proof fn reads_back(m: ProtocolSpec<Seq<char>, Seq<IpView>>, rest: Seq<u8>) {
        match m {
            ProtocolSpec::Vless(c) => {
                binary::lemma_tagged::<VlessConfig>(0, c, rest);
                assert(Self::bytes(m) =~= encoding::variant(0) + VlessConfig::written(c));
            },
            ProtocolSpec::Vmess(c) => {
                binary::lemma_tagged::<VmessConfig>(1, c, rest);
                assert(Self::bytes(m) =~= encoding::variant(1) + VmessConfig::written(c));
            },
            ProtocolSpec::Trojan(c) => {
                binary::lemma_tagged::<TrojanConfig>(2, c, rest);
                assert(Self::bytes(m) =~= encoding::variant(2) + TrojanConfig::written(c));
            },
            ProtocolSpec::Shadowsocks(c) => {
                binary::lemma_tagged::<ShadowsocksConfig>(3, c, rest);
                assert(Self::bytes(m) =~= encoding::variant(3) + ShadowsocksConfig::written(c));
            },
            ProtocolSpec::Hysteria2(c) => {
                binary::lemma_tagged::<Hysteria2Config>(4, c, rest);
                assert(Self::bytes(m) =~= encoding::variant(4) + Hysteria2Config::written(c));
            },
            ProtocolSpec::Tuic(c) => {
                binary::lemma_tagged::<TuicConfig>(5, c, rest);
                assert(Self::bytes(m) =~= encoding::variant(5) + TuicConfig::written(c));
            },
            ProtocolSpec::WireGuard(c) => {
                binary::lemma_tagged::<WireGuardConfig>(6, c, rest);
                assert(Self::bytes(m) =~= encoding::variant(6) + WireGuardConfig::written(c));
            },
        }
    }

    proof fn was_written(s: Seq<u8>) {
        u32::was_written(s);
        let (n, rest) = u32::read(s)->Some_0;
        if n == 0 {
            let (c, left) = VlessConfig::read(rest)->Some_0;
            binary::lemma_tagged_back::<VlessConfig>(s, 0, rest, c, left);
            assert(Self::bytes(ProtocolSpec::Vless(c)) =~= encoding::variant(0)
                + VlessConfig::written(c));
        } else if n == 1 {
            let (c, left) = VmessConfig::read(rest)->Some_0;
            binary::lemma_tagged_back::<VmessConfig>(s, 1, rest, c, left);
            assert(Self::bytes(ProtocolSpec::Vmess(c)) =~= encoding::variant(1)
                + VmessConfig::written(c));
        } else if n == 2 {
            let (c, left) = TrojanConfig::read(rest)->Some_0;
            binary::lemma_tagged_back::<TrojanConfig>(s, 2, rest, c, left);
            assert(Self::bytes(ProtocolSpec::Trojan(c)) =~= encoding::variant(2)
                + TrojanConfig::written(c));
        } else if n == 3 {
            let (c, left) = ShadowsocksConfig::read(rest)->Some_0;
            binary::lemma_tagged_back::<ShadowsocksConfig>(s, 3, rest, c, left);
            assert(Self::bytes(ProtocolSpec::Shadowsocks(c)) =~= encoding::variant(3)
                + ShadowsocksConfig::written(c));
        } else if n == 4 {
            let (c, left) = Hysteria2Config::read(rest)->Some_0;
            binary::lemma_tagged_back::<Hysteria2Config>(s, 4, rest, c, left);
            assert(Self::bytes(ProtocolSpec::Hysteria2(c)) =~= encoding::variant(4)
                + Hysteria2Config::written(c));
        } else if n == 5 {
            let (c, left) = TuicConfig::read(rest)->Some_0;
            binary::lemma_tagged_back::<TuicConfig>(s, 5, rest, c, left);
            assert(Self::bytes(ProtocolSpec::Tuic(c)) =~= encoding::variant(5)
                + TuicConfig::written(c));
        } else if n == 6 {
            let (c, left) = WireGuardConfig::read(rest)->Some_0;
            binary::lemma_tagged_back::<WireGuardConfig>(s, 6, rest, c, left);
            assert(Self::bytes(ProtocolSpec::WireGuard(c)) =~= encoding::variant(6)
                + WireGuardConfig::written(c));
        }
    }

    fn take<'a>(s: &'a [u8]) -> (r: Option<(ProtocolSpec, &'a [u8])>) {
        match u32::take(s) {
            Some((0, rest)) => match VlessConfig::take(rest) {
                Some((c, rest)) => Some((ProtocolSpec::Vless(c), rest)),
                None => None,
            },
            Some((1, rest)) => match VmessConfig::take(rest) {
                Some((c, rest)) => Some((ProtocolSpec::Vmess(c), rest)),
                None => None,
            },
            Some((2, rest)) => match TrojanConfig::take(rest) {
                Some((c, rest)) => Some((ProtocolSpec::Trojan(c), rest)),
                None => None,
            },
            Some((3, rest)) => match ShadowsocksConfig::take(rest) {
                Some((c, rest)) => Some((ProtocolSpec::Shadowsocks(c), rest)),
                None => None,
            },
            Some((4, rest)) => match Hysteria2Config::take(rest) {
                Some((c, rest)) => Some((ProtocolSpec::Hysteria2(c), rest)),
                None => None,
            },
            Some((5, rest)) => match TuicConfig::take(rest) {
                Some((c, rest)) => Some((ProtocolSpec::Tuic(c), rest)),
                None => None,
            },
            Some((6, rest)) => match WireGuardConfig::take(rest) {
                Some((c, rest)) => Some((ProtocolSpec::WireGuard(c), rest)),
                None => None,
            },
            _ => None,
        }
    }
}

impl Binary for TransportSpec {
    type Model = TransportSpec<Seq<char>>;

    open spec fn model(self) -> TransportSpec<Seq<char>> {
        self@
    }

    open spec fn bytes(m: TransportSpec<Seq<char>>) -> Seq<u8> {
        encoding::transport_bytes(m)
    }

    open spec fn fits(m: TransportSpec<Seq<char>>) -> bool {
        match m {
            TransportSpec::Tcp => true,
            TransportSpec::WebSocket(c) => WebSocketConfig::fits(c),
            TransportSpec::Grpc(c) => GrpcConfig::fits(c),
            TransportSpec::HttpUpgrade(c) => HttpUpgradeConfig::fits(c),
            TransportSpec::XHttp(c) => XHttpConfig::fits(c),
        }
    }

    open spec fn read(s: Seq<u8>) -> Read<TransportSpec<Seq<char>>> {
        match u32::read(s) {
            Some((0, rest)) => Some((TransportSpec::Tcp, rest)),
            Some((1, rest)) => match WebSocketConfig::read(rest) {
                Some((c, rest)) => Some((TransportSpec::WebSocket(c), rest)),
                None => None,
            },
            Some((2, rest)) => match GrpcConfig::read(rest) {
                Some((c, rest)) => Some((TransportSpec::Grpc(c), rest)),
                None => None,
            },
            Some((3, rest)) => match HttpUpgradeConfig::read(rest) {
                Some((c, rest)) => Some((TransportSpec::HttpUpgrade(c), rest)),
                None => None,
            },
            Some((4, rest)) => match XHttpConfig::read(rest) {
                Some((c, rest)) => Some((TransportSpec::XHttp(c), rest)),
                None => None,
            },
            _ => None,
        }
    }

    proof fn reads_back(m: TransportSpec<Seq<char>>, rest: Seq<u8>) {
        match m {
            TransportSpec::Tcp => {
                u32::reads_back(0, rest);
            },
            TransportSpec::WebSocket(c) => {
                binary::lemma_tagged::<WebSocketConfig>(1, c, rest);
                assert(Self::bytes(m) =~= encoding::variant(1) + WebSocketConfig::written(c));
            },
            TransportSpec::Grpc(c) => {
                binary::lemma_tagged::<GrpcConfig>(2, c, rest);
                assert(Self::bytes(m) =~= encoding::variant(2) + GrpcConfig::written(c));
            },
            TransportSpec::HttpUpgrade(c) => {
                binary::lemma_tagged::<HttpUpgradeConfig>(3, c, rest);
                assert(Self::bytes(m) =~= encoding::variant(3) + HttpUpgradeConfig::written(c));
            },
            TransportSpec::XHttp(c) => {
                binary::lemma_tagged::<XHttpConfig>(4, c, rest);
                assert(Self::bytes(m) =~= encoding::variant(4) + XHttpConfig::written(c));
            },
        }
    }

    proof fn was_written(s: Seq<u8>) {
        u32::was_written(s);
        let (n, rest) = u32::read(s)->Some_0;
        if n == 1 {
            let (c, left) = WebSocketConfig::read(rest)->Some_0;
            binary::lemma_tagged_back::<WebSocketConfig>(s, 1, rest, c, left);
            assert(Self::bytes(TransportSpec::WebSocket(c)) =~= encoding::variant(1)
                + WebSocketConfig::written(c));
        } else if n == 2 {
            let (c, left) = GrpcConfig::read(rest)->Some_0;
            binary::lemma_tagged_back::<GrpcConfig>(s, 2, rest, c, left);
            assert(Self::bytes(TransportSpec::Grpc(c)) =~= encoding::variant(2)
                + GrpcConfig::written(c));
        } else if n == 3 {
            let (c, left) = HttpUpgradeConfig::read(rest)->Some_0;
            binary::lemma_tagged_back::<HttpUpgradeConfig>(s, 3, rest, c, left);
            assert(Self::bytes(TransportSpec::HttpUpgrade(c)) =~= encoding::variant(3)
                + HttpUpgradeConfig::written(c));
        } else if n == 4 {
            let (c, left) = XHttpConfig::read(rest)->Some_0;
            binary::lemma_tagged_back::<XHttpConfig>(s, 4, rest, c, left);
            assert(Self::bytes(TransportSpec::XHttp(c)) =~= encoding::variant(4)
                + XHttpConfig::written(c));
        }
    }

    fn take<'a>(s: &'a [u8]) -> (r: Option<(TransportSpec, &'a [u8])>) {
        match u32::take(s) {
            Some((0, rest)) => Some((TransportSpec::Tcp, rest)),
            Some((1, rest)) => match WebSocketConfig::take(rest) {
                Some((c, rest)) => Some((TransportSpec::WebSocket(c), rest)),
                None => None,
            },
            Some((2, rest)) => match GrpcConfig::take(rest) {
                Some((c, rest)) => Some((TransportSpec::Grpc(c), rest)),
                None => None,
            },
            Some((3, rest)) => match HttpUpgradeConfig::take(rest) {
                Some((c, rest)) => Some((TransportSpec::HttpUpgrade(c), rest)),
                None => None,
            },
            Some((4, rest)) => match XHttpConfig::take(rest) {
                Some((c, rest)) => Some((TransportSpec::XHttp(c), rest)),
                None => None,
            },
            _ => None,
        }
    }
}

impl Binary for SecuritySpec {
    type Model = SecuritySpec<Seq<char>, Seq<Seq<char>>>;

    open spec fn model(self) -> SecuritySpec<Seq<char>, Seq<Seq<char>>> {
        self@
    }

    open spec fn bytes(m: SecuritySpec<Seq<char>, Seq<Seq<char>>>) -> Seq<u8> {
        encoding::security_bytes(m)
    }

    open spec fn fits(m: SecuritySpec<Seq<char>, Seq<Seq<char>>>) -> bool {
        match m {
            SecuritySpec::Plain => true,
            SecuritySpec::Tls(c) => StandardTlsConfig::fits(c),
            SecuritySpec::Reality(c) => RealityConfig::fits(c),
        }
    }

    open spec fn read(s: Seq<u8>) -> Read<SecuritySpec<Seq<char>, Seq<Seq<char>>>> {
        match u32::read(s) {
            Some((0, rest)) => Some((SecuritySpec::Plain, rest)),
            Some((1, rest)) => match StandardTlsConfig::read(rest) {
                Some((c, rest)) => Some((SecuritySpec::Tls(c), rest)),
                None => None,
            },
            Some((2, rest)) => match RealityConfig::read(rest) {
                Some((c, rest)) => Some((SecuritySpec::Reality(c), rest)),
                None => None,
            },
            _ => None,
        }
    }

    proof fn reads_back(m: SecuritySpec<Seq<char>, Seq<Seq<char>>>, rest: Seq<u8>) {
        match m {
            SecuritySpec::Plain => {
                u32::reads_back(0, rest);
            },
            SecuritySpec::Tls(c) => {
                binary::lemma_tagged::<StandardTlsConfig>(1, c, rest);
                assert(Self::bytes(m) =~= encoding::variant(1) + StandardTlsConfig::written(c));
            },
            SecuritySpec::Reality(c) => {
                binary::lemma_tagged::<RealityConfig>(2, c, rest);
                assert(Self::bytes(m) =~= encoding::variant(2) + RealityConfig::written(c));
            },
        }
    }

    proof fn was_written(s: Seq<u8>) {
        u32::was_written(s);
        let (n, rest) = u32::read(s)->Some_0;
        if n == 1 {
            let (c, left) = StandardTlsConfig::read(rest)->Some_0;
            binary::lemma_tagged_back::<StandardTlsConfig>(s, 1, rest, c, left);
            assert(Self::bytes(SecuritySpec::Tls(c)) =~= encoding::variant(1)
                + StandardTlsConfig::written(c));
        } else if n == 2 {
            let (c, left) = RealityConfig::read(rest)->Some_0;
            binary::lemma_tagged_back::<RealityConfig>(s, 2, rest, c, left);
            assert(Self::bytes(SecuritySpec::Reality(c)) =~= encoding::variant(2)
                + RealityConfig::written(c));
        }
    }

    fn take<'a>(s: &'a [u8]) -> (r: Option<(SecuritySpec, &'a [u8])>) {
        match u32::take(s) {
            Some((0, rest)) => Some((SecuritySpec::Plain, rest)),
            Some((1, rest)) => match StandardTlsConfig::take(rest) {
                Some((c, rest)) => Some((SecuritySpec::Tls(c), rest)),
                None => None,
            },
            Some((2, rest)) => match RealityConfig::take(rest) {
                Some((c, rest)) => Some((SecuritySpec::Reality(c), rest)),
                None => None,
            },
            _ => None,
        }
    }
}

impl Shaped for NodeMetadata {
    type Value = NodeMetadata<Seq<char>>;

    type Shape = (u16, (String, ([u8; 2], u64)));

    open spec fn value(self) -> Self::Value {
        self@
    }

    open spec fn written(m: Self::Value) -> Seq<u8> {
        encoding::meta_bytes(m)
    }

    open spec fn shape(m: Self::Value) -> <Self::Shape as Binary>::Model {
        (m.sub_id, (m.label, (m.country_code@, m.import_timestamp)))
    }

    open spec fn of(x: <Self::Shape as Binary>::Model) -> Option<Self::Value> {
        let (sub_id, (label, (country_code, import_timestamp))) = x;
        Some(
            NodeMetadata {
                sub_id,
                label,
                country_code: [country_code[0], country_code[1]],
                import_timestamp,
            },
        )
    }

    proof fn shape_is_exact(m: Self::Value) {
        lemma_two(m.country_code);
        assert(Self::written(m) =~= <Self::Shape as Binary>::bytes(Self::shape(m)));
    }

    proof fn shape_is_met(x: <Self::Shape as Binary>::Model) {
        let again = [x.1.1.0[0], x.1.1.0[1]];
        assert(again@ =~= x.1.1.0);
    }

    fn make(x: Self::Shape) -> (r: Option<NodeMetadata>) {
        let (sub_id, (label, (country_code, import_timestamp))) = x;
        proof {
            lemma_two(country_code);
        }
        Some(NodeMetadata { sub_id, label, country_code, import_timestamp })
    }
}

impl Shaped for CanonicalNode {
    type Value = NodeView;

    type Shape = (CanonicalHash, (NodeMetadata, Link));

    open spec fn value(self) -> Self::Value {
        self@
    }

    open spec fn written(m: Self::Value) -> Seq<u8> {
        encoding::node_bytes(m)
    }

    open spec fn shape(m: Self::Value) -> <Self::Shape as Binary>::Model {
        (m.hash, (m.meta, (m.endpoint, (m.protocol, (m.transport, (m.security, m.mux))))))
    }

    open spec fn of(x: <Self::Shape as Binary>::Model) -> Option<Self::Value> {
        let (hash, (meta, (endpoint, (protocol, (transport, (security, mux)))))) = x;
        Some(NodeView { hash, meta, endpoint, protocol, transport, security, mux })
    }

    proof fn shape_is_exact(m: Self::Value) {
        assert(Self::written(m) =~= <Self::Shape as Binary>::bytes(Self::shape(m)));
    }

    proof fn shape_is_met(x: <Self::Shape as Binary>::Model) {
    }

    fn make(x: Self::Shape) -> (r: Option<CanonicalNode>) {
        let (hash, (meta, (endpoint, (protocol, (transport, (security, mux)))))) = x;
        Some(CanonicalNode { hash, meta, endpoint, protocol, transport, security, mux })
    }
}

// ---------------------------------------------------------------------------
// Nodes
// ---------------------------------------------------------------------------

/// The bytes begin with the persisted form of the node.
pub open spec fn is_payload_of(n: NodeView, bytes: Seq<u8>) -> bool {
    CanonicalNode::fits(n) && encoding::node_bytes(n).is_prefix_of(bytes)
}

/// Bytes are the payload of one node at most, so that a persisted node is read back as
/// it was and as nothing else.
pub proof fn law_payloads_are_of_one_node(n: NodeView, other: NodeView, bytes: Seq<u8>)
    requires
        is_payload_of(n, bytes),
        is_payload_of(other, bytes),
    ensures
        n == other,
{
    binary::law_bytes_are_of_one_value::<CanonicalNode>(n, other, bytes);
}

/// Everything that decides where and how a connection is made can be told from the
/// bytes of a functional identity: nodes that differ in any of it have different ones.
pub proof fn law_identities_are_told_apart(n: NodeView, other: NodeView, version: u8)
    requires
        CanonicalNode::fits(n),
        CanonicalNode::fits(other),
        encoding::identity_bytes(version, n.endpoint, n.protocol, n.transport, n.security, n.mux)
            == encoding::identity_bytes(
            version,
            other.endpoint,
            other.protocol,
            other.transport,
            other.security,
            other.mux,
        ),
    ensures
        n.endpoint == other.endpoint,
        n.protocol == other.protocol,
        n.transport == other.transport,
        n.security == other.security,
        n.mux == other.mux,
{
    lemma_identity_read(n, version);
    lemma_identity_read(other, version);
}

proof fn lemma_identity_read(n: NodeView, version: u8)
    requires
        CanonicalNode::fits(n),
    ensures
        <Link as Binary>::read(
            encoding::identity_bytes(
                version,
                n.endpoint,
                n.protocol,
                n.transport,
                n.security,
                n.mux,
            ).skip(1),
        ) == Some(
            ((n.endpoint, (n.protocol, (n.transport, (n.security, n.mux)))), Seq::<u8>::empty()),
        ),
{
    let link = (n.endpoint, (n.protocol, (n.transport, (n.security, n.mux))));
    let mux = encoding::optional(n.mux, |m: MuxSpec| encoding::mux_bytes(m));
    assert(mux =~= <Option<MuxSpec> as Binary>::bytes(n.mux));
    lemma_regrouped(
        version,
        encoding::endpoint_bytes(n.endpoint),
        encoding::protocol_bytes(n.protocol),
        encoding::transport_bytes(n.transport),
        encoding::security_bytes(n.security),
        mux,
    );
    <Link as Binary>::reads_back(link, Seq::empty());
}

proof fn lemma_regrouped(v: u8, a: Seq<u8>, b: Seq<u8>, c: Seq<u8>, d: Seq<u8>, e: Seq<u8>)
    ensures
        (seq![v] + a + b + c + d + e).skip(1) == (a + (b + (c + (d + e)))) + Seq::<u8>::empty(),
{
    assert((seq![v] + a + b + c + d + e).skip(1) =~= (a + (b + (c + (d + e)))) + Seq::<
        u8,
    >::empty());
}

/// Reads a persisted node, whether or not its hash fits.
pub fn decode_node(bytes: &[u8]) -> (r: Option<CanonicalNode>)
    ensures
        (match r {
            Some(n) => is_payload_of(n@, bytes@),
            None => forall|n: NodeView| !is_payload_of(n, bytes@),
        }),
{
    let r = binary::decode::<CanonicalNode>(bytes);
    assert forall|n: NodeView| #[trigger]
        is_payload_of(n, bytes@) == binary::begins_with::<CanonicalNode>(bytes@, n) by {}
    r
}

} // verus!
