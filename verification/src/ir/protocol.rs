//! Proxy protocols and their settings.
//!
//! A type with a parameter `T` holds its texts as `T`. The executable form has
//! `String`, the model has `Seq<char>`; `A` likewise stands for a list of
//! addresses.
use crate::ip::{IpAddr, IpView};
use crate::ir::uuid::Uuid;
use crate::text;
use vstd::prelude::*;

verus! {

#[derive(Clone, Debug, PartialEq, Eq)]
pub enum ProtocolSpec<T = String, A = Vec<IpAddr>> {
    Vless(VlessConfig),
    Vmess(VmessConfig),
    Trojan(TrojanConfig<T>),
    Shadowsocks(ShadowsocksConfig<T>),
    Hysteria2(Hysteria2Config<T>),
    Tuic(TuicConfig<T>),
    WireGuard(WireGuardConfig<T, A>),
}

#[derive(Clone, Copy, Debug, PartialEq, Eq)]
pub struct VlessConfig {
    pub uuid: Uuid,
    pub flow: Option<VlessFlow>,
}

#[derive(Clone, Copy, Debug, PartialEq, Eq)]
pub enum VlessFlow {
    XtlsRprxVision,
    XtlsRprxVisionUdp443,
}

#[derive(Clone, Copy, Debug, PartialEq, Eq)]
pub struct VmessConfig {
    pub uuid: Uuid,
    pub alter_id: u16,
    pub cipher: VmessCipher,
}

#[derive(Clone, Copy, Debug, PartialEq, Eq)]
pub enum VmessCipher {
    Auto,
    Aes128Gcm,
    Chacha20Poly1305,
    Plain,
}

#[derive(Clone, Debug, PartialEq, Eq)]
pub struct TrojanConfig<T = String> {
    pub password: T,
}

#[derive(Clone, Debug, PartialEq, Eq)]
pub struct ShadowsocksConfig<T = String> {
    pub method: ShadowsocksCipher,
    pub password: T,
    pub plugin: Option<T>,
    pub plugin_opts: Option<T>,
}

#[derive(Clone, Copy, Debug, PartialEq, Eq)]
pub enum ShadowsocksCipher {
    Aes128Gcm,
    Aes256Gcm,
    Chacha20IetfPoly1305,
    Ss2022Blake3Aes128Gcm,
    Ss2022Blake3Aes256Gcm,
    Ss2022Blake3Chacha20Poly1305,
}

#[derive(Clone, Debug, PartialEq, Eq)]
pub struct Hysteria2Config<T = String> {
    pub password: T,
    pub up_mbps: Option<u32>,
    pub down_mbps: Option<u32>,
    pub obfs: Option<Hysteria2Obfs<T>>,
    pub port_hopping: Option<T>,
}

#[derive(Clone, Debug, PartialEq, Eq)]
pub struct Hysteria2Obfs<T = String> {
    pub obfs_type: T,
    pub password: T,
}

#[derive(Clone, Debug, PartialEq, Eq)]
pub struct TuicConfig<T = String> {
    pub uuid: Uuid,
    pub password: T,
    pub congestion_control: TuicCongestion,
    pub udp_relay_mode: TuicUdpRelay,
    pub zero_rtt_handshake: bool,
}

#[derive(Clone, Copy, Debug, PartialEq, Eq)]
pub enum TuicCongestion {
    Bbr,
    Cubic,
    NewReno,
}

#[derive(Clone, Copy, Debug, PartialEq, Eq)]
pub enum TuicUdpRelay {
    Native,
    Quic,
}

#[derive(Clone, Debug, PartialEq, Eq)]
pub struct WireGuardConfig<T = String, A = Vec<IpAddr>> {
    pub private_key: T,
    pub peer_public_key: T,
    pub preshared_key: Option<T>,
    pub local_address: A,
    pub reserved: Option<[u8; 3]>,
    pub mtu: Option<u16>,
}

/// The addresses of a list as their octets or segments.
pub open spec fn addresses(s: Seq<IpAddr>) -> Seq<IpView> {
    s.map_values(|a: IpAddr| a@)
}

impl View for TrojanConfig {
    type V = TrojanConfig<Seq<char>>;

    open spec fn view(&self) -> TrojanConfig<Seq<char>> {
        TrojanConfig { password: self.password@ }
    }
}

impl View for ShadowsocksConfig {
    type V = ShadowsocksConfig<Seq<char>>;

    open spec fn view(&self) -> ShadowsocksConfig<Seq<char>> {
        ShadowsocksConfig {
            method: self.method,
            password: self.password@,
            plugin: text::text_of(self.plugin),
            plugin_opts: text::text_of(self.plugin_opts),
        }
    }
}

impl View for Hysteria2Obfs {
    type V = Hysteria2Obfs<Seq<char>>;

    open spec fn view(&self) -> Hysteria2Obfs<Seq<char>> {
        Hysteria2Obfs { obfs_type: self.obfs_type@, password: self.password@ }
    }
}

impl View for Hysteria2Config {
    type V = Hysteria2Config<Seq<char>>;

    open spec fn view(&self) -> Hysteria2Config<Seq<char>> {
        Hysteria2Config {
            password: self.password@,
            up_mbps: self.up_mbps,
            down_mbps: self.down_mbps,
            obfs: match self.obfs {
                Some(obfs) => Some(obfs@),
                None => None,
            },
            port_hopping: text::text_of(self.port_hopping),
        }
    }
}

impl View for TuicConfig {
    type V = TuicConfig<Seq<char>>;

    open spec fn view(&self) -> TuicConfig<Seq<char>> {
        TuicConfig {
            uuid: self.uuid,
            password: self.password@,
            congestion_control: self.congestion_control,
            udp_relay_mode: self.udp_relay_mode,
            zero_rtt_handshake: self.zero_rtt_handshake,
        }
    }
}

impl View for WireGuardConfig {
    type V = WireGuardConfig<Seq<char>, Seq<IpView>>;

    open spec fn view(&self) -> WireGuardConfig<Seq<char>, Seq<IpView>> {
        WireGuardConfig {
            private_key: self.private_key@,
            peer_public_key: self.peer_public_key@,
            preshared_key: text::text_of(self.preshared_key),
            local_address: addresses(self.local_address@),
            reserved: self.reserved,
            mtu: self.mtu,
        }
    }
}

impl View for ProtocolSpec {
    type V = ProtocolSpec<Seq<char>, Seq<IpView>>;

    open spec fn view(&self) -> ProtocolSpec<Seq<char>, Seq<IpView>> {
        match *self {
            ProtocolSpec::Vless(c) => ProtocolSpec::Vless(c),
            ProtocolSpec::Vmess(c) => ProtocolSpec::Vmess(c),
            ProtocolSpec::Trojan(c) => ProtocolSpec::Trojan(c@),
            ProtocolSpec::Shadowsocks(c) => ProtocolSpec::Shadowsocks(c@),
            ProtocolSpec::Hysteria2(c) => ProtocolSpec::Hysteria2(c@),
            ProtocolSpec::Tuic(c) => ProtocolSpec::Tuic(c@),
            ProtocolSpec::WireGuard(c) => ProtocolSpec::WireGuard(c@),
        }
    }
}

} // verus!
