//! Transports, transport security and multiplexing.
//!
//! `T` stands for a text and `L` for a list of texts: `String` and
//! `Vec<String>` in executable code, sequences in the model.
use crate::text;
use vstd::prelude::*;

verus! {

#[derive(Clone, Debug, PartialEq, Eq)]
pub enum TransportSpec<T = String> {
    Tcp,
    WebSocket(WebSocketConfig<T>),
    Grpc(GrpcConfig<T>),
    HttpUpgrade(HttpUpgradeConfig<T>),
    XHttp(XHttpConfig<T>),
}

#[derive(Clone, Debug, PartialEq, Eq)]
pub struct WebSocketConfig<T = String> {
    pub path: T,
    pub host: Option<T>,
    pub max_early_data: u32,
    pub early_data_header: Option<T>,
}

#[derive(Clone, Debug, PartialEq, Eq)]
pub struct GrpcConfig<T = String> {
    pub service_name: T,
    pub multi_mode: bool,
}

#[derive(Clone, Debug, PartialEq, Eq)]
pub struct HttpUpgradeConfig<T = String> {
    pub path: T,
    pub host: Option<T>,
}

#[derive(Clone, Debug, PartialEq, Eq)]
pub struct XHttpConfig<T = String> {
    pub mode: XHttpMode,
    pub path: T,
    pub host: Option<T>,
}

#[derive(Clone, Copy, Debug, PartialEq, Eq)]
pub enum XHttpMode {
    StreamOne,
    StreamUp,
    PacketUp,
}

#[derive(Clone, Debug, PartialEq, Eq)]
pub enum SecuritySpec<T = String, L = Vec<String>> {
    Plain,
    Tls(StandardTlsConfig<T, L>),
    Reality(RealityConfig<T>),
}

#[derive(Clone, Debug, PartialEq, Eq)]
pub struct StandardTlsConfig<T = String, L = Vec<String>> {
    pub server_name: T,
    pub alpn: L,
    pub fingerprint: UtlsFingerprint,
    pub allow_insecure: bool,
}

#[derive(Clone, Debug, PartialEq, Eq)]
pub struct RealityConfig<T = String> {
    pub server_name: T,
    pub public_key: T,
    pub short_id: T,
    pub spider_x: Option<T>,
    pub fingerprint: UtlsFingerprint,
}

#[derive(Clone, Copy, Debug, PartialEq, Eq)]
pub enum UtlsFingerprint {
    Chrome,
    Firefox,
    Safari,
    Edge,
    Randomized,
    Disabled,
}

#[derive(Clone, Copy, Debug, PartialEq, Eq)]
pub struct MuxSpec {
    pub enabled: bool,
    pub concurrency: u16,
    pub protocol: MuxProtocol,
}

#[derive(Clone, Copy, Debug, PartialEq, Eq)]
pub enum MuxProtocol {
    Smux,
    Yamux,
    H2Mux,
}

impl View for WebSocketConfig {
    type V = WebSocketConfig<Seq<char>>;

    open spec fn view(&self) -> WebSocketConfig<Seq<char>> {
        WebSocketConfig {
            path: self.path@,
            host: text::text_of(self.host),
            max_early_data: self.max_early_data,
            early_data_header: text::text_of(self.early_data_header),
        }
    }
}

impl View for GrpcConfig {
    type V = GrpcConfig<Seq<char>>;

    open spec fn view(&self) -> GrpcConfig<Seq<char>> {
        GrpcConfig { service_name: self.service_name@, multi_mode: self.multi_mode }
    }
}

impl View for HttpUpgradeConfig {
    type V = HttpUpgradeConfig<Seq<char>>;

    open spec fn view(&self) -> HttpUpgradeConfig<Seq<char>> {
        HttpUpgradeConfig { path: self.path@, host: text::text_of(self.host) }
    }
}

impl View for XHttpConfig {
    type V = XHttpConfig<Seq<char>>;

    open spec fn view(&self) -> XHttpConfig<Seq<char>> {
        XHttpConfig { mode: self.mode, path: self.path@, host: text::text_of(self.host) }
    }
}

impl View for TransportSpec {
    type V = TransportSpec<Seq<char>>;

    open spec fn view(&self) -> TransportSpec<Seq<char>> {
        match *self {
            TransportSpec::Tcp => TransportSpec::Tcp,
            TransportSpec::WebSocket(c) => TransportSpec::WebSocket(c@),
            TransportSpec::Grpc(c) => TransportSpec::Grpc(c@),
            TransportSpec::HttpUpgrade(c) => TransportSpec::HttpUpgrade(c@),
            TransportSpec::XHttp(c) => TransportSpec::XHttp(c@),
        }
    }
}

impl View for StandardTlsConfig {
    type V = StandardTlsConfig<Seq<char>, Seq<Seq<char>>>;

    open spec fn view(&self) -> StandardTlsConfig<Seq<char>, Seq<Seq<char>>> {
        StandardTlsConfig {
            server_name: self.server_name@,
            alpn: text::texts_of(self.alpn@),
            fingerprint: self.fingerprint,
            allow_insecure: self.allow_insecure,
        }
    }
}

impl View for RealityConfig {
    type V = RealityConfig<Seq<char>>;

    open spec fn view(&self) -> RealityConfig<Seq<char>> {
        RealityConfig {
            server_name: self.server_name@,
            public_key: self.public_key@,
            short_id: self.short_id@,
            spider_x: text::text_of(self.spider_x),
            fingerprint: self.fingerprint,
        }
    }
}

impl View for SecuritySpec {
    type V = SecuritySpec<Seq<char>, Seq<Seq<char>>>;

    open spec fn view(&self) -> SecuritySpec<Seq<char>, Seq<Seq<char>>> {
        match *self {
            SecuritySpec::Plain => SecuritySpec::Plain,
            SecuritySpec::Tls(c) => SecuritySpec::Tls(c@),
            SecuritySpec::Reality(c) => SecuritySpec::Reality(c@),
        }
    }
}

} // verus!
