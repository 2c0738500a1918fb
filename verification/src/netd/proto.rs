//! Messages between a controller and the routing daemon, and their frames.
use crate::text;
use vstd::prelude::*;
use vstd::string::*;

verus! {

pub const PROTOCOL_VERSION: u32 = 1;

/// Without a heartbeat for this long, routing has been rolled back.
pub const WATCHDOG_TIMEOUT_SECS: u64 = 5;

/// How often the daemon looks for an overdue heartbeat.
pub const WATCHDOG_POLL_SECS: u64 = 1;

pub const HEARTBEAT_INTERVAL_SECS: u64 = 2;

pub const MAX_FRAME_BYTES: usize = 65536;

pub const DEFAULT_SOCKET_PATH: &'static str = "/run/myproxy/netd.sock";

/// What a controller asks. `L` is a list of texts.
#[derive(Clone, Debug, PartialEq, Eq)]
pub enum NetdRequest<L = Vec<String>> {
    Handshake { client_version: u32 },
    EnableRouting {
        session_id: u64,
        tproxy_port: u16,
        proxy_fwmark: u32,
        table_id: u32,
        dns_ipv4: Option<[u8; 4]>,
        bypass_subnets: L,
        bypass_subnets_v6: L,
        core_uid: Option<u32>,
    },
    DisableRouting { session_id: u64 },
    Heartbeat { session_id: u64, sequence: u64 },
}

/// What the daemon answers.
#[derive(Clone, Debug, PartialEq, Eq)]
pub enum NetdResponse<T = String> {
    HandshakeOk { daemon_version: u32, session_id: u64 },
    RoutingEnabled,
    RoutingDisabled,
    HeartbeatAck { sequence: u64 },
    State { routing_active: bool },
    Error(T),
}

impl View for NetdRequest {
    type V = NetdRequest<Seq<Seq<char>>>;

    open spec fn view(&self) -> NetdRequest<Seq<Seq<char>>> {
        match *self {
            NetdRequest::Handshake { client_version } => NetdRequest::Handshake { client_version },
            NetdRequest::EnableRouting {
                session_id,
                tproxy_port,
                proxy_fwmark,
                table_id,
                dns_ipv4,
                bypass_subnets,
                bypass_subnets_v6,
                core_uid,
            } => NetdRequest::EnableRouting {
                session_id,
                tproxy_port,
                proxy_fwmark,
                table_id,
                dns_ipv4,
                bypass_subnets: text::texts_of(bypass_subnets@),
                bypass_subnets_v6: text::texts_of(bypass_subnets_v6@),
                core_uid,
            },
            NetdRequest::DisableRouting { session_id } => NetdRequest::DisableRouting {
                session_id,
            },
            NetdRequest::Heartbeat { session_id, sequence } => NetdRequest::Heartbeat {
                session_id,
                sequence,
            },
        }
    }
}

impl View for NetdResponse {
    type V = NetdResponse<Seq<char>>;

    open spec fn view(&self) -> NetdResponse<Seq<char>> {
        match *self {
            NetdResponse::HandshakeOk { daemon_version, session_id } => NetdResponse::HandshakeOk {
                daemon_version,
                session_id,
            },
            NetdResponse::RoutingEnabled => NetdResponse::RoutingEnabled,
            NetdResponse::RoutingDisabled => NetdResponse::RoutingDisabled,
            NetdResponse::HeartbeatAck { sequence } => NetdResponse::HeartbeatAck { sequence },
            NetdResponse::State { routing_active } => NetdResponse::State { routing_active },
            NetdResponse::Error(s) => NetdResponse::Error(s@),
        }
    }
}

/// An answer as it is shown in messages.
pub open spec fn response_text(r: NetdResponse<Seq<char>>) -> Seq<char> {
    match r {
        NetdResponse::HandshakeOk { daemon_version, session_id } =>
            "HandshakeOk { daemon_version: "@ + text::decimal(daemon_version as nat)
                + ", session_id: "@ + text::decimal(session_id as nat) + " }"@,
        NetdResponse::RoutingEnabled => "RoutingEnabled"@,
        NetdResponse::RoutingDisabled => "RoutingDisabled"@,
        NetdResponse::HeartbeatAck { sequence } => "HeartbeatAck { sequence: "@ + text::decimal(
            sequence as nat,
        ) + " }"@,
        NetdResponse::State { routing_active } => if routing_active {
            "State { routing_active: true }"@
        } else {
            "State { routing_active: false }"@
        },
        NetdResponse::Error(s) => "Error("@ + text::quoted(s) + ")"@,
    }
}

impl NetdResponse {
    /// The answer as it is shown in messages.
    pub fn to_text(&self) -> (r: String)
        ensures
            r@ == response_text(self@),
    {
        match self {
            NetdResponse::HandshakeOk { daemon_version, session_id } => {
                let mut r = "HandshakeOk { daemon_version: ".to_owned();
                r.append(text::decimal_text(*daemon_version as u64).as_str());
                r.append(", session_id: ");
                r.append(text::decimal_text(*session_id).as_str());
                r.append(" }");
                r
            },
            NetdResponse::RoutingEnabled => "RoutingEnabled".to_owned(),
            NetdResponse::RoutingDisabled => "RoutingDisabled".to_owned(),
            NetdResponse::HeartbeatAck { sequence } => {
                let mut r = "HeartbeatAck { sequence: ".to_owned();
                r.append(text::decimal_text(*sequence).as_str());
                r.append(" }");
                r
            },
            NetdResponse::State { routing_active } => if *routing_active {
                "State { routing_active: true }".to_owned()
            } else {
                "State { routing_active: false }".to_owned()
            },
            NetdResponse::Error(s) => {
                let mut r = "Error(".to_owned();
                r.append(text::quote(s.as_str()).as_str());
                r.append(")");
                r
            },
        }
    }
}

// ---------------------------------------------------------------------------
// Frames
// ---------------------------------------------------------------------------

/// Why bytes are no frame.
#[derive(Clone, Copy, Debug, PartialEq, Eq, Structural)]
pub enum FrameError {
    TooLarge(usize),
    InvalidLength(usize),
}

impl FrameError {
    pub open spec fn text(self) -> Seq<char> {
        match self {
            FrameError::TooLarge(n) => "request frame too large: "@ + text::decimal(n as nat)
                + " bytes"@,
            FrameError::InvalidLength(n) => "invalid netd frame length "@ + text::decimal(n as nat),
        }
    }

    /// The message for a user.
    pub fn message(self) -> (r: String)
        ensures
            r@ == self.text(),
    {
        match self {
            FrameError::TooLarge(n) => {
                let mut r = "request frame too large: ".to_owned();
                r.append(text::decimal_text(n as u64).as_str());
                r.append(" bytes");
                r
            },
            FrameError::InvalidLength(n) => {
                let mut r = "invalid netd frame length ".to_owned();
                r.append(text::decimal_text(n as u64).as_str());
                r
            },
        }
    }
}

/// A length as four bytes, most significant first.
pub open spec fn length_bytes(n: nat) -> Seq<u8> {
    seq![
        (n / 0x1000000 % 256) as u8,
        (n / 0x10000 % 256) as u8,
        (n / 0x100 % 256) as u8,
        (n % 256) as u8,
    ]
}

/// The length that four bytes denote.
pub open spec fn length_value(s: Seq<u8>) -> nat {
    (s[0] * 0x1000000 + s[1] * 0x10000 + s[2] * 0x100 + s[3]) as nat
}

/// The length in a frame's head: from one byte to the limit.
pub open spec fn checked_length(head: Seq<u8>) -> Result<nat, FrameError> {
    let n = length_value(head);
    if n == 0 || n > MAX_FRAME_BYTES {
        Err(FrameError::InvalidLength(n as usize))
    } else {
        Ok(n)
    }
}

/// A payload as a frame: its length, then its bytes.
pub open spec fn frame(payload: Seq<u8>) -> Result<Seq<u8>, FrameError> {
    if payload.len() > MAX_FRAME_BYTES {
        Err(FrameError::TooLarge(payload.len() as usize))
    } else {
        Ok(length_bytes(payload.len()) + payload)
    }
}

/// What is framed can be read back: the head of a frame gives the length of its
/// payload, and that many bytes follow. An empty payload is framed but its head
/// is refused.
pub proof fn law_frames_read_back(payload: Seq<u8>)
    requires
        0 < payload.len() <= MAX_FRAME_BYTES,
    ensures
        frame(payload) is Ok,
        checked_length(frame(payload)->Ok_0.take(4)) == Ok::<_, FrameError>(payload.len()),
        frame(payload)->Ok_0.skip(4) == payload,
{
    let n = payload.len();
    let bytes = frame(payload)->Ok_0;
    assert(bytes.take(4) =~= length_bytes(n));
    assert(bytes.skip(4) =~= payload);
    assert(n / 0x1000000 % 256 == 0);
    assert(length_value(length_bytes(n)) == n);
}

/// Frames a payload.
pub fn encode_frame(payload: &[u8]) -> (r: Result<Vec<u8>, FrameError>)
    ensures
        (match r {
            Ok(bytes) => frame(payload@) == Ok::<_, FrameError>(bytes@),
            Err(e) => frame(payload@) == Err::<Seq<u8>, _>(e),
        }),
{
    let n: usize = payload.len();
    if n > MAX_FRAME_BYTES {
        return Err(FrameError::TooLarge(n));
    }
    let mut r: Vec<u8> = Vec::new();
    r.push((n / 0x1000000 % 256) as u8);
    r.push((n / 0x10000 % 256) as u8);
    r.push((n / 0x100 % 256) as u8);
    r.push((n % 256) as u8);
    assert(r@ =~= length_bytes(n as nat));
    r.extend_from_slice(payload);
    assert(r@ =~= length_bytes(n as nat) + payload@);
    Ok(r)
}

/// The length in a frame's head.
pub fn frame_length(head: [u8; 4]) -> (r: Result<usize, FrameError>)
    ensures
        (match r {
            Ok(n) => checked_length(head@) == Ok::<_, FrameError>(n as nat),
            Err(e) => checked_length(head@) == Err::<nat, _>(e),
        }),
{
    let n: u32 = head[0] as u32 * 0x1000000 + head[1] as u32 * 0x10000 + head[2] as u32 * 0x100
        + head[3] as u32;
    if n == 0 || n as usize > MAX_FRAME_BYTES {
        return Err(FrameError::InvalidLength(n as usize));
    }
    Ok(n as usize)
}

} // verus!
