//! The client's side of the session with the routing daemon.
use crate::netd::proto;
use crate::netd::proto::{NetdRequest, NetdResponse};
use crate::text;
use crate::time;
use crate::time::Duration;
use vstd::prelude::*;
use vstd::string::*;

verus! {

/// The routing parameters of one request. The session is supplied by the client;
/// everything else comes from the user's settings.
#[derive(Clone, Debug, PartialEq, Eq)]
pub struct RoutingSpec<L = Vec<String>> {
    pub tproxy_port: u16,
    pub fwmark: u32,
    pub table_id: u32,
    pub dns_ipv4: Option<[u8; 4]>,
    pub bypass_subnets: L,
    pub bypass_subnets_v6: L,
    pub core_uid: Option<u32>,
}

/// The model of the routing parameters.
pub type RoutingSpecView = RoutingSpec<Seq<Seq<char>>>;

impl View for RoutingSpec {
    type V = RoutingSpec<Seq<Seq<char>>>;

    open spec fn view(&self) -> RoutingSpec<Seq<Seq<char>>> {
        RoutingSpec {
            tproxy_port: self.tproxy_port,
            fwmark: self.fwmark,
            table_id: self.table_id,
            dns_ipv4: self.dns_ipv4,
            bypass_subnets: text::texts_of(self.bypass_subnets@),
            bypass_subnets_v6: text::texts_of(self.bypass_subnets_v6@),
            core_uid: self.core_uid,
        }
    }
}

/// The session of a client: its number, the number of its next heartbeat, and
/// whether there is a connection.
#[derive(Clone, Copy, Debug, PartialEq, Eq, Structural)]
pub struct NetdClient {
    pub connected: bool,
    pub session_id: u64,
    pub sequence: u64,
}

/// What was asked of the daemon.
#[derive(Clone, Copy, Debug, PartialEq, Eq, Structural)]
pub enum Question {
    Handshake,
    EnableRouting,
    DisableRouting,
    Heartbeat,
}

/// Why a question was not answered as hoped.
#[derive(Clone, Debug, PartialEq, Eq)]
pub enum ClientError<T = String, R = NetdResponse> {
    /// The daemon refused, for the given reason.
    Refused { question: Question, reason: T },
    /// The daemon answered something else.
    Unexpected { question: Question, reply: R },
    /// There is no connection.
    Closed,
}

/// The model of an error.
pub type ClientErrorView = ClientError<Seq<char>, NetdResponse<Seq<char>>>;

impl View for ClientError {
    type V = ClientError<Seq<char>, NetdResponse<Seq<char>>>;

    open spec fn view(&self) -> ClientError<Seq<char>, NetdResponse<Seq<char>>> {
        match *self {
            ClientError::Refused { question, reason } => ClientError::Refused {
                question,
                reason: reason@,
            },
            ClientError::Unexpected { question, reply } => ClientError::Unexpected {
                question,
                reply: reply@,
            },
            ClientError::Closed => ClientError::Closed,
        }
    }
}

/// How the message of an unexpected answer to a question starts.
pub open spec fn surprise(question: Question) -> Seq<char> {
    match question {
        Question::Handshake => "unexpected handshake reply: "@,
        Question::EnableRouting => "unexpected netd reply to EnableRouting: "@,
        Question::DisableRouting => "unexpected netd reply to DisableRouting: "@,
        Question::Heartbeat => "unexpected netd reply to Heartbeat: "@,
    }
}

/// The message of an error.
pub open spec fn client_error_text(e: ClientErrorView) -> Seq<char> {
    match e {
        ClientError::Refused { question, reason } => if question == Question::Handshake {
            "netd rejected handshake: "@ + reason
        } else {
            "netd: "@ + reason
        },
        ClientError::Unexpected { question, reply } => surprise(question)
            + proto::response_text(reply),
        ClientError::Closed => "netd connection is closed"@,
    }
}

impl ClientError {
    /// The message for a user.
    pub fn message(&self) -> (r: String)
        ensures
            r@ == client_error_text(self@),
    {
        match self {
            ClientError::Refused { question, reason } => {
                let mut r = match question {
                    Question::Handshake => "netd rejected handshake: ".to_owned(),
                    _ => "netd: ".to_owned(),
                };
                r.append(reason.as_str());
                r
            },
            ClientError::Unexpected { question, reply } => {
                let mut r = match question {
                    Question::Handshake => "unexpected handshake reply: ".to_owned(),
                    Question::EnableRouting =>
                        "unexpected netd reply to EnableRouting: ".to_owned(),
                    Question::DisableRouting =>
                        "unexpected netd reply to DisableRouting: ".to_owned(),
                    Question::Heartbeat => "unexpected netd reply to Heartbeat: ".to_owned(),
                };
                r.append(reply.to_text().as_str());
                r
            },
            ClientError::Closed => "netd connection is closed".to_owned(),
        }
    }
}

/// What an answer to a question means: nothing for changes of routing, the
/// session for a handshake, the acknowledged number for a heartbeat.
pub open spec fn meaning(question: Question, reply: NetdResponse<Seq<char>>) -> Result<
    u64,
    ClientErrorView,
> {
    match reply {
        NetdResponse::Error(reason) => Err(ClientError::Refused { question, reason }),
        NetdResponse::HandshakeOk { daemon_version, session_id } if question
            == Question::Handshake => Ok(session_id),
        NetdResponse::RoutingEnabled if question == Question::EnableRouting => Ok(0),
        NetdResponse::RoutingDisabled if question == Question::DisableRouting => Ok(0),
        NetdResponse::HeartbeatAck { sequence } if question == Question::Heartbeat => Ok(sequence),
        _ => Err(ClientError::Unexpected { question, reply }),
    }
}

pub open spec fn meaning_result(r: Result<u64, ClientError>) -> Result<u64, ClientErrorView> {
    match r {
        Ok(n) => Ok(n),
        Err(e) => Err(e@),
    }
}

/// Reads the daemon's answer to a question.
pub fn read_reply(question: Question, reply: NetdResponse) -> (r: Result<u64, ClientError>)
    ensures
        meaning_result(r) == meaning(question, reply@),
{
    match (question, reply) {
        (_, NetdResponse::Error(reason)) => Err(ClientError::Refused { question, reason }),
        (Question::Handshake, NetdResponse::HandshakeOk { session_id, .. }) => Ok(session_id),
        (Question::EnableRouting, NetdResponse::RoutingEnabled) => Ok(0),
        (Question::DisableRouting, NetdResponse::RoutingDisabled) => Ok(0),
        (Question::Heartbeat, NetdResponse::HeartbeatAck { sequence }) => Ok(sequence),
        (_, reply) => Err(ClientError::Unexpected { question, reply }),
    }
}

/// The number after a heartbeat's; after the largest comes zero.
pub open spec fn next_sequence(n: u64) -> u64 {
    if n == u64::MAX {
        0
    } else {
        (n + 1) as u64
    }
}

impl NetdClient {
    /// A client without a connection.
    pub fn new() -> (r: NetdClient)
        ensures
            r == (NetdClient { connected: false, session_id: 0, sequence: 0 }),
    {
        NetdClient { connected: false, session_id: 0, sequence: 0 }
    }

    pub fn session_id(&self) -> (r: u64)
        ensures
            r == self.session_id,
    {
        self.session_id
    }

    /// The first request on a connection.
    pub fn handshake_request(version: u32) -> (r: NetdRequest)
        ensures
            r@ == (NetdRequest::<Seq<Seq<char>>>::Handshake { client_version: version }),
    {
        NetdRequest::Handshake { client_version: version }
    }

    /// Takes the answer to a handshake in: the session that the daemon assigned is
    /// adopted, heartbeats go on counting.
    pub fn reconnect(&mut self, reply: NetdResponse) -> (r: Result<u64, ClientError>)
        ensures
            meaning_result(r) == meaning(Question::Handshake, reply@),
            *final(self) == (match r {
                Ok(session_id) => NetdClient { connected: true, session_id, ..*old(self) },
                Err(_) => *old(self),
            }),
    {
        match read_reply(Question::Handshake, reply) {
            Ok(session_id) => {
                self.connected = true;
                self.session_id = session_id;
                Ok(session_id)
            },
            Err(e) => Err(e),
        }
    }

    /// Whether another attempt to connect follows the failed ones, and after what
    /// pause.
    pub fn retry_after(failed_attempts: u32) -> (r: Option<Duration>)
        ensures
            r == (if failed_attempts >= 3 {
                None::<Duration>
            } else {
                Some(time::millis(250))
            }),
    {
        if failed_attempts >= 3 {
            None
        } else {
            Some(Duration::from_millis(250))
        }
    }

    /// The request to enable routing.
    pub fn enable_routing(&self, spec: &RoutingSpec) -> (r: Result<NetdRequest, ClientError>)
        ensures
            (match r {
                Ok(request) => self.connected && request@ == (NetdRequest::<
                    Seq<Seq<char>>,
                >::EnableRouting {
                    session_id: self.session_id,
                    tproxy_port: spec@.tproxy_port,
                    proxy_fwmark: spec@.fwmark,
                    table_id: spec@.table_id,
                    dns_ipv4: spec@.dns_ipv4,
                    bypass_subnets: spec@.bypass_subnets,
                    bypass_subnets_v6: spec@.bypass_subnets_v6,
                    core_uid: spec@.core_uid,
                }),
                Err(e) => !self.connected && e@ == ClientErrorView::Closed,
            }),
    {
        if !self.connected {
            return Err(ClientError::Closed);
        }
        Ok(
            NetdRequest::EnableRouting {
                session_id: self.session_id,
                tproxy_port: spec.tproxy_port,
                proxy_fwmark: spec.fwmark,
                table_id: spec.table_id,
                dns_ipv4: spec.dns_ipv4,
                bypass_subnets: text::copy_texts(&spec.bypass_subnets),
                bypass_subnets_v6: text::copy_texts(&spec.bypass_subnets_v6),
                core_uid: spec.core_uid,
            },
        )
    }

    /// The request to disable routing.
    pub fn disable_routing(&self) -> (r: Result<NetdRequest, ClientError>)
        ensures
            (match r {
                Ok(request) => self.connected && request@ == (NetdRequest::<
                    Seq<Seq<char>>,
                >::DisableRouting { session_id: self.session_id }),
                Err(e) => !self.connected && e@ == ClientErrorView::Closed,
            }),
    {
        if !self.connected {
            return Err(ClientError::Closed);
        }
        Ok(NetdRequest::DisableRouting { session_id: self.session_id })
    }

    /// The next heartbeat.
    pub fn heartbeat(&self) -> (r: Result<NetdRequest, ClientError>)
        ensures
            (match r {
                Ok(request) => self.connected && request@ == (NetdRequest::<
                    Seq<Seq<char>>,
                >::Heartbeat { session_id: self.session_id, sequence: self.sequence }),
                Err(e) => !self.connected && e@ == ClientErrorView::Closed,
            }),
    {
        if !self.connected {
            return Err(ClientError::Closed);
        }
        Ok(NetdRequest::Heartbeat { session_id: self.session_id, sequence: self.sequence })
    }

    /// Takes the answer to a heartbeat in. Any answer counts the heartbeat; a
    /// heartbeat without one is sent again under its number.
    pub fn heartbeat_answered(&mut self, reply: NetdResponse) -> (r: Result<u64, ClientError>)
        ensures
            meaning_result(r) == meaning(Question::Heartbeat, reply@),
            *final(self) == (NetdClient { sequence: next_sequence(old(self).sequence), ..*old(self)
            }),
    {
        self.sequence = if self.sequence == u64::MAX {
            0
        } else {
            self.sequence + 1
        };
        read_reply(Question::Heartbeat, reply)
    }
}

/// A client and a daemon agree: a handshake gives the client the session under
/// which the daemon accepts its requests, and a heartbeat is acknowledged by its
/// number.
pub proof fn law_client_and_daemon_agree(
    s: crate::netd::daemon::StateView,
    client: NetdClient,
    session: u64,
    now: crate::time::Instant,
)
    requires
        client.session_id == session,
    ensures
        ({
            let request = NetdRequest::<Seq<Seq<char>>>::Heartbeat {
                session_id: client.session_id,
                sequence: client.sequence,
            };
            let step = crate::netd::daemon::processed(s, request, session, now).1;
            &&& step is Reply
            &&& meaning(Question::Heartbeat, step->Reply_0) == Ok::<_, ClientErrorView>(
                client.sequence,
            )
        }),
        meaning(
            Question::Handshake,
            NetdResponse::HandshakeOk {
                daemon_version: crate::netd::proto::PROTOCOL_VERSION,
                session_id: session,
            },
        ) == Ok::<_, ClientErrorView>(session),
{
}

} // verus!
