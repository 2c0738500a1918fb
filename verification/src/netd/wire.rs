//! Messages between controller and daemon in the form in which they are sent.
use crate::ir::binary;
use crate::ir::binary::{Binary, Read};
use crate::ir::decoding;
use crate::ir::encoding;
use crate::netd::proto::{NetdRequest, NetdResponse};
use crate::text;
use vstd::prelude::*;

verus! {

/// The model of a request.
pub type RequestView = NetdRequest<Seq<Seq<char>>>;

/// The model of an answer.
pub type ResponseView = NetdResponse<Seq<char>>;

/// What is sent to have routing enabled, in order.
type Routing = (
    u64,
    (u16, (u32, (u32, (Option<[u8; 4]>, (Vec<String>, (Vec<String>, Option<u32>)))))),
);

// ---------------------------------------------------------------------------
// Model
// ---------------------------------------------------------------------------

pub open spec fn octets(v: Option<[u8; 4]>) -> Option<Seq<u8>> {
    match v {
        Some(o) => Some(o@),
        None => None,
    }
}

/// A list of texts: how many there are, then each of them.
pub open spec fn list_bytes(list: Seq<Seq<char>>) -> Seq<u8> {
    encoding::le_bytes(list.len(), 8) + encoding::text_list_bytes(list)
}

/// A request: the number of its kind, then its fields.
pub open spec fn request_bytes(r: RequestView) -> Seq<u8> {
    match r {
        NetdRequest::Handshake { client_version } => encoding::variant(0) + encoding::le_bytes(
            client_version as nat,
            4,
        ),
        NetdRequest::EnableRouting {
            session_id,
            tproxy_port,
            proxy_fwmark,
            table_id,
            dns_ipv4,
            bypass_subnets,
            bypass_subnets_v6,
            core_uid,
        } => encoding::variant(1) + encoding::le_bytes(session_id as nat, 8) + encoding::le_bytes(
            tproxy_port as nat,
            2,
        ) + encoding::le_bytes(proxy_fwmark as nat, 4) + encoding::le_bytes(table_id as nat, 4)
            + encoding::optional(dns_ipv4, |o: [u8; 4]| o@) + list_bytes(bypass_subnets)
            + list_bytes(bypass_subnets_v6) + encoding::optional(
            core_uid,
            |v: u32| encoding::le_bytes(v as nat, 4),
        ),
        NetdRequest::DisableRouting { session_id } => encoding::variant(2) + encoding::le_bytes(
            session_id as nat,
            8,
        ),
        NetdRequest::Heartbeat { session_id, sequence } => encoding::variant(3)
            + encoding::le_bytes(session_id as nat, 8) + encoding::le_bytes(sequence as nat, 8),
    }
}

/// An answer: the number of its kind, then its fields.
pub open spec fn response_bytes(r: ResponseView) -> Seq<u8> {
    match r {
        NetdResponse::HandshakeOk { daemon_version, session_id } => encoding::variant(0)
            + encoding::le_bytes(daemon_version as nat, 4) + encoding::le_bytes(
            session_id as nat,
            8,
        ),
        NetdResponse::RoutingEnabled => encoding::variant(1),
        NetdResponse::RoutingDisabled => encoding::variant(2),
        NetdResponse::HeartbeatAck { sequence } => encoding::variant(3) + encoding::le_bytes(
            sequence as nat,
            8,
        ),
        NetdResponse::State { routing_active } => encoding::variant(4) + encoding::flag(
            routing_active,
        ),
        NetdResponse::Error(reason) => encoding::variant(5) + encoding::text_bytes(reason),
    }
}

// ---------------------------------------------------------------------------
// Reading
// ---------------------------------------------------------------------------

/// The fields of a request to enable routing, as they are sent.
spec fn routing_fields(r: RequestView) -> <Routing as Binary>::Model {
    (
        r->EnableRouting_session_id,
        (
            r->tproxy_port,
            (
                r->proxy_fwmark,
                (
                    r->table_id,
                    (
                        octets(r->dns_ipv4),
                        (r->bypass_subnets, (r->bypass_subnets_v6, r->core_uid)),
                    ),
                ),
            ),
        ),
    )
}

spec fn routing_request(x: <Routing as Binary>::Model) -> RequestView {
    let (
        session_id,
        (
            tproxy_port,
            (proxy_fwmark, (table_id, (dns, (bypass_subnets, (bypass_subnets_v6, core_uid))))),
        ),
    ) = x;
    NetdRequest::EnableRouting {
        session_id,
        tproxy_port,
        proxy_fwmark,
        table_id,
        dns_ipv4: match dns {
            Some(o) => Some([o[0], o[1], o[2], o[3]]),
            None => None,
        },
        bypass_subnets,
        bypass_subnets_v6,
        core_uid,
    }
}

proof fn lemma_four(o: [u8; 4])
    ensures
        o == [o@[0], o@[1], o@[2], o@[3]],
{
    let again = [o@[0], o@[1], o@[2], o@[3]];
    assert(again@ =~= o@);
    assert(again == o);
}

proof fn lemma_routing_exact(r: RequestView)
    requires
        r is EnableRouting,
    ensures
        routing_request(routing_fields(r)) == r,
        request_bytes(r) == encoding::variant(1) + <Routing as Binary>::bytes(routing_fields(r)),
{
    if let Some(o) = r->dns_ipv4 {
        lemma_four(o);
    }
    decoding::lemma_text_items(r->bypass_subnets);
    decoding::lemma_text_items(r->bypass_subnets_v6);
    assert(request_bytes(r) =~= encoding::variant(1) + <Routing as Binary>::bytes(
        routing_fields(r),
    ));
}

proof fn lemma_routing_met(x: <Routing as Binary>::Model)
    requires
        <Routing as Binary>::fits(x),
    ensures
        routing_fields(routing_request(x)) == x,
{
    if let Some(o) = x.1.1.1.1.0 {
        let again = [o[0], o[1], o[2], o[3]];
        assert(again@ =~= o);
    }
}

impl Binary for NetdRequest {
    type Model = RequestView;

    open spec fn model(self) -> RequestView {
        self@
    }

    open spec fn bytes(m: RequestView) -> Seq<u8> {
        request_bytes(m)
    }

    open spec fn fits(m: RequestView) -> bool {
        match m {
            NetdRequest::EnableRouting { bypass_subnets, bypass_subnets_v6, .. } => <Vec<
                String,
            > as Binary>::fits(bypass_subnets) && <Vec<String> as Binary>::fits(bypass_subnets_v6),
            _ => true,
        }
    }

    closed spec fn read(s: Seq<u8>) -> Read<RequestView> {
        match u32::read(s) {
            Some((0, rest)) => match u32::read(rest) {
                Some((client_version, rest)) => Some(
                    (NetdRequest::Handshake { client_version }, rest),
                ),
                None => None,
            },
            Some((1, rest)) => match <Routing as Binary>::read(rest) {
                Some((x, rest)) => Some((routing_request(x), rest)),
                None => None,
            },
            Some((2, rest)) => match u64::read(rest) {
                Some((session_id, rest)) => Some(
                    (NetdRequest::DisableRouting { session_id }, rest),
                ),
                None => None,
            },
            Some((3, rest)) => match <(u64, u64) as Binary>::read(rest) {
                Some(((session_id, sequence), rest)) => Some(
                    (NetdRequest::Heartbeat { session_id, sequence }, rest),
                ),
                None => None,
            },
            _ => None,
        }
    }

    proof fn reads_back(m: RequestView, rest: Seq<u8>) {
        match m {
            NetdRequest::Handshake { client_version } => {
                binary::lemma_tagged::<u32>(0, client_version, rest);
            },
            NetdRequest::EnableRouting { .. } => {
                lemma_routing_exact(m);
                binary::lemma_tagged::<Routing>(1, routing_fields(m), rest);
            },
            NetdRequest::DisableRouting { session_id } => {
                binary::lemma_tagged::<u64>(2, session_id, rest);
            },
            NetdRequest::Heartbeat { session_id, sequence } => {
                binary::lemma_tagged::<(u64, u64)>(3, (session_id, sequence), rest);
                assert(Self::bytes(m) =~= encoding::variant(3) + <(u64, u64) as Binary>::bytes(
                    (session_id, sequence),
                ));
            },
        }
    }

    proof fn was_written(s: Seq<u8>) {
        let (n, middle) = u32::read(s)->Some_0;
        let (m, rest) = Self::read(s)->Some_0;
        match m {
            NetdRequest::Handshake { client_version } => {
                binary::lemma_tagged_back::<u32>(s, 0, middle, client_version, rest);
            },
            NetdRequest::EnableRouting { .. } => {
                let x = <Routing as Binary>::read(middle)->Some_0.0;
                binary::lemma_tagged_back::<Routing>(s, 1, middle, x, rest);
                lemma_routing_met(x);
                lemma_routing_exact(m);
            },
            NetdRequest::DisableRouting { session_id } => {
                binary::lemma_tagged_back::<u64>(s, 2, middle, session_id, rest);
            },
            NetdRequest::Heartbeat { session_id, sequence } => {
                binary::lemma_tagged_back::<(u64, u64)>(
                    s,
                    3,
                    middle,
                    (session_id, sequence),
                    rest,
                );
                assert(Self::bytes(m) =~= encoding::variant(3) + <(u64, u64) as Binary>::bytes(
                    (session_id, sequence),
                ));
            },
        }
    }

    fn take<'a>(s: &'a [u8]) -> (r: Option<(NetdRequest, &'a [u8])>) {
        match u32::take(s) {
            Some((0, rest)) => match u32::take(rest) {
                Some((client_version, rest)) => Some(
                    (NetdRequest::Handshake { client_version }, rest),
                ),
                None => None,
            },
            Some((1, rest)) => match <Routing as Binary>::take(rest) {
                Some((x, rest)) => Some((routing_from(x), rest)),
                None => None,
            },
            Some((2, rest)) => match u64::take(rest) {
                Some((session_id, rest)) => Some(
                    (NetdRequest::DisableRouting { session_id }, rest),
                ),
                None => None,
            },
            Some((3, rest)) => match <(u64, u64) as Binary>::take(rest) {
                Some(((session_id, sequence), rest)) => Some(
                    (NetdRequest::Heartbeat { session_id, sequence }, rest),
                ),
                None => None,
            },
            _ => None,
        }
    }
}

/// The request with the fields that were sent.
fn routing_from(x: Routing) -> (r: NetdRequest)
    ensures
        r@ == routing_request(x.model()),
{
    let (
        session_id,
        (
            tproxy_port,
            (
                proxy_fwmark,
                (table_id, (dns_ipv4, (bypass_subnets, (bypass_subnets_v6, core_uid)))),
            ),
        ),
    ) = x;
    proof {
        if let Some(o) = dns_ipv4 {
            lemma_four(o);
        }
        assert(binary::models(bypass_subnets@) =~= text::texts_of(bypass_subnets@));
        assert(binary::models(bypass_subnets_v6@) =~= text::texts_of(bypass_subnets_v6@));
    }
    NetdRequest::EnableRouting {
        session_id,
        tproxy_port,
        proxy_fwmark,
        table_id,
        dns_ipv4,
        bypass_subnets,
        bypass_subnets_v6,
        core_uid,
    }
}

impl Binary for NetdResponse {
    type Model = ResponseView;

    open spec fn model(self) -> ResponseView {
        self@
    }

    open spec fn bytes(m: ResponseView) -> Seq<u8> {
        response_bytes(m)
    }

    open spec fn fits(m: ResponseView) -> bool {
        m matches NetdResponse::Error(reason) ==> String::fits(reason)
    }

    closed spec fn read(s: Seq<u8>) -> Read<ResponseView> {
        match u32::read(s) {
            Some((0, rest)) => match <(u32, u64) as Binary>::read(rest) {
                Some(((daemon_version, session_id), rest)) => Some(
                    (NetdResponse::HandshakeOk { daemon_version, session_id }, rest),
                ),
                None => None,
            },
            Some((1, rest)) => Some((NetdResponse::RoutingEnabled, rest)),
            Some((2, rest)) => Some((NetdResponse::RoutingDisabled, rest)),
            Some((3, rest)) => match u64::read(rest) {
                Some((sequence, rest)) => Some((NetdResponse::HeartbeatAck { sequence }, rest)),
                None => None,
            },
            Some((4, rest)) => match bool::read(rest) {
                Some((routing_active, rest)) => Some(
                    (NetdResponse::State { routing_active }, rest),
                ),
                None => None,
            },
            Some((5, rest)) => match String::read(rest) {
                Some((reason, rest)) => Some((NetdResponse::Error(reason), rest)),
                None => None,
            },
            _ => None,
        }
    }

    proof fn reads_back(m: ResponseView, rest: Seq<u8>) {
        match m {
            NetdResponse::HandshakeOk { daemon_version, session_id } => {
                binary::lemma_tagged::<(u32, u64)>(0, (daemon_version, session_id), rest);
                assert(Self::bytes(m) =~= encoding::variant(0) + <(u32, u64) as Binary>::bytes(
                    (daemon_version, session_id),
                ));
            },
            NetdResponse::RoutingEnabled => u32::reads_back(1, rest),
            NetdResponse::RoutingDisabled => u32::reads_back(2, rest),
            NetdResponse::HeartbeatAck { sequence } => {
                binary::lemma_tagged::<u64>(3, sequence, rest);
            },
            NetdResponse::State { routing_active } => {
                binary::lemma_tagged::<bool>(4, routing_active, rest);
            },
            NetdResponse::Error(reason) => {
                binary::lemma_tagged::<String>(5, reason, rest);
            },
        }
    }

    proof fn was_written(s: Seq<u8>) {
        let (n, middle) = u32::read(s)->Some_0;
        let (m, rest) = Self::read(s)->Some_0;
        match m {
            NetdResponse::HandshakeOk { daemon_version, session_id } => {
                binary::lemma_tagged_back::<(u32, u64)>(
                    s,
                    0,
                    middle,
                    (daemon_version, session_id),
                    rest,
                );
                assert(Self::bytes(m) =~= encoding::variant(0) + <(u32, u64) as Binary>::bytes(
                    (daemon_version, session_id),
                ));
            },
            NetdResponse::RoutingEnabled => u32::was_written(s),
            NetdResponse::RoutingDisabled => u32::was_written(s),
            NetdResponse::HeartbeatAck { sequence } => {
                binary::lemma_tagged_back::<u64>(s, 3, middle, sequence, rest);
            },
            NetdResponse::State { routing_active } => {
                binary::lemma_tagged_back::<bool>(s, 4, middle, routing_active, rest);
            },
            NetdResponse::Error(reason) => {
                binary::lemma_tagged_back::<String>(s, 5, middle, reason, rest);
            },
        }
    }

    fn take<'a>(s: &'a [u8]) -> (r: Option<(NetdResponse, &'a [u8])>) {
        match u32::take(s) {
            Some((0, rest)) => match <(u32, u64) as Binary>::take(rest) {
                Some(((daemon_version, session_id), rest)) => Some(
                    (NetdResponse::HandshakeOk { daemon_version, session_id }, rest),
                ),
                None => None,
            },
            Some((1, rest)) => Some((NetdResponse::RoutingEnabled, rest)),
            Some((2, rest)) => Some((NetdResponse::RoutingDisabled, rest)),
            Some((3, rest)) => match u64::take(rest) {
                Some((sequence, rest)) => Some((NetdResponse::HeartbeatAck { sequence }, rest)),
                None => None,
            },
            Some((4, rest)) => match bool::take(rest) {
                Some((routing_active, rest)) => Some(
                    (NetdResponse::State { routing_active }, rest),
                ),
                None => None,
            },
            Some((5, rest)) => match String::take(rest) {
                Some((reason, rest)) => Some((NetdResponse::Error(reason), rest)),
                None => None,
            },
            _ => None,
        }
    }
}

// ---------------------------------------------------------------------------
// Laws
// ---------------------------------------------------------------------------

/// The daemon reads the request that was sent, and the controller the answer: what is
/// sent is the form of one message, whatever follows it, and of no other.
pub proof fn law_messages_are_read_as_sent(
    request: RequestView,
    other_request: RequestView,
    response: ResponseView,
    other_response: ResponseView,
    rest: Seq<u8>,
)
    requires
        NetdRequest::fits(request),
        NetdResponse::fits(response),
    ensures
        binary::begins_with::<NetdRequest>(request_bytes(request) + rest, request),
        binary::begins_with::<NetdRequest>(request_bytes(request) + rest, other_request)
            ==> other_request == request,
        binary::begins_with::<NetdResponse>(response_bytes(response) + rest, response),
        binary::begins_with::<NetdResponse>(response_bytes(response) + rest, other_response)
            ==> other_response == response,
{
    let (q, a) = (request_bytes(request), response_bytes(response));
    assert((q + rest).subrange(0, q.len() as int) =~= q);
    assert((a + rest).subrange(0, a.len() as int) =~= a);
    if binary::begins_with::<NetdRequest>(q + rest, other_request) {
        binary::law_bytes_are_of_one_value::<NetdRequest>(request, other_request, q + rest);
    }
    if binary::begins_with::<NetdResponse>(a + rest, other_response) {
        binary::law_bytes_are_of_one_value::<NetdResponse>(response, other_response, a + rest);
    }
}

// ---------------------------------------------------------------------------
// Executable forms
// ---------------------------------------------------------------------------

/// Encodes a request.
pub fn encode_request(request: &NetdRequest) -> (r: Vec<u8>)
    ensures
        r@ == request_bytes(request@),
        NetdRequest::fits(request@),
{
    let mut out: Vec<u8> = Vec::new();
    match request {
        NetdRequest::Handshake { client_version } => {
            encoding::put_u32(&mut out, 0);
            encoding::put_u32(&mut out, *client_version);
        },
        NetdRequest::EnableRouting {
            session_id,
            tproxy_port,
            proxy_fwmark,
            table_id,
            dns_ipv4,
            bypass_subnets,
            bypass_subnets_v6,
            core_uid,
        } => {
            encoding::put_u32(&mut out, 1);
            encoding::put_u64(&mut out, *session_id);
            encoding::put_u16(&mut out, *tproxy_port);
            encoding::put_u32(&mut out, *proxy_fwmark);
            encoding::put_u32(&mut out, *table_id);
            put_octets(&mut out, *dns_ipv4);
            let ghost start = out@;
            encoding::put_text_list(&mut out, bypass_subnets);
            assert(out@ =~= start + list_bytes(text::texts_of(bypass_subnets@)));
            let ghost start = out@;
            encoding::put_text_list(&mut out, bypass_subnets_v6);
            assert(out@ =~= start + list_bytes(text::texts_of(bypass_subnets_v6@)));
            encoding::put_optional_u32(&mut out, *core_uid);
        },
        NetdRequest::DisableRouting { session_id } => {
            encoding::put_u32(&mut out, 2);
            encoding::put_u64(&mut out, *session_id);
        },
        NetdRequest::Heartbeat { session_id, sequence } => {
            encoding::put_u32(&mut out, 3);
            encoding::put_u64(&mut out, *session_id);
            encoding::put_u64(&mut out, *sequence);
        },
    }
    assert(out@ =~= request_bytes(request@));
    out
}

fn put_octets(out: &mut Vec<u8>, v: Option<[u8; 4]>)
    ensures
        final(out)@ == old(out)@ + encoding::optional(v, |o: [u8; 4]| o@),
{
    let ghost start = out@;
    match v {
        None => out.push(0),
        Some(o) => {
            out.push(1);
            encoding::put_raw(out, &o);
            assert(out@ =~= start + (seq![1u8] + o@));
        },
    }
}

/// Reads a request.
pub fn decode_request(bytes: &[u8]) -> (r: Option<NetdRequest>)
    ensures
        (match r {
            Some(request) => binary::begins_with::<NetdRequest>(bytes@, request@),
            None => forall|m: RequestView| !binary::begins_with::<NetdRequest>(bytes@, m),
        }),
{
    binary::decode::<NetdRequest>(bytes)
}

/// Encodes an answer.
pub fn encode_response(response: &NetdResponse) -> (r: Vec<u8>)
    ensures
        r@ == response_bytes(response@),
        NetdResponse::fits(response@),
{
    let mut out: Vec<u8> = Vec::new();
    match response {
        NetdResponse::HandshakeOk { daemon_version, session_id } => {
            encoding::put_u32(&mut out, 0);
            encoding::put_u32(&mut out, *daemon_version);
            encoding::put_u64(&mut out, *session_id);
        },
        NetdResponse::RoutingEnabled => encoding::put_u32(&mut out, 1),
        NetdResponse::RoutingDisabled => encoding::put_u32(&mut out, 2),
        NetdResponse::HeartbeatAck { sequence } => {
            encoding::put_u32(&mut out, 3);
            encoding::put_u64(&mut out, *sequence);
        },
        NetdResponse::State { routing_active } => {
            encoding::put_u32(&mut out, 4);
            encoding::put_flag(&mut out, *routing_active);
        },
        NetdResponse::Error(reason) => {
            encoding::put_u32(&mut out, 5);
            encoding::put_text(&mut out, reason);
        },
    }
    assert(out@ =~= response_bytes(response@));
    out
}

/// Reads an answer.
pub fn decode_response(bytes: &[u8]) -> (r: Option<NetdResponse>)
    ensures
        (match r {
            Some(response) => binary::begins_with::<NetdResponse>(bytes@, response@),
            None => forall|m: ResponseView| !binary::begins_with::<NetdResponse>(bytes@, m),
        }),
{
    binary::decode::<NetdResponse>(bytes)
}

} // verus!
