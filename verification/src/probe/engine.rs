//! What a probe of a node shows.
use crate::ip::IpView;
use crate::ir::node::{CanonicalNode, NodeView};
use crate::ir::protocol::ProtocolSpec;
use crate::time;
use crate::time::Duration;
use vstd::prelude::*;

verus! {

/// How deep a probe goes. Only the reachability of the socket is probed; the
/// deeper ones fail.
#[derive(Clone, Copy, Debug, PartialEq, Eq, Structural)]
pub enum ProbeDepth {
    L4Ping,
    ProtocolHandshake,
    FullEgress204,
}

#[derive(Clone, Copy, Debug, PartialEq, Eq, Structural)]
pub enum ProbeFailure {
    Refused,
    TimedOut,
    Unresolvable,
    NoReply,
    Io,
}

/// What the probe of a node showed.
#[derive(Clone, Debug, PartialEq, Eq)]
pub struct ProbeOutcome<T = String, G = &'static str> {
    pub label: T,
    pub country_code: [u8; 2],
    pub protocol: G,
    /// Round trip in milliseconds; missing for UDP targets that did not answer.
    pub latency_ms: Option<u16>,
    pub alive: bool,
    pub failure: Option<ProbeFailure>,
}

/// The model of an outcome.
pub type OutcomeView = ProbeOutcome<Seq<char>, Seq<char>>;

impl View for ProbeOutcome {
    type V = ProbeOutcome<Seq<char>, Seq<char>>;

    open spec fn view(&self) -> ProbeOutcome<Seq<char>, Seq<char>> {
        ProbeOutcome {
            label: self.label@,
            country_code: self.country_code,
            protocol: self.protocol@,
            latency_ms: self.latency_ms,
            alive: self.alive,
            failure: self.failure,
        }
    }
}

/// Limits of a sweep of probes.
#[derive(Clone, Copy, Debug, PartialEq, Eq)]
pub struct ProbeConfig {
    pub concurrency_limit: usize,
    pub connect_timeout: Duration,
    pub udp_reply_window: Duration,
}

impl Default for ProbeConfig {
    fn default() -> (r: ProbeConfig)
        ensures
            r == (ProbeConfig {
                concurrency_limit: 512,
                connect_timeout: time::millis(800),
                udp_reply_window: time::millis(300),
            }),
    {
        ProbeConfig {
            concurrency_limit: 512,
            connect_timeout: Duration::from_millis(800),
            udp_reply_window: Duration::from_millis(300),
        }
    }
}

impl ProbeConfig {
    /// How many probes run at a time: at least one.
    pub fn permits(&self) -> (r: usize)
        ensures
            r == (if self.concurrency_limit == 0 {
                1
            } else {
                self.concurrency_limit
            }),
    {
        if self.concurrency_limit == 0 {
            1
        } else {
            self.concurrency_limit
        }
    }
}

/// What one address gave: a round trip, a failure, or neither.
pub type Reach = (Option<u16>, Option<ProbeFailure>);

// ---------------------------------------------------------------------------
// Model
// ---------------------------------------------------------------------------

/// The name of a node's protocol.
pub open spec fn name_of(p: ProtocolSpec<Seq<char>, Seq<IpView>>) -> Seq<char> {
    match p {
        ProtocolSpec::Vless(_) => "vless"@,
        ProtocolSpec::Vmess(_) => "vmess"@,
        ProtocolSpec::Trojan(_) => "trojan"@,
        ProtocolSpec::Shadowsocks(_) => "ss"@,
        ProtocolSpec::Hysteria2(_) => "hysteria2"@,
        ProtocolSpec::Tuic(_) => "tuic"@,
        ProtocolSpec::WireGuard(_) => "wireguard"@,
    }
}

/// The protocol runs over UDP.
pub open spec fn is_udp(p: ProtocolSpec<Seq<char>, Seq<IpView>>) -> bool {
    p is Hysteria2 || p is Tuic || p is WireGuard
}

/// The outcome for a node: it is alive if a round trip was measured, or if it
/// runs over UDP and nothing failed.
pub open spec fn outcome(
    n: NodeView,
    latency: Option<u16>,
    failure: Option<ProbeFailure>,
) -> OutcomeView {
    ProbeOutcome {
        label: n.meta.label,
        country_code: n.meta.country_code,
        protocol: name_of(n.protocol),
        latency_ms: latency,
        alive: latency is Some || (is_udp(n.protocol) && failure is None),
        failure,
    }
}

/// The milliseconds of a span; half of the largest number stands for what cannot
/// be held.
pub open spec fn elapsed_ms(span: Duration) -> u16 {
    if span.nanos / 1_000_000 <= u16::MAX {
        (span.nanos / 1_000_000) as u16
    } else {
        32767
    }
}

/// The address answers the question.
pub open spec fn is_answer(r: Reach) -> bool {
    r.0 is Some || r.1 is None
}

/// What a node with several addresses gives: the first address that answers. If
/// none does, the first failure; without addresses the name cannot be resolved.
pub open spec fn reach_of(results: Seq<Reach>) -> Reach
    decreases results.len(),
{
    if results.len() == 0 {
        (None, Some(ProbeFailure::Unresolvable))
    } else if is_answer(results[0]) || results.len() == 1 {
        results[0]
    } else {
        let rest = reach_of(results.drop_first());
        if is_answer(rest) {
            rest
        } else {
            results[0]
        }
    }
}

// ---------------------------------------------------------------------------
// Executable forms
// ---------------------------------------------------------------------------

/// The name of a node's protocol.
pub fn protocol_name(protocol: &ProtocolSpec) -> (r: &'static str)
    ensures
        r@ == name_of(protocol@),
{
    match protocol {
        ProtocolSpec::Vless(_) => "vless",
        ProtocolSpec::Vmess(_) => "vmess",
        ProtocolSpec::Trojan(_) => "trojan",
        ProtocolSpec::Shadowsocks(_) => "ss",
        ProtocolSpec::Hysteria2(_) => "hysteria2",
        ProtocolSpec::Tuic(_) => "tuic",
        ProtocolSpec::WireGuard(_) => "wireguard",
    }
}

/// Whether a protocol runs over UDP.
pub fn uses_udp(protocol: &ProtocolSpec) -> (r: bool)
    ensures
        r == is_udp(protocol@),
{
    match protocol {
        ProtocolSpec::Hysteria2(_) => true,
        ProtocolSpec::Tuic(_) => true,
        ProtocolSpec::WireGuard(_) => true,
        _ => false,
    }
}

/// The outcome for a node.
pub fn build_outcome(
    node: &CanonicalNode,
    latency: Option<u16>,
    failure: Option<ProbeFailure>,
) -> (r: ProbeOutcome)
    ensures
        r@ == outcome(node@, latency, failure),
{
    let alive = latency.is_some() || (uses_udp(&node.protocol) && failure.is_none());
    ProbeOutcome {
        label: node.meta.label.clone(),
        country_code: node.meta.country_code,
        protocol: protocol_name(&node.protocol),
        latency_ms: latency,
        alive,
        failure,
    }
}

/// What a probe of a depth shows without any address: only the shallow one is
/// carried out.
pub fn depth_failure(depth: ProbeDepth) -> (r: Option<ProbeFailure>)
    ensures
        r == (if depth == ProbeDepth::L4Ping {
            None::<ProbeFailure>
        } else {
            Some(ProbeFailure::Io)
        }),
{
    match depth {
        ProbeDepth::L4Ping => None,
        _ => Some(ProbeFailure::Io),
    }
}

/// The milliseconds of a span.
pub fn ms_elapsed(span: Duration) -> (r: u16)
    ensures
        r == elapsed_ms(span),
{
    let ms = span.as_millis();
    if ms <= u16::MAX as u64 {
        ms as u16
    } else {
        32767
    }
}

/// How an attempt to connect ended.
#[derive(Clone, Copy, Debug)]
pub enum TcpAttempt {
    Connected { after: Duration },
    Refused,
    Failed,
    TimedOut,
}

/// What an attempt to connect shows.
pub fn tcp_reach(attempt: TcpAttempt) -> (r: Reach)
    ensures
        r == (match attempt {
            TcpAttempt::Connected { after } => (Some(elapsed_ms(after)), None::<ProbeFailure>),
            TcpAttempt::Refused => (None, Some(ProbeFailure::Refused)),
            TcpAttempt::Failed => (None, Some(ProbeFailure::Io)),
            TcpAttempt::TimedOut => (None, Some(ProbeFailure::TimedOut)),
        }),
{
    match attempt {
        TcpAttempt::Connected { after } => (Some(ms_elapsed(after)), None),
        TcpAttempt::Refused => (None, Some(ProbeFailure::Refused)),
        TcpAttempt::Failed => (None, Some(ProbeFailure::Io)),
        TcpAttempt::TimedOut => (None, Some(ProbeFailure::TimedOut)),
    }
}

/// How an exchange of datagrams ended.
#[derive(Clone, Copy, Debug)]
pub enum UdpAttempt {
    /// There was no socket to send from.
    NoSocket,
    Replied { after: Duration },
    /// The host or the port was reported as unreachable.
    Unreachable,
    /// Some other error was reported.
    Failed,
    /// The window for a reply closed.
    Silent,
}

/// What an exchange of datagrams shows. Silence is no failure.
pub fn udp_reach(attempt: UdpAttempt) -> (r: Reach)
    ensures
        r == (match attempt {
            UdpAttempt::NoSocket => (None::<u16>, Some(ProbeFailure::Io)),
            UdpAttempt::Replied { after } => (Some(elapsed_ms(after)), None),
            UdpAttempt::Unreachable => (None, Some(ProbeFailure::Refused)),
            UdpAttempt::Failed => (None, None),
            UdpAttempt::Silent => (None, None),
        }),
{
    match attempt {
        UdpAttempt::NoSocket => (None, Some(ProbeFailure::Io)),
        UdpAttempt::Replied { after } => (Some(ms_elapsed(after)), None),
        UdpAttempt::Unreachable => (None, Some(ProbeFailure::Refused)),
        UdpAttempt::Failed => (None, None),
        UdpAttempt::Silent => (None, None),
    }
}

/// What is known while the addresses of a node are tried one after the other.
#[derive(Clone, Copy, Debug)]
pub struct Ping {
    pub reach: Reach,
    pub tried: bool,
}

impl Ping {
    /// The progress after some addresses, of which none but the last answered.
    pub open spec fn is_after(self, results: Seq<Reach>) -> bool {
        &&& self.reach == reach_of(results)
        &&& self.tried == (results.len() > 0)
    }

    /// No address was tried yet.
    pub fn new() -> (r: Ping)
        ensures
            r.is_after(Seq::empty()),
    {
        Ping { reach: (None, Some(ProbeFailure::Unresolvable)), tried: false }
    }

    /// Whether an address answered, so that no other needs to be tried.
    pub fn is_settled(&self) -> (r: bool)
        ensures
            r == is_answer(self.reach),
    {
        self.reach.0.is_some() || self.reach.1.is_none()
    }

    /// Takes in what the next address gave. Once an address answered, what others
    /// give does not matter.
    pub fn note(&mut self, result: Reach)
        ensures
            forall|results: Seq<Reach>|
                old(self).is_after(results) ==> #[trigger] final(self).is_after(
                    results.push(result),
                ),
    {
        let ghost before = *self;
        let settled = self.is_settled();
        let answers = result.0.is_some() || result.1.is_none();
        if !self.tried || (!settled && answers) {
            self.reach = result;
        }
        self.tried = true;
        proof {
            assert forall|results: Seq<Reach>| before.is_after(results) implies #[trigger] self.is_after(
                results.push(result),
            ) by {
                lemma_next_result(results, result);
            }
        }
    }
}

proof fn lemma_next_result(results: Seq<Reach>, next: Reach)
    ensures
        reach_of(results.push(next)) == (if results.len() == 0 || (!is_answer(reach_of(results))
            && is_answer(next)) {
            next
        } else {
            reach_of(results)
        }),
    decreases results.len(),
{
    let all = results.push(next);
    if results.len() > 0 {
        assert(all.drop_first() =~= results.drop_first().push(next));
        lemma_next_result(results.drop_first(), next);
        assert(all[0] == results[0]);
    }
}

/// An address that answers settles the matter: what a node gives is what its
/// first answering address gives, whatever the addresses before and after.
pub proof fn law_first_answer_wins(before: Seq<Reach>, answer: Reach, after: Seq<Reach>)
    requires
        forall|i: int| 0 <= i < before.len() ==> !is_answer(#[trigger] before[i]),
        is_answer(answer),
    ensures
        reach_of(before.push(answer) + after) == answer,
    decreases before.len(),
{
    let all = before.push(answer) + after;
    if before.len() == 0 {
        assert(all[0] == answer);
    } else {
        assert(all[0] == before[0]);
        assert(all.drop_first() =~= before.drop_first().push(answer) + after);
        law_first_answer_wins(before.drop_first(), answer, after);
    }
}

} // verus!
