//! What the controller, the supervisor and the clock promise.
use crate::adapter::supervisor;
use crate::adapter::supervisor::{ConfigSwap, SwapState};
use crate::controller::netd_client;
use crate::controller::netd_client::{ClientError, ClientErrorView, Question};
use crate::controller::proxy_controller;
use crate::controller::proxy_controller::{ControllerView, ProxySettingsView};
use crate::ir::node::NodeView;
use crate::netd::proto::NetdResponse;
use crate::time;
use crate::time::{Duration, Instant};
use vstd::prelude::*;

verus! {

// ---------------------------------------------------------------------------
// The clock
// ---------------------------------------------------------------------------

/// A second is a thousand million nanoseconds, a millisecond a million, up to what can
/// be held.
pub proof fn law_spans_are_in_nanoseconds(n: nat)
    ensures
        n <= 18_446_744_073 ==> time::secs(n).nanos == n * 1_000_000_000,
        n > 18_446_744_073 ==> time::secs(n).nanos == u64::MAX,
        n <= 18_446_744_073_709 ==> time::millis(n).nanos == n * 1_000_000,
        n > 18_446_744_073_709 ==> time::millis(n).nanos == u64::MAX,
{
}

/// The span since a moment is what has to be added to it; since a moment that is still
/// to come none has passed.
pub proof fn law_spans_lie_between_moments(now: Instant, then: Instant, span: Duration)
    ensures
        now.nanos >= then.nanos ==> then.nanos + time::since(now, then).nanos == now.nanos,
        now.nanos <= then.nanos ==> time::since(now, then).nanos == 0,
        then.nanos + span.nanos <= u64::MAX ==> time::since(time::later(then, span), then) == span,
        time::later(then, span).nanos >= then.nanos,
        now.nanos >= then.nanos ==> time::later(then, time::since(now, then)) == now,
{
}

// ---------------------------------------------------------------------------
// Swapping configurations
// ---------------------------------------------------------------------------

/// A swap of which nothing fails writes the file, has it checked twice, tells the running
/// core or starts one, and ends with the core running it.
pub proof fn law_swaps_are_applied_step_by_step(has_previous: bool, running: bool)
    ensures
        ({
            let start = ConfigSwap { state: SwapState::Writing, has_previous, running };
            let written = supervisor::advanced(start, true);
            let checked = supervisor::advanced(written, true);
            let ready = supervisor::advanced(checked, true);
            let done = supervisor::advanced(ready, true);
            &&& written.state is Checking
            &&& checked.state is Rechecking
            &&& running ==> ready.state is Signalling
            &&& !running ==> ready.state is Spawning
            &&& done.state is Applied && done.running
        }),
{
}

/// A swap that fails before the file was written changes nothing; one that fails later
/// restores the file that there was, and a running core is made to load it again. Either
/// way it ends rejected, whatever else fails.
pub proof fn law_failed_swaps_end_rejected(swap: ConfigSwap, ok: bool)
    ensures
        swap.state is Writing ==> supervisor::advanced(swap, false).state is Rejected,
        (swap.state is Checking || swap.state is Rechecking || swap.state is Signalling
            || swap.state is Spawning) && !swap.has_previous ==> supervisor::advanced(
            swap,
            false,
        ).state is Rejected,
        (swap.state is Checking || swap.state is Rechecking || swap.state is Signalling
            || swap.state is Spawning) && swap.has_previous ==> supervisor::advanced(
            swap,
            false,
        ).state is Restoring,
        swap.state is Restoring && (!ok || !swap.running) ==> supervisor::advanced(
            swap,
            ok,
        ).state is Rejected,
        swap.state is Restoring && swap.running ==> supervisor::advanced(
            swap,
            true,
        ).state is RollbackChecking,
        swap.state is RollbackChecking ==> supervisor::advanced(
            swap,
            true,
        ).state is RollbackSignalling,
        swap.state is RollbackChecking ==> supervisor::advanced(swap, false).state is Rejected,
        swap.state is RollbackSignalling ==> supervisor::advanced(swap, ok).state is Rejected,
        swap.state is Applied || swap.state is Rejected ==> supervisor::advanced(swap, ok) == swap,
        !(swap.state is Spawning) ==> supervisor::advanced(swap, ok).running == swap.running,
        supervisor::advanced(swap, ok).has_previous == swap.has_previous,
{
}

// ---------------------------------------------------------------------------
// Talking to the daemon
// ---------------------------------------------------------------------------

/// An answer is taken exactly for the question that it answers: a handshake gives the
/// session, a heartbeat its number, the others nothing. A refusal is one of any question;
/// everything else is unexpected, and shown.
pub proof fn law_answers_fit_their_questions(question: Question, reply: NetdResponse<Seq<char>>)
    ensures
        ({
            let r = netd_client::meaning(question, reply);
            &&& r is Ok <==> {
                ||| question is Handshake && reply is HandshakeOk
                ||| question is EnableRouting && reply is RoutingEnabled
                ||| question is DisableRouting && reply is RoutingDisabled
                ||| question is Heartbeat && reply is HeartbeatAck
            }
            &&& question is Handshake && reply is HandshakeOk ==> r->Ok_0
                == reply->HandshakeOk_session_id
            &&& question is Heartbeat && reply is HeartbeatAck ==> r->Ok_0
                == reply->HeartbeatAck_sequence
            &&& r is Ok && !(question is Handshake) && !(question is Heartbeat) ==> r->Ok_0 == 0
            &&& reply is Error ==> r is Err && r->Err_0 == ClientErrorView::Refused {
                question,
                reason: reply->Error_0,
            }
            &&& r is Err && !(reply is Error) ==> r->Err_0 == ClientErrorView::Unexpected {
                question,
                reply,
            }
        }),
{
}

/// Heartbeats are numbered one after the other, around the end of the range.
pub proof fn law_heartbeats_are_numbered(n: u64)
    ensures
        netd_client::next_sequence(n) == (n + 1) % 0x1_0000_0000_0000_0000,
{
}

// ---------------------------------------------------------------------------
// The controller
// ---------------------------------------------------------------------------

/// A switch puts the node in use and ends a degraded spell; its moment is remembered as
/// the user's or as an automatic one, and the other moment stays.
pub proof fn law_switches_are_remembered(c: ControllerView, node: NodeView, now: Instant)
    ensures
        ({
            let auto = proxy_controller::switched(c, node, true, now);
            let manual = proxy_controller::switched(c, node, false, now);
            &&& auto.active_node == Some(node) && manual.active_node == Some(node)
            &&& !auto.degraded && !manual.degraded
            &&& auto.last_auto_switch == Some(now) && auto.last_manual_switch
                == c.last_manual_switch
            &&& manual.last_manual_switch == Some(now) && manual.last_auto_switch
                == c.last_auto_switch
            &&& auto.settings == c.settings && manual.settings == c.settings
        }),
{
}

/// A cycle starts from what the controller remembers: the label of the node in use, both
/// moments, and whether the tunnel was dropped. The latest of two moments is the one
/// after which there is none.
pub proof fn law_cycles_start_from_the_controller(
    c: ControllerView,
    a: Option<Instant>,
    b: Option<Instant>,
)
    ensures
        ({
            let s = proxy_controller::cycle_start_of(c);
            &&& c.active_node is Some ==> s.active == Some(c.active_node->0.meta.label)
            &&& c.active_node is None ==> s.active is None
            &&& s.degraded == c.degraded
            &&& s.last_manual_switch == c.last_manual_switch
            &&& s.last_auto_switch == c.last_auto_switch
        }),
        ({
            let m = proxy_controller::latest(a, b);
            &&& m is Some <==> a is Some || b is Some
            &&& m is Some ==> m == a || m == b
            &&& a is Some ==> a->0.nanos <= m->0.nanos
            &&& b is Some ==> b->0.nanos <= m->0.nanos
        }),
{
}

/// The daemon is asked for exactly what the settings say.
pub proof fn law_routing_follows_the_settings(s: ProxySettingsView)
    ensures
        ({
            let r = proxy_controller::routing_of(s);
            &&& r.tproxy_port == s.tproxy_port && r.fwmark == s.fwmark && r.table_id == s.table_id
            &&& r.dns_ipv4 == s.dns_ipv4 && r.core_uid == s.core_uid
            &&& r.bypass_subnets == s.bypass_subnets && r.bypass_subnets_v6 == s.bypass_subnets_v6
        }),
{
}

/// By default names are looked up at the gateway for what the tunnel does not carry,
/// where there is a gateway; private subnets are bypassed, and two operators must agree
/// within ten seconds each.
pub proof fn law_defaults_follow_the_gateway(gateway: Option<[u8; 4]>)
    ensures
        ({
            let s = proxy_controller::default_settings(gateway);
            &&& gateway is Some ==> s.local_dns is Some && s.local_dns->0.ipv4 == gateway->0
                && s.local_dns->0.port == 53
            &&& gateway is None ==> s.local_dns is None
            &&& s.tproxy_port == 12345 && s.fwmark == 1 && s.table_id == 100
            &&& s.dns_provider is Cloudflare && s.core_uid is None
            &&& s.bypass_subnets == seq!["10.0.0.0/8"@, "172.16.0.0/12"@, "192.168.0.0/16"@]
            &&& s.bypass_subnets_v6 == seq!["fc00::/7"@]
            &&& s.egress_real_count == 2 && s.egress_min_verified == 2
            &&& s.egress_timeout.nanos == 10_000_000_000
        }),
{
}

} // verus!
