//! What probing nodes promises.
use crate::ip::{IpAddr, IpView};
use crate::ir::node::NodeView;
use crate::ir::protocol::ProtocolSpec;
use crate::laws;
use crate::probe::cli;
use crate::probe::cli::{ArgError, NumberFlag, ProbeArgs};
use crate::probe::engine;
use crate::probe::engine::{OutcomeView, ProbeFailure, ProbeOutcome, Reach};
use crate::probe::sock_diag;
use crate::probe::sock_diag::{ByteOrder, DatagramEnd, InetDiagReqV2};
use crate::probe::socket_health;
use crate::probe::socket_health::{HealthThresholds, TcpInfo, TcpStats};
use crate::storage::query_engine;
use crate::text;
use crate::time::Duration;
use vstd::prelude::*;

verus! {

// ---------------------------------------------------------------------------
// Arguments
// ---------------------------------------------------------------------------

proof fn lemma_flags()
    ensures
        "--concurrency"@ != "--timeout-ms"@,
        cli::is_flag("--concurrency"@),
        cli::is_flag("--timeout-ms"@),
{
    reveal_strlit("--concurrency");
    reveal_strlit("--timeout-ms");
    assert("--concurrency"@.len() != "--timeout-ms"@.len());
}

/// The flags stand before or behind the file, in either order, each with a number behind
/// it; what is not asked for stays as it was.
#[verifier::rlimit(40)]
pub proof fn law_flags_may_stand_anywhere(
    path: Seq<char>,
    a: Seq<char>,
    b: Seq<char>,
    m: nat,
    n: nat,
    concurrency: usize,
    timeout_ms: u64,
)
    requires
        path.len() < 2 || path[0] != '-' || path[1] != '-',
        text::unsigned_number(a, 10, usize::MAX as nat) == Some(m),
        text::unsigned_number(b, 10, u64::MAX as nat) == Some(n),
    ensures
        ({
            let c = "--concurrency"@;
            let t = "--timeout-ms"@;
            let both = Ok::<ProbeArgs<Seq<char>>, ArgError<Seq<char>>>(
                ProbeArgs { path, concurrency: m as usize, timeout_ms: n as u64 },
            );
            &&& cli::parsed(seq![path], 0, None, concurrency, timeout_ms) == Ok::<
                _,
                ArgError<Seq<char>>,
            >(ProbeArgs { path, concurrency, timeout_ms })
            &&& cli::parsed(seq![path, c, a], 0, None, concurrency, timeout_ms) == Ok::<
                _,
                ArgError<Seq<char>>,
            >(ProbeArgs { path, concurrency: m as usize, timeout_ms })
            &&& cli::parsed(seq![path, t, b], 0, None, concurrency, timeout_ms) == Ok::<
                _,
                ArgError<Seq<char>>,
            >(ProbeArgs { path, concurrency, timeout_ms: n as u64 })
            &&& cli::parsed(seq![path, c, a, t, b], 0, None, concurrency, timeout_ms) == both
            &&& cli::parsed(seq![path, t, b, c, a], 0, None, concurrency, timeout_ms) == both
            &&& cli::parsed(seq![c, a, path, t, b], 0, None, concurrency, timeout_ms) == both
            &&& cli::parsed(seq![t, b, c, a, path], 0, None, concurrency, timeout_ms) == both
        }),
{
    lemma_flags();
    assert(!cli::is_flag(path));
    reveal_with_fuel(cli::parsed, 5);
}

/// A flag without a value, a value that is no number, a flag that is not known, a second
/// file and no file at all are refused, each for its own reason.
pub proof fn law_bad_arguments_are_refused(
    args: Seq<Seq<char>>,
    path: Option<Seq<char>>,
    concurrency: usize,
    timeout_ms: u64,
)
    ensures
        args.len() == 0 && path is None ==> cli::parsed(args, 0, path, concurrency, timeout_ms)
            == Err::<ProbeArgs<Seq<char>>, _>(ArgError::<Seq<char>>::NoFile),
        args.len() == 1 && args[0] == "--concurrency"@ ==> cli::parsed(
            args,
            0,
            path,
            concurrency,
            timeout_ms,
        ) == Err::<ProbeArgs<Seq<char>>, _>(
            ArgError::<Seq<char>>::NeedsValue(NumberFlag::Concurrency),
        ),
        args.len() == 1 && args[0] == "--timeout-ms"@ ==> cli::parsed(
            args,
            0,
            path,
            concurrency,
            timeout_ms,
        ) == Err::<ProbeArgs<Seq<char>>, _>(
            ArgError::<Seq<char>>::NeedsValue(NumberFlag::TimeoutMs),
        ),
        args.len() >= 2 && args[0] == "--concurrency"@ && text::unsigned_number(
            args[1],
            10,
            usize::MAX as nat,
        ) is None ==> cli::parsed(args, 0, path, concurrency, timeout_ms) == Err::<
            ProbeArgs<Seq<char>>,
            _,
        >(ArgError::<Seq<char>>::NotANumber(NumberFlag::Concurrency)),
        args.len() >= 2 && args[0] == "--timeout-ms"@ && text::unsigned_number(
            args[1],
            10,
            u64::MAX as nat,
        ) is None ==> cli::parsed(args, 0, path, concurrency, timeout_ms) == Err::<
            ProbeArgs<Seq<char>>,
            _,
        >(ArgError::<Seq<char>>::NotANumber(NumberFlag::TimeoutMs)),
        args.len() >= 1 && args[0].len() >= 2 && args[0][0] == '-' && args[0][1] == '-' && args[0]
            != "--concurrency"@ && args[0] != "--timeout-ms"@ ==> cli::parsed(
            args,
            0,
            path,
            concurrency,
            timeout_ms,
        ) == Err::<ProbeArgs<Seq<char>>, _>(ArgError::<Seq<char>>::UnknownFlag(args[0])),
        args.len() >= 1 && (args[0].len() < 2 || args[0][0] != '-' || args[0][1] != '-')
            && path is Some ==> cli::parsed(args, 0, path, concurrency, timeout_ms) == Err::<
            ProbeArgs<Seq<char>>,
            _,
        >(ArgError::<Seq<char>>::SeveralFiles),
{
    lemma_flags();
}

// ---------------------------------------------------------------------------
// Outcomes
// ---------------------------------------------------------------------------

/// A node is alive exactly if a round trip was measured, or if its protocol runs over UDP
/// and nothing failed. The outcome tells the node's label, country and protocol.
pub proof fn law_outcomes_tell_who_is_alive(
    n: NodeView,
    latency: Option<u16>,
    failure: Option<ProbeFailure>,
)
    ensures
        ({
            let o = engine::outcome(n, latency, failure);
            let udp = n.protocol is Hysteria2 || n.protocol is Tuic || n.protocol is WireGuard;
            &&& o.alive <==> latency is Some || (udp && failure is None)
            &&& o.label == n.meta.label && o.country_code == n.meta.country_code
            &&& o.latency_ms == latency && o.failure == failure
            &&& n.protocol is Vless ==> o.protocol == "vless"@
            &&& n.protocol is Vmess ==> o.protocol == "vmess"@
            &&& n.protocol is Trojan ==> o.protocol == "trojan"@
            &&& n.protocol is Shadowsocks ==> o.protocol == "ss"@
            &&& n.protocol is Hysteria2 ==> o.protocol == "hysteria2"@
            &&& n.protocol is Tuic ==> o.protocol == "tuic"@
            &&& n.protocol is WireGuard ==> o.protocol == "wireguard"@
        }),
{
}

/// A round trip is measured in whole milliseconds; what sixteen bits cannot hold is half
/// of what they can.
pub proof fn law_round_trips_are_in_milliseconds(span: Duration)
    ensures
        span.nanos < 65_536_000_000 ==> engine::elapsed_ms(span) * 1_000_000 <= span.nanos < (
        engine::elapsed_ms(span) + 1) * 1_000_000,
        span.nanos >= 65_536_000_000 ==> engine::elapsed_ms(span) == 32_767,
{
}

/// Where no address answers, the first failure is told; where there is no address, the
/// name could not be resolved.
pub proof fn law_the_first_failure_is_told(results: Seq<Reach>)
    requires
        forall|i: int|
            0 <= i < results.len() ==> (#[trigger] results[i]).0 is None && results[i].1 is Some,
    ensures
        results.len() > 0 ==> engine::reach_of(results) == results[0],
        results.len() == 0 ==> engine::reach_of(results).0 is None && engine::reach_of(results).1
            == Some(ProbeFailure::Unresolvable),
    decreases results.len(),
{
    if results.len() > 1 {
        let rest = results.drop_first();
        assert forall|i: int| 0 <= i < rest.len() implies (#[trigger] rest[i]).0 is None
            && rest[i].1 is Some by {
            assert(rest[i] == results[i + 1]);
        }
        law_the_first_failure_is_told(rest);
        assert(rest[0] == results[1]);
    }
}

/// The live outcomes are counted.
pub proof fn law_live_outcomes_are_counted(outcomes: Seq<ProbeOutcome>, n: nat)
    requires
        n <= outcomes.len(),
    ensures
        cli::live_count(outcomes, n) == outcomes.take(n as int).filter(
            |o: ProbeOutcome| o.alive,
        ).len(),
    decreases n,
{
    reveal(Seq::filter);
    let s = outcomes.take(n as int);
    if n > 0 {
        law_live_outcomes_are_counted(outcomes, (n - 1) as nat);
        assert(s.drop_last() =~= outcomes.take(n - 1));
        assert(s.last() == outcomes[n - 1]);
    }
}

/// Outcomes are shown in the order of their labels, byte by byte, and those with one
/// label in the order in which they came.
pub proof fn law_outcomes_are_shown_by_label(
    outcomes: Seq<ProbeOutcome>,
    p: Seq<usize>,
    i: int,
    j: int,
)
    requires
        cli::is_label_order(outcomes, p),
        0 <= i < j < p.len(),
    ensures
        ({
            let a = vstd::utf8::encode_utf8(outcomes[p[i] as int].label@);
            let b = vstd::utf8::encode_utf8(outcomes[p[j] as int].label@);
            &&& exists|k: int| laws::query::comes_first(a, b, k)
            &&& a == b ==> p[i] < p[j]
        }),
{
    let a = vstd::utf8::encode_utf8(outcomes[p[i] as int].label@);
    let b = vstd::utf8::encode_utf8(outcomes[p[j] as int].label@);
    assert(cli::label_less(outcomes, p[i] as int, p[j] as int) || (!cli::label_less(
        outcomes,
        p[j] as int,
        p[i] as int,
    ) && p[i] < p[j]));
    if query_engine::bytes_less(b, a) {
        query_engine::lemma_bytes_transitive(a, b, a);
        query_engine::lemma_bytes_irreflexive(a);
    }
    laws::query::lemma_not_less(a, b);
    query_engine::lemma_bytes_irreflexive(a);
}

// ---------------------------------------------------------------------------
// Health
// ---------------------------------------------------------------------------

/// The kernel's microseconds become whole milliseconds; the other counters stay.
pub proof fn law_counters_are_taken_over(info: TcpInfo)
    ensures
        ({
            let s = socket_health::stats_of(info);
            &&& s.rtt_ms * 1000 <= info.rtt < s.rtt_ms * 1000 + 1000
            &&& s.rtt_var_ms * 1000 <= info.rttvar < s.rtt_var_ms * 1000 + 1000
            &&& s.retransmits == info.retransmits && s.total_retrans == info.total_retrans
            &&& s.unacked == info.unacked
        }),
{
}

/// A connection loses a point for each tenth of a second that its round trip is over the
/// threshold, up to thirty; five for each retransmission over the threshold, up to
/// thirty; thirty at a spike of them; and twenty where too much is unacknowledged.
pub proof fn law_health_is_lost_by_the_point(s: TcpStats, t: HealthThresholds, tenths: int, over: int)
    requires
        tenths >= 0,
        over >= 0,
        s.rtt_ms < t.rtt_degrade_ms && tenths == 0 || t.rtt_degrade_ms + 100 * tenths <= s.rtt_ms
            < t.rtt_degrade_ms + 100 * tenths + 100,
        s.total_retrans < t.retransmit_total && over == 0 || s.total_retrans == t.retransmit_total
            + over,
    ensures
        ({
            let slow = if tenths < 30 {
                tenths
            } else {
                30
            };
            let lossy = if over < 6 {
                5 * over
            } else {
                30
            };
            let spike: int = if s.retransmits >= t.retransmit_spike {
                30
            } else {
                0
            };
            let backlog: int = if s.unacked >= t.unacked_backlog {
                20
            } else {
                0
            };
            let lost = slow + lossy + spike + backlog;
            &&& lost <= 100 ==> socket_health::grade(s, t) == 100 - lost
            &&& lost > 100 ==> socket_health::grade(s, t) == 0
        }),
{
}

// ---------------------------------------------------------------------------
// The kernel's messages
// ---------------------------------------------------------------------------

/// What is written as a number is read as that number, in either order; the one order is
/// the other backwards, and the little one has the lowest byte first.
pub proof fn law_numbers_are_read_back(order: ByteOrder, n: u32, m: u16)
    ensures
        ({
            let b = sock_diag::bytes32(order, n);
            &&& b.len() == 4 && sock_diag::number32(order, b[0], b[1], b[2], b[3]) == n
            &&& sock_diag::bytes32(ByteOrder::Big, n) == sock_diag::bytes32(
                ByteOrder::Little,
                n,
            ).reverse()
            &&& sock_diag::bytes32(ByteOrder::Little, n)[0] == n % 256
        }),
        ({
            let b = sock_diag::bytes16(order, m);
            &&& b.len() == 2 && sock_diag::number16(order, b[0], b[1]) == m
            &&& sock_diag::bytes16(ByteOrder::Big, m) == sock_diag::bytes16(
                ByteOrder::Little,
                m,
            ).reverse()
            &&& sock_diag::bytes16(ByteOrder::Little, m)[0] == m % 256
        }),
{
    assert(n / 0x10000 == n / 0x100 / 0x100);
    assert(n / 0x1000000 == n / 0x100 / 0x100 / 0x100);
    assert(n as int == n % 0x100 + 0x100 * (n / 0x100 % 0x100) + 0x10000 * (n / 0x10000 % 0x100)
        + 0x1000000 * (n / 0x1000000));
    assert(sock_diag::bytes32(ByteOrder::Big, n) =~= sock_diag::bytes32(
        ByteOrder::Little,
        n,
    ).reverse());
    assert(sock_diag::bytes16(ByteOrder::Big, m) =~= sock_diag::bytes16(
        ByteOrder::Little,
        m,
    ).reverse());
}

/// A request is 72 bytes: its length, its kind, that it asks for all that match, its
/// number, and then the family, the protocol, what is wanted, the states, the ports and
/// the two addresses.
#[verifier::rlimit(40)]
pub proof fn law_requests_have_their_places(order: ByteOrder, sequence: u32, r: InetDiagReqV2)
    ensures
        ({
            let b = sock_diag::message_bytes(order, sequence, r);
            &&& b.len() == 72
            &&& b.subrange(0, 4) == sock_diag::bytes32(order, 72)
            &&& b.subrange(4, 6) == sock_diag::bytes16(order, 20)
            &&& b.subrange(6, 8) == sock_diag::bytes16(order, 0x301)
            &&& b.subrange(8, 12) == sock_diag::bytes32(order, sequence)
            &&& b[16] == r.sdiag_family && b[17] == r.sdiag_protocol && b[18] == r.idiag_ext
            &&& b.subrange(20, 24) == sock_diag::bytes32(order, r.idiag_states)
            &&& b.subrange(24, 26) == sock_diag::bytes16(order, r.id.port[0])
            &&& b.subrange(26, 28) == sock_diag::bytes16(order, r.id.port[1])
            &&& b.subrange(28, 32) == sock_diag::bytes32(order, r.id.src[0])
            &&& b.subrange(40, 44) == sock_diag::bytes32(order, r.id.src[3])
            &&& b.subrange(44, 48) == sock_diag::bytes32(order, r.id.dst[0])
            &&& b.subrange(48, 52) == sock_diag::bytes32(order, r.id.dst[1])
            &&& b.subrange(52, 56) == sock_diag::bytes32(order, r.id.dst[2])
            &&& b.subrange(56, 60) == sock_diag::bytes32(order, r.id.dst[3])
        }),
{
}

/// The words of a version 6 address are its bytes, on every machine.
pub proof fn law_requests_carry_addresses_in_order(order: ByteOrder, s: [u16; 8], i: int)
    requires
        0 <= i < 4,
    ensures
        sock_diag::bytes32(order, sock_diag::address_words(order, IpAddr::V6(s))[i]) == seq![
            (s[2 * i] / 256) as u8,
            (s[2 * i] % 256) as u8,
            (s[2 * i + 1] / 256) as u8,
            (s[2 * i + 1] % 256) as u8,
        ],
{
    let (a, b, c, d) = (
        (s[2 * i] / 256) as u8,
        (s[2 * i] % 256) as u8,
        (s[2 * i + 1] / 256) as u8,
        (s[2 * i + 1] % 256) as u8,
    );
    sock_diag::lemma_bytes_round_trip(order, a, b, c, d);
}

/// The counters of a connection stand at their places in the attribute; what an older
/// kernel does not tell is zero.
pub proof fn law_counters_have_their_places(order: ByteOrder, data: Seq<u8>)
    ensures
        ({
            let i = sock_diag::info_of(order, data);
            &&& data.len() >= 72 ==> i.rtt == sock_diag::number32(
                order,
                data[68],
                data[69],
                data[70],
                data[71],
            )
            &&& data.len() >= 76 ==> i.rttvar == sock_diag::number32(
                order,
                data[72],
                data[73],
                data[74],
                data[75],
            )
            &&& data.len() >= 3 ==> i.retransmits == data[2]
            &&& data.len() >= 104 ==> i.total_retrans == sock_diag::number32(
                order,
                data[100],
                data[101],
                data[102],
                data[103],
            )
            &&& data.len() >= 28 ==> i.unacked == sock_diag::number32(
                order,
                data[24],
                data[25],
                data[26],
                data[27],
            )
            &&& data.len() <= 68 ==> i.rtt == 0
            &&& data.len() <= 72 ==> i.rttvar == 0
            &&& data.len() <= 100 ==> i.total_retrans == 0
            &&& data.len() <= 24 ==> i.unacked == 0
        }),
{
}

/// The kernel reports errors negated.
pub proof fn law_errors_are_negated(n: int)
    requires
        0 < n <= 0x8000_0000,
    ensures
        sock_diag::error_number((0x1_0000_0000 - n) as u32) == n,
{
}

/// A message that tells of a connection is used only where the connection is
/// established; the counters are those in its attribute of kind two, behind the fixed 72
/// bytes, and other attributes before it are passed over, up to the next multiple of
/// four.
pub proof fn law_only_established_connections_count(order: ByteOrder, payload: Seq<u8>)
    requires
        payload.len() >= 76,
    ensures
        ({
            let len = sock_diag::number16(order, payload[72], payload[73]) as int;
            let kind = sock_diag::number16(order, payload[74], payload[75]);
            let next = 72 + (len + 3) / 4 * 4;
            &&& payload[1] != 1 ==> sock_diag::message_stats(order, payload) is None
            &&& payload[1] == 1 && kind == 2 && 4 <= len <= payload.len() - 72
                ==> sock_diag::message_stats(order, payload) == Some(
                socket_health::stats_of(
                    sock_diag::info_of(order, payload.subrange(76, 72 + len)),
                ),
            )
            &&& payload[1] == 1 && kind != 2 && 4 <= len <= payload.len() - 72
                ==> sock_diag::message_stats(order, payload) == sock_diag::counters_from(
                order,
                payload,
                next,
            )
            &&& payload[1] == 1 && len > payload.len() - 72 ==> sock_diag::message_stats(
                order,
                payload,
            ) is None
        }),
{
}

/// A datagram is read message by message: an end ends it, an error with a number fails
/// it, a connection adds its counters, and anything else is passed over.
pub proof fn law_datagrams_are_read_message_by_message(
    order: ByteOrder,
    s: Seq<u8>,
    at: int,
    stats: Seq<TcpStats>,
)
    requires
        0 <= at,
        at + 16 <= s.len(),
        16 <= sock_diag::number32(order, s[at], s[at + 1], s[at + 2], s[at + 3]) <= s.len() - at,
    ensures
        ({
            let len = sock_diag::number32(order, s[at], s[at + 1], s[at + 2], s[at + 3]) as int;
            let kind = sock_diag::number16(order, s[at + 4], s[at + 5]);
            let payload = s.subrange(at + 16, at + len);
            let code = sock_diag::number32(
                order,
                s[at + 16],
                s[at + 17],
                s[at + 18],
                s[at + 19],
            );
            let r = sock_diag::read_from(order, s, at, stats);
            let next = at + (len + 3) / 4 * 4;
            let found = sock_diag::message_stats(order, payload);
            &&& kind == 3 ==> r == (stats, DatagramEnd::Done)
            &&& kind == 2 && len >= 36 && code != 0 ==> r == (
                stats,
                DatagramEnd::Failed(sock_diag::error_number(code)),
            )
            &&& kind == 20 && found is Some ==> r == sock_diag::read_from(
                order,
                s,
                next,
                stats.push(found->0),
            )
            &&& kind == 20 && found is None ==> r == sock_diag::read_from(order, s, next, stats)
            &&& kind != 2 && kind != 3 && kind != 20 ==> r == sock_diag::read_from(
                order,
                s,
                next,
                stats,
            )
        }),
{
    let len = sock_diag::number32(order, s[at], s[at + 1], s[at + 2], s[at + 3]) as int;
    let payload = s.subrange(at + 16, at + len);
    if len >= 36 {
        assert(payload[0] == s[at + 16] && payload[1] == s[at + 17]);
        assert(payload[2] == s[at + 18] && payload[3] == s[at + 19]);
    }
}

/// Texts are filled up with spaces to their width, before or behind them. A text that is
/// wide enough stays as it is.
pub proof fn law_columns_are_filled_up(s: Seq<char>, width: nat, i: int)
    ensures
        s.len() <= width ==> cli::right_aligned(s, width).len() == width
            && cli::left_aligned(s, width).len() == width,
        s.len() >= width ==> cli::right_aligned(s, width) == s && cli::left_aligned(s, width) == s,
        cli::right_aligned(s, width).skip(cli::right_aligned(s, width).len() - s.len()) == s,
        cli::left_aligned(s, width).take(s.len() as int) == s,
        0 <= i < cli::right_aligned(s, width).len() - s.len() ==> cli::right_aligned(s, width)[i]
            == ' ',
        s.len() <= i < cli::left_aligned(s, width).len() ==> cli::left_aligned(s, width)[i] == ' ',
{
    let right = cli::right_aligned(s, width);
    let left = cli::left_aligned(s, width);
    assert(right.skip(right.len() - s.len()) =~= s);
    assert(left.take(s.len() as int) =~= s);
}

/// The line for an outcome says first whether the node is alive, and last its name and
/// what went wrong, or that nothing did.
pub proof fn law_lines_say_what_came_out(o: OutcomeView)
    ensures
        ({
            let line = cli::outcome_text(o);
            let why = match o.failure {
                Some(f) => cli::failure_text(f),
                None => "ok"@,
            };
            let tail = "  "@ + o.label + "  "@ + why;
            &&& line.len() >= 8 + tail.len()
            &&& o.alive ==> line.take(8) == "[ALIVE] "@
            &&& !o.alive ==> line.take(8) == "[DEAD ] "@
            &&& line.skip(line.len() - tail.len()) == tail
        }),
{
    reveal_strlit("[");
    reveal_strlit("ALIVE");
    reveal_strlit("DEAD ");
    reveal_strlit("] ");
    reveal_strlit("[ALIVE] ");
    reveal_strlit("[DEAD ] ");
    let line = cli::outcome_text(o);
    let why = match o.failure {
        Some(f) => cli::failure_text(f),
        None => "ok"@,
    };
    let tail = "  "@ + o.label + "  "@ + why;
    assert(o.alive ==> line.take(8) =~= "[ALIVE] "@);
    assert(!o.alive ==> line.take(8) =~= "[DEAD ] "@);
    assert(line.skip(line.len() - tail.len()) =~= tail);
}

/// The latency of an outcome stands in the column behind that, at its right end, and two
/// dashes where there is none; the kind and the country of the node follow.
pub proof fn law_lines_show_latency_kind_and_country(o: OutcomeView, ms: u16)
    requires
        o.latency_ms is Some ==> o.latency_ms == Some(ms),
    ensures
        ({
            let line = cli::outcome_text(o);
            let number = if o.latency_ms is Some {
                text::decimal(ms as nat) + "ms"@
            } else {
                "--"@
            };
            let country = text::utf8_lossy(o.country_code@);
            &&& number.len() <= 8
            &&& line.subrange(16 - number.len(), 16) == number
            &&& line.subrange(16, 18) == "  "@
            &&& line.subrange(18, 18int + o.protocol.len()) == o.protocol
            &&& o.protocol.len() <= 9 ==> line[27] == '@' && line.subrange(
                28,
                28int + country.len(),
            ) == country
        }),
{
    reveal_strlit("[");
    reveal_strlit("ALIVE");
    reveal_strlit("DEAD ");
    reveal_strlit("] ");
    reveal_strlit("  ");
    reveal_strlit("ms");
    reveal_strlit("--");
    reveal_strlit("@");
    lemma_short_number(ms);
    let line = cli::outcome_text(o);
    let number = if o.latency_ms is Some {
        text::decimal(ms as nat) + "ms"@
    } else {
        "--"@
    };
    let country = text::utf8_lossy(o.country_code@);
    law_columns_are_filled_up(number, 8, 0);
    law_columns_are_filled_up(o.protocol, 9, 0);
    let cell = cli::right_aligned(number, 8);
    let kind = cli::left_aligned(o.protocol, 9);
    assert(line.subrange(8, 16) =~= cell);
    assert(line.subrange(16 - number.len(), 16) =~= number);
    assert(line.subrange(16, 18) =~= "  "@);
    assert(line.subrange(18, 18int + kind.len()) =~= kind);
    assert(line.subrange(18, 18int + o.protocol.len()) =~= kind.take(o.protocol.len() as int));
    if o.protocol.len() <= 9 {
        assert(line.subrange(28, 28int + country.len()) =~= country);
    }
}

proof fn lemma_short_number(n: u16)
    ensures
        1 <= text::decimal(n as nat).len() <= 5,
{
    reveal_with_fuel(text::number_text, 6);
}

/// A message about a number begins with the argument that wants it, as it is written on
/// the command line, and a message about an unknown argument ends with it.
pub proof fn law_messages_name_the_argument(f: NumberFlag, s: Seq<char>, before: Seq<Seq<char>>)
    ensures
        cli::flag_text(f).is_prefix_of(cli::arg_error_text(ArgError::NeedsValue(f))),
        cli::flag_text(f).is_prefix_of(cli::arg_error_text(ArgError::NotANumber(f))),
        s.is_suffix_of(cli::arg_error_text(ArgError::UnknownFlag(s))),
        forall|path: Option<Seq<char>>, concurrency: usize, timeout_ms: u64|
            #[trigger] cli::parsed(
                before.push(cli::flag_text(f)),
                before.len() as int,
                path,
                concurrency,
                timeout_ms,
            ) == Err::<ProbeArgs<Seq<char>>, ArgError<Seq<char>>>(ArgError::NeedsValue(f)),
{
    reveal_strlit("--concurrency");
    reveal_strlit("--timeout-ms");
    assert("--concurrency"@.len() != "--timeout-ms"@.len());
    let missing = cli::arg_error_text(ArgError::NeedsValue(f));
    let wrong = cli::arg_error_text(ArgError::NotANumber(f));
    let unknown = cli::arg_error_text(ArgError::UnknownFlag(s));
    assert(cli::flag_text(f) =~= missing.subrange(0, cli::flag_text(f).len() as int));
    assert(cli::flag_text(f) =~= wrong.subrange(0, cli::flag_text(f).len() as int));
    assert(s =~= unknown.subrange(unknown.len() - s.len(), unknown.len() as int));
}

} // verus!
