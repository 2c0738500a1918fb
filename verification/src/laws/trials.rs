//! What trials of a node promise.
use crate::adapter::egress;
use crate::adapter::egress::{CheckView, EgressTarget, TargetCheck, TargetOutcome};
use crate::adapter::http;
use crate::adapter::http::{ReadEvent, TargetError};
use crate::adapter::outbound;
use crate::adapter::socks5;
use crate::adapter::socks5::{SocksAction, SocksError, SocksState};
use crate::ip;
use crate::ir::node::NodeView;
use crate::json::JsonView;
use crate::laws;
use crate::laws::names;
use crate::text;
use crate::time::Duration;
use vstd::prelude::*;

verus! {

// ---------------------------------------------------------------------------
// Judging
// ---------------------------------------------------------------------------

/// A target is verified exactly if it answered with its status and, where it promises
/// a body, with a body that holds it. A check keeps the target's tag and the time that
/// was taken; its status is that of the answer, or zero where none came.
pub proof fn law_targets_are_judged_by_their_answer(
    target: EgressTarget,
    outcome: TargetOutcome<Seq<char>>,
    latency: Duration,
)
    ensures
        ({
            let c = egress::judged(target, outcome, latency);
            &&& c.tag == target.tag@ && c.latency == latency
            &&& c.verified <==> outcome is Answered && outcome->Answered_status
                == target.expect_status && (target.expect_body_contains is Some ==> exists|
                at: int,
            |
                0 <= at <= outcome->Answered_body.len() - target.expect_body_contains->0@.len()
                    && #[trigger] outcome->Answered_body.subrange(
                    at,
                    at + target.expect_body_contains->0@.len(),
                ) == target.expect_body_contains->0@)
            &&& outcome is Answered ==> c.status == outcome->Answered_status
            &&& !(outcome is Answered) ==> c.status == 0
            &&& c.verified ==> c.detail == "ok"@
            &&& outcome is Answered && outcome->Answered_status != target.expect_status
                ==> c.detail == "expected status "@ + text::decimal(target.expect_status as nat)
                + ", got "@ + text::decimal(outcome->Answered_status as nat)
            &&& match outcome {
                TargetOutcome::Unreachable(e) => c.detail == "socks5 testbed unreachable: "@ + e,
                TargetOutcome::ConnectFailed(e) => c.detail == "socks5 CONNECT failed: "@ + e,
                TargetOutcome::TlsFailed(e) => c.detail == "TLS setup failed: "@ + e,
                TargetOutcome::WriteFailed(e) => c.detail == "write failed: "@ + e,
                TargetOutcome::ReadFailed(e) => c.detail == e,
                TargetOutcome::Answered { status, body } => true,
            }
        }),
{
    if outcome is Answered && target.expect_body_contains is Some {
        let body = outcome->Answered_body;
        let needle = target.expect_body_contains->0@;
        if text::contains(body, needle) {
            let at = choose|at: int| text::occurs_at(body, needle, at);
            assert(body.subrange(at, at + needle.len()) == needle);
        }
        if exists|at: int|
            0 <= at <= body.len() - needle.len() && #[trigger] body.subrange(
                at,
                at + needle.len(),
            ) == needle {
            let at = choose|at: int|
                0 <= at <= body.len() - needle.len() && #[trigger] body.subrange(
                    at,
                    at + needle.len(),
                ) == needle;
            assert(text::occurs_at(body, needle, at));
        }
    }
}

/// The numbers of a trial count the verified checks, and those of them that are of
/// operators whose word counts.
pub proof fn law_counts_are_of_verified_checks(
    targets: Seq<EgressTarget>,
    checks: Seq<TargetCheck>,
    n: nat,
)
    requires
        n <= checks.len(),
        n <= targets.len(),
    ensures
        egress::verified_count(checks, n) == checks.take(n as int).filter(
            |c: TargetCheck| c.verified,
        ).len(),
        egress::quorum_count(targets, checks, n) == Seq::new(
            n,
            |i: int| targets[i].quorum && checks[i].verified,
        ).filter(|b: bool| b).len(),
    decreases n,
{
    reveal(Seq::filter);
    let good = |c: TargetCheck| c.verified;
    let yes = |b: bool| b;
    let s = checks.take(n as int);
    let t = Seq::new(n, |i: int| targets[i].quorum && checks[i].verified);
    if n > 0 {
        let m = (n - 1) as nat;
        law_counts_are_of_verified_checks(targets, checks, m);
        assert(s.drop_last() =~= checks.take(m as int));
        assert(s.last() == checks[m as int]);
        assert(t.drop_last() =~= Seq::new(m, |i: int| targets[i].quorum && checks[i].verified));
        assert(t.last() == (targets[m as int].quorum && checks[m as int].verified));
    }
}

/// Every operator's word counts and no real site's does; whoever is asked over TLS is
/// asked on its port, and everyone else on the plain one. Operators answer with a body
/// exactly where their status says that there is one.
pub proof fn law_only_operators_count(i: int)
    ensures
        0 <= i < egress::operator_targets().len() ==> {
            let t = egress::operator_targets()[i];
            &&& t.quorum
            &&& t.tls ==> t.port == 443
            &&& !t.tls ==> t.port == 80
            &&& t.expect_status == 200 || t.expect_status == 204
            &&& t.expect_body_contains is Some <==> t.expect_status == 200
        },
        0 <= i < egress::real_site_targets().len() ==> {
            let t = egress::real_site_targets()[i];
            &&& !t.quorum
            &&& t.tls && t.port == 443
            &&& t.expect_status == 200 && t.expect_body_contains is None
        },
{
}

/// A trial's configuration listens on the machine itself, on the port, and sends
/// everything to the node; the one without a node sends everything out directly.
#[verifier::rlimit(40)]
pub proof fn law_testbeds_lead_to_the_node(n: NodeView, port: u16)
    ensures
        ({
            let r = egress::testbed_config(n, port);
            let c = r->Ok_0;
            let inbound = laws::config::item(c, "inbounds"@, 0);
            let route = laws::outbound::within(c, "route"@);
            &&& r is Ok <==> outbound::outbound_json(n) is Ok
            &&& r is Err ==> r->Err_0 == outbound::outbound_json(n)->Err_0
            &&& r is Ok ==> {
                &&& laws::config::lists(c, "inbounds"@, 1)
                &&& laws::outbound::says(inbound, "type"@, "mixed"@)
                &&& laws::outbound::says(inbound, "listen"@, "127.0.0.1"@)
                &&& laws::outbound::counts(inbound, "listen_port"@, port as int)
                &&& laws::config::lists(c, "outbounds"@, 2)
                &&& laws::outbound::says(
                    laws::config::item(c, "outbounds"@, 0),
                    "type"@,
                    "direct"@,
                )
                &&& laws::config::item(c, "outbounds"@, 1) == outbound::outbound_json(n)->Ok_0
                &&& laws::outbound::says(
                    laws::config::item(route, "rules"@, 1),
                    "outbound"@,
                    n.meta.label,
                )
                &&& laws::outbound::counts(route, "default_mark"@, 0)
                &&& laws::outbound::tells(route, "auto_detect_interface"@, false)
            }
        }),
        ({
            let c = egress::direct_testbed_config(port);
            let inbound = laws::config::item(c, "inbounds"@, 0);
            let route = laws::outbound::within(c, "route"@);
            &&& laws::outbound::counts(inbound, "listen_port"@, port as int)
            &&& laws::outbound::says(inbound, "listen"@, "127.0.0.1"@)
            &&& laws::config::lists(c, "outbounds"@, 1)
            &&& laws::outbound::says(laws::config::item(c, "outbounds"@, 0), "type"@, "direct"@)
            &&& laws::outbound::says(
                laws::config::item(route, "rules"@, 1),
                "outbound"@,
                "direct"@,
            )
        }),
{
    names::lemma_config_names();
    laws::outbound::law_outbounds_lead_to_the_endpoint(n);
}

// ---------------------------------------------------------------------------
// Answers
// ---------------------------------------------------------------------------

/// An answer's body is what follows the first empty line; one without an empty line has
/// none. Its status is the second word of its first line, where that is a number of 16
/// bits, and otherwise zero.
pub proof fn law_answers_have_a_status_and_a_body(s: Seq<char>, at: int)
    ensures
        0 <= at <= s.len() - 4 && s.subrange(at, at + 4) == seq!['\r', '\n', '\r', '\n'] && (
        forall|k: int|
            0 <= k < at ==> #[trigger] s.subrange(k, k + 4) != seq!['\r', '\n', '\r', '\n'])
            ==> http::answer_body(s) == s.skip(at + 4),
        (forall|k: int|
            0 <= k <= s.len() - 4 ==> #[trigger] s.subrange(k, k + 4) != seq![
                '\r',
                '\n',
                '\r',
                '\n',
            ]) ==> http::answer_body(s).len() == 0,
        text::lines(s).len() > 0 && text::words(text::lines(s)[0]).len() >= 2 ==> (
        match text::unsigned_number(text::words(text::lines(s)[0])[1], 10, 0xffff) {
            Some(v) => http::answer_status(s) == v,
            None => http::answer_status(s) == 0,
        }),
        text::lines(s).len() > 0 && text::words(text::lines(s)[0]).len() < 2
            ==> http::answer_status(s) == 0,
{
    let mark = "\r\n\r\n"@;
    reveal_strlit("\r\n\r\n");
    assert(mark =~= seq!['\r', '\n', '\r', '\n']);
    laws::text::law_splitting_once_takes_the_first_occurrence(s, mark);
    if 0 <= at <= s.len() - 4 && s.subrange(at, at + 4) == mark && forall|k: int|
        0 <= k < at ==> #[trigger] s.subrange(k, k + 4) != mark {
        match text::split_once(s, mark) {
            Some((head, tail)) => {
                if at < head.len() {
                    assert(s.subrange(at, at + mark.len()) != mark);
                }
                if head.len() < at {
                    let h = head.len() as int;
                    assert(s.subrange(h, h + 4) =~= mark);
                }
                assert(tail =~= s.skip(at + 4));
            },
            None => {
                assert(s.subrange(at, at + mark.len()) != mark);
            },
        }
    }
    if forall|k: int| 0 <= k <= s.len() - 4 ==> #[trigger] s.subrange(k, k + 4) != mark {
        if let Some((head, tail)) = text::split_once(s, mark) {
            let h = head.len() as int;
            assert(s.subrange(h, h + 4) =~= mark);
        }
    }
}

// ---------------------------------------------------------------------------
// Targets
// ---------------------------------------------------------------------------

/// A host and a port with a colon between them are taken apart again, behind `https://`
/// and with the host in brackets too.
#[verifier::rlimit(40)]
pub proof fn law_targets_are_taken_apart(host: Seq<char>, port: u16)
    requires
        host.len() > 0,
        host[0] != '[',
        host.last() != ']',
        host.len() < 8 || host.take(8) != "https://"@,
    ensures
        ({
            let tail = seq![':'] + text::decimal(port as nat);
            let want = Ok::<(Seq<char>, u16), TargetError<Seq<char>>>((host, port));
            &&& http::target_parts(host + tail) == want
            &&& http::target_parts("https://"@ + (host + tail)) == want
            &&& http::target_parts(seq!['['] + host + seq![']'] + tail) == want
        }),
{
    let d = text::decimal(port as nat);
    let tail = seq![':'] + d;
    laws::text::law_decimal_numbers_read_back(port as nat, 0xffff);
    reveal_strlit("https://");
    let plain = host + tail;
    let bracketed = seq!['['] + host + seq![']'] + tail;
    let secured = "https://"@ + plain;
    lemma_last_colon(host, d);
    lemma_last_colon(seq!['['] + host + seq![']'], d);
    assert(plain[0] == host[0]);
    assert(!text::occurs_at(plain, "https://"@, 0)) by {
        if text::occurs_at(plain, "https://"@, 0) {
            let start = plain.subrange(0, 8);
            let k = host.len() as int;
            assert(start == "https://"@);
            if k >= 8 {
                assert(start =~= host.take(8));
            } else {
                assert(plain[k] == ':');
                assert(start[k] == plain[k]);
                assert("https://"@[5] == ':' && "https://"@[6] == '/');
                assert(k == 5);
                assert(start[6] == plain[6]);
                assert(plain[6] == d[0]);
            }
        }
    }
    assert(!text::occurs_at(bracketed, "https://"@, 0)) by {
        if text::occurs_at(bracketed, "https://"@, 0) {
            assert(bracketed.subrange(0, 8)[0] == 'h');
        }
    }
    assert(secured.subrange(0, 8) =~= "https://"@);
    assert(text::occurs_at(secured, "https://"@, 0));
    assert(secured.skip(8) =~= plain);
    assert(plain.take(host.len() as int) =~= host);
    assert(plain.skip(host.len() as int + 1) =~= d);
    let boxed = seq!['['] + host + seq![']'];
    assert(boxed + tail =~= bracketed);
    assert(bracketed.take(boxed.len() as int) =~= boxed);
    assert(bracketed.skip(boxed.len() as int + 1) =~= d);
    reveal_with_fuel(http::strip_leading, 3);
    reveal_with_fuel(http::strip_trailing, 3);
    assert(boxed.drop_first() =~= host + seq![']']);
    assert((host + seq![']']).drop_last() =~= host);
    assert((host + seq![']'])[0] == host[0]);
}

proof fn lemma_last_colon(head: Seq<char>, d: Seq<char>)
    requires
        forall|i: int| 0 <= i < d.len() ==> '0' <= #[trigger] d[i] <= '9',
    ensures
        http::last_char(head + (seq![':'] + d), ':') == head.len(),
    decreases d.len(),
{
    let s = head + (seq![':'] + d);
    if d.len() > 0 {
        lemma_last_colon(head, d.drop_last());
        assert(s.drop_last() =~= head + (seq![':'] + d.drop_last()));
        assert(s.last() == d[d.len() - 1]);
    }
}

/// A target without a colon is refused, and so is one whose port is no number or whose
/// host is empty; the error shows the target.
pub proof fn law_bad_targets_are_refused(target: Seq<char>)
    ensures
        (forall|i: int| 0 <= i < target.len() ==> target[i] != ':') ==> http::target_parts(target)
            == Err::<(Seq<char>, u16), _>(TargetError::<Seq<char>>::NotHostPort(target)),
        target.len() > 0 && target.last() == ':' ==> http::target_parts(target)
            == Err::<(Seq<char>, u16), _>(TargetError::<Seq<char>>::InvalidPort(target)),
        http::target_parts(target) is Ok ==> http::target_parts(target)->Ok_0.0.len() > 0,
{
    reveal_strlit("https://");
    if forall|i: int| 0 <= i < target.len() ==> target[i] != ':' {
        lemma_no_colon(target);
        if text::occurs_at(target, "https://"@, 0) {
            assert(target.subrange(0, 8)[5] == target[5]);
        }
    }
    if target.len() > 0 && target.last() == ':' {
        if text::occurs_at(target, "https://"@, 0) {
            assert(target.subrange(0, 8)[7] == target[7]);
            assert(target.skip(8).last() == ':');
        }
        let rest = http::without_https(target);
        assert(rest.skip(rest.len() as int).len() == 0);
    }
}

proof fn lemma_no_colon(s: Seq<char>)
    requires
        forall|i: int| 0 <= i < s.len() ==> s[i] != ':',
    ensures
        http::last_char(s, ':') == -1,
    decreases s.len(),
{
    if s.len() > 0 {
        lemma_no_colon(s.drop_last());
    }
}

// ---------------------------------------------------------------------------
// Handshakes
// ---------------------------------------------------------------------------

/// A request names version five and the command to connect; then the host: an address of
/// four octets behind a one, one of eight segments behind a four, the higher byte of each
/// first, or a name behind a three and its length; and last the port, the higher byte
/// first.
#[verifier::rlimit(40)]
pub proof fn law_requests_name_host_and_port(host: Seq<char>, port: u16)
    ensures
        ({
            let b = socks5::connect_bytes(host, port);
            let n = b.len() as int;
            let name = vstd::utf8::encode_utf8(host);
            &&& n >= 6 && b[0] == 5 && b[1] == 1 && b[2] == 0
            &&& 256 * b[n - 2] + b[n - 1] == port
            &&& ip::ipv4_octets(host) is Some ==> b[3] == 1 && b.subrange(4, n - 2)
                == ip::ipv4_octets(host)->0
            &&& ip::ipv4_octets(host) is None && ip::ipv6_segments(host) is Some ==> {
                &&& b[3] == 4 && n == 22
                &&& forall|i: int|
                    0 <= i < 8 ==> 256 * b[4 + 2 * i] + b[5 + 2 * i] == #[trigger] ip::ipv6_segments(
                        host,
                    )->0[i]
            }
            &&& ip::ipv4_octets(host) is None && ip::ipv6_segments(host) is None ==> {
                &&& b[3] == 3 && b.subrange(5, n - 2) == name
                &&& name.len() < 256 ==> b[4] == name.len()
            }
        }),
{
    let b = socks5::connect_bytes(host, port);
    let n = b.len() as int;
    assert(b[n - 2] == (port / 256) as u8 && b[n - 1] == (port % 256) as u8);
    if ip::ipv4_octets(host) is Some {
        assert(b.subrange(4, n - 2) =~= ip::ipv4_octets(host)->0);
    } else if ip::ipv6_segments(host) is Some {
        let s = ip::ipv6_segments(host)->0;
        assert(forall|i: int| 0 <= i < 16 ==> b[4 + i] == socks5::segment_octets(s)[i]);
        assert(256 * b[4] + b[5] == s[0]);
        assert(256 * b[6] + b[7] == s[1]);
        assert(256 * b[8] + b[9] == s[2]);
        assert(256 * b[10] + b[11] == s[3]);
        assert(256 * b[12] + b[13] == s[4]);
        assert(256 * b[14] + b[15] == s[5]);
        assert(256 * b[16] + b[17] == s[6]);
        assert(256 * b[18] + b[19] == s[7]);
    } else {
        assert(b.subrange(5, n - 2) =~= vstd::utf8::encode_utf8(host));
    }
}

/// A handshake goes on only with a proxy of version five that asks for no password; its
/// reply tells how long the address is that follows, and behind the port the connection
/// is made.
pub proof fn law_handshakes_go_on_step_by_step(bytes: Seq<u8>, host: Seq<char>, port: u16)
    ensures
        ({
            let r = socks5::handshake(SocksState::Greeting, bytes, host, port);
            &&& bytes[0] == 5 && bytes[1] == 0 ==> r is Ok && r->Ok_0.0 is Reply && r->Ok_0.1
                == SocksAction::Send(socks5::connect_bytes(host, port), 4)
            &&& bytes[0] != 5 || bytes[1] != 0 ==> r is Err && r->Err_0
                == SocksError::GreetingRejected(bytes[0], bytes[1])
        }),
        ({
            let r = socks5::handshake(SocksState::Reply, bytes, host, port);
            &&& bytes[1] == 0 && bytes[3] == 1 ==> r is Ok && r->Ok_0.0 is Address && r->Ok_0.1
                == SocksAction::<Seq<u8>>::Receive(4)
            &&& bytes[1] == 0 && bytes[3] == 4 ==> r is Ok && r->Ok_0.0 is Address && r->Ok_0.1
                == SocksAction::<Seq<u8>>::Receive(16)
            &&& bytes[1] == 0 && bytes[3] == 3 ==> r is Ok && r->Ok_0.0 is NameLength
                && r->Ok_0.1 == SocksAction::<Seq<u8>>::Receive(1)
            &&& bytes[1] == 0 && bytes[3] != 1 && bytes[3] != 3 && bytes[3] != 4 ==> r is Err
                && r->Err_0 == SocksError::UnknownAddressType(bytes[3])
            &&& bytes[1] != 0 ==> r is Err && r->Err_0 == SocksError::ConnectFailed(bytes[1])
        }),
        ({
            let r = socks5::handshake(SocksState::NameLength, bytes, host, port);
            r is Ok && r->Ok_0.0 is Address && r->Ok_0.1 == SocksAction::<Seq<u8>>::Receive(
                bytes[0] as usize,
            )
        }),
        ({
            let r = socks5::handshake(SocksState::Address, bytes, host, port);
            r is Ok && r->Ok_0.0 is Port && r->Ok_0.1 == SocksAction::<Seq<u8>>::Receive(2)
        }),
        ({
            let r = socks5::handshake(SocksState::Port, bytes, host, port);
            r is Ok && r->Ok_0.1 is Connected
        }),
        socks5::greeting() == seq![5u8, 1u8, 0u8],
{
}

/// The header block of an answer is complete once a blank line was received, with
/// whatever before and behind it, and not while no carriage return was.
pub proof fn law_headers_end_with_a_blank_line(head: Seq<u8>, rest: Seq<u8>, s: Seq<u8>)
    ensures
        http::has_header(head + seq![13u8, 10u8, 13u8, 10u8] + rest),
        http::has_header(s) ==> exists|i: int, j: int|
            0 <= i && j == i + 2 && j + 1 < s.len() && #[trigger] s[i] == 13 && s[i + 1] == 10
                && #[trigger] s[j] == 13 && s[j + 1] == 10,
        http::has_header(s) ==> s.len() >= 4,
{
    let whole = head + seq![13u8, 10u8, 13u8, 10u8] + rest;
    let n = head.len() as int;
    assert(whole[n] == 13 && whole[n + 1] == 10 && whole[n + 2] == 13 && whole[n + 3] == 10);
    assert(http::header_ends_at(whole, n));
    if http::has_header(s) {
        let i = choose|i: int| http::header_ends_at(s, i);
        assert(s[i] == 13 && s[i + 1] == 10 && s[i + 2] == 13 && s[i + 3] == 10);
    }
}

/// Bytes are received in the order in which they came, and nothing else that happens on a
/// connection changes what was received.
pub proof fn law_bytes_are_received_in_order(s: Seq<u8>, first: Vec<u8>, then_came: Vec<u8>, why: String)
    ensures
        http::received(
            http::received(s, ReadEvent::Data(first)),
            ReadEvent::Data(then_came),
        ) == s + (first@ + then_came@),
        http::received(s, ReadEvent::Closed) == s,
        http::received(s, ReadEvent::Blocked) == s,
        http::received(s, ReadEvent::Failed(why)) == s,
{
    assert(s + first@ + then_came@ =~= s + (first@ + then_came@));
}

} // verus!
