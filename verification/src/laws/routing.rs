//! What the routing daemon promises.
use crate::ip;
use crate::laws;
use crate::netd::cidr;
use crate::netd::daemon;
use crate::netd::daemon::{
    DaemonError, DaemonState, DaemonStep, FaultView, Ipv4Net, Ipv6Net, RoutingView,
    SessionCounter, StateView, Subnet,
};
use crate::netd::netfilter;
use crate::netd::netfilter::{Hook, InstallAction, InstallState, Op, Packet, Rule, SettingsView};
use crate::netd::proto;
use crate::netd::proto::{FrameError, NetdRequest, NetdResponse};
use crate::text;
use crate::time::Instant;
use vstd::prelude::*;

verus! {

// ---------------------------------------------------------------------------
// Validation
// ---------------------------------------------------------------------------

/// The address names one host that can be reached: it is neither unspecified nor
/// multicast nor broadcast.
pub open spec fn is_reachable(o: [u8; 4]) -> bool {
    &&& o[0] > 0 || o[1] > 0 || o[2] > 0 || o[3] > 0
    &&& o[0] < 224 || o[0] > 239
    &&& o[0] < 255 || o[1] < 255 || o[2] < 255 || o[3] < 255
}

/// A subnet that is read from a text may be bypassed unless it is everything.
pub open spec fn may_bypass<S: Subnet>(s: Seq<char>) -> bool {
    S::denoted(s) is Some && (S::denoted(s)->0).1 > 0
}

/// A request is accepted exactly if its port is from 1024 on, its mark neither zero nor
/// all ones, its table from 1 to 252, its resolver reachable, and its subnets, 256 of
/// each family at most, are subnets and not everything. What is accepted is what was
/// asked.
pub proof fn law_requests_are_validated(
    port: u16,
    mark: u32,
    table: u32,
    dns: Option<[u8; 4]>,
    v4: Seq<Seq<char>>,
    v6: Seq<Seq<char>>,
    uid: Option<u32>,
)
    ensures
        ({
            let r = daemon::validated_request(port, mark, table, dns, v4, v6, uid);
            let c = r->Ok_0;
            &&& r is Ok <==> {
                &&& port >= 1024
                &&& 0 < mark < 0xffff_ffff
                &&& 1 <= table <= 252
                &&& dns is Some ==> is_reachable(dns->0)
                &&& v4.len() <= 256
                &&& v6.len() <= 256
                &&& forall|i: int| 0 <= i < v4.len() ==> may_bypass::<Ipv4Net>(#[trigger] v4[i])
                &&& forall|i: int| 0 <= i < v6.len() ==> may_bypass::<Ipv6Net>(#[trigger] v6[i])
            }
            &&& r is Ok ==> {
                &&& c.tproxy_port == port && c.proxy_fwmark == mark && c.table_id == table
                &&& c.dns_ipv4 == dns && c.core_uid == uid
                &&& c.bypass_subnets.len() == v4.len()
                &&& forall|i: int|
                    0 <= i < v4.len() ==> Some(#[trigger] c.bypass_subnets[i]) == cidr::ipv4_net(
                        v4[i],
                    )
                &&& c.bypass_subnets_v6.len() == v6.len()
                &&& forall|i: int|
                    0 <= i < v6.len() ==> Some(#[trigger] c.bypass_subnets_v6[i])
                        == cidr::ipv6_net(v6[i])
            }
            &&& port < 1024 ==> r is Err && r->Err_0 is Port
            &&& port >= 1024 && (mark == 0 || mark == 0xffff_ffff) ==> r is Err && r->Err_0 is Mark
            &&& port >= 1024 && 0 < mark < 0xffff_ffff && (table == 0 || table > 252) ==> r is Err
                && r->Err_0 is Table
            &&& port >= 1024 && 0 < mark < 0xffff_ffff && 1 <= table <= 252 && dns is Some
                && !is_reachable(dns->0) ==> r is Err && r->Err_0 is DnsAddress
            &&& port >= 1024 && 0 < mark < 0xffff_ffff && 1 <= table <= 252 && (dns is Some
                ==> is_reachable(dns->0)) && v4.len() > 256 ==> r is Err
                && r->Err_0 is TooManySubnets
        }),
{
    lemma_subnets::<Ipv4Net>(v4, v4.len());
    lemma_subnets::<Ipv6Net>(v6, v6.len());
}

/// Subnets are read one for one, and the first that is none, or is everything, is
/// refused: the one with its text, the other as the default route.
proof fn lemma_subnets<S: Subnet>(list: Seq<Seq<char>>, n: nat)
    requires
        n <= list.len(),
    ensures
        ({
            let r = daemon::subnets::<S>(list, n);
            &&& r is Ok <==> forall|i: int| 0 <= i < n ==> may_bypass::<S>(#[trigger] list[i])
            &&& r is Ok ==> r->Ok_0.len() == n && forall|i: int|
                0 <= i < n ==> Some(#[trigger] r->Ok_0[i]) == S::denoted(list[i])
        }),
    decreases n,
{
    if n > 0 {
        lemma_subnets::<S>(list, (n - 1) as nat);
        let before = daemon::subnets::<S>(list, (n - 1) as nat);
        let r = daemon::subnets::<S>(list, n);
        if forall|i: int| 0 <= i < n ==> may_bypass::<S>(#[trigger] list[i]) {
            assert(may_bypass::<S>(list[n - 1]));
        }
        if r is Ok {
            assert forall|i: int| 0 <= i < n implies Some(#[trigger] r->Ok_0[i]) == S::denoted(
                list[i],
            ) by {
                if i < n - 1 {
                    assert(r->Ok_0[i] == before->Ok_0[i]);
                }
            }
            assert forall|i: int| 0 <= i < n implies may_bypass::<S>(#[trigger] list[i]) by {}
        }
    }
}

/// The first subnet that is refused says why: what is no subnet is shown, and everything
/// is the default route.
pub proof fn law_bad_subnets_are_named<S: Subnet>(list: Seq<Seq<char>>, n: nat, i: int)
    requires
        n <= list.len(),
        0 <= i < n,
        !may_bypass::<S>(list[i]),
        forall|j: int| 0 <= j < i ==> may_bypass::<S>(#[trigger] list[j]),
    ensures
        ({
            let r = daemon::subnets::<S>(list, n);
            &&& r is Err
            &&& S::denoted(list[i]) is None ==> r->Err_0 == S::refusal(list[i])
            &&& S::denoted(list[i]) is Some ==> r->Err_0 is DefaultRoute
        }),
    decreases n,
{
    lemma_subnets::<S>(list, (n - 1) as nat);
    if i < n - 1 {
        law_bad_subnets_are_named::<S>(list, (n - 1) as nat, i);
    }
}

/// Whoever is root may talk to the daemon, and the one user that is configured; nobody
/// else.
pub proof fn law_only_the_configured_user_is_heard(uid: u32, configured: Option<Seq<char>>)
    ensures
        ({
            let r = daemon::uid_verdict(uid, configured);
            &&& r is Ok <==> uid == 0 || (configured is Some && text::unsigned_number(
                configured->0,
                10,
                0xffff_ffff,
            ) == Some(uid as nat))
            &&& uid != 0 && configured is None ==> r is Err && r->Err_0 is AllowedUidMissing
            &&& uid != 0 && configured is Some && text::unsigned_number(
                configured->0,
                10,
                0xffff_ffff,
            ) is None ==> r is Err && r->Err_0 is AllowedUidNotNumeric
        }),
{
}

// ---------------------------------------------------------------------------
// Sessions
// ---------------------------------------------------------------------------

/// The owner's request to enable routing reaches the backend with the validated
/// configuration, and the owner then holds the controller; a bad one changes nothing.
pub proof fn law_owners_enable_routing(
    s: StateView,
    session: u64,
    now: Instant,
    port: u16,
    mark: u32,
    table: u32,
    dns: Option<[u8; 4]>,
    v4: Seq<Seq<char>>,
    v6: Seq<Seq<char>>,
    uid: Option<u32>,
)
    requires
        s.active_session is None || s.active_session == Some(session),
    ensures
        ({
            let (after, step) = daemon::processed(
                s,
                NetdRequest::EnableRouting {
                    session_id: session,
                    tproxy_port: port,
                    proxy_fwmark: mark,
                    table_id: table,
                    dns_ipv4: dns,
                    bypass_subnets: v4,
                    bypass_subnets_v6: v6,
                    core_uid: uid,
                },
                session,
                now,
            );
            let checked = daemon::validated_request(port, mark, table, dns, v4, v6, uid);
            &&& checked is Ok ==> {
                &&& step is EnableBackend && step->EnableBackend_0 == checked->Ok_0
                &&& after.active_session == Some(session) && after.last_heartbeat == now
                &&& after.routing_active == s.routing_active
                &&& after.routing_config == s.routing_config
            }
            &&& checked is Err ==> {
                &&& after == s
                &&& step is Reply && step->Reply_0 == NetdResponse::Error(
                    daemon::fault_text(checked->Err_0),
                )
            }
        }),
{
}

/// Routing that was enabled is remembered with its configuration; where the backend
/// failed, its words are the answer and the controller is free again.
pub proof fn law_backends_decide_on_enabling(
    s: StateView,
    session: u64,
    c: RoutingView,
    e: Seq<char>,
    now: Instant,
)
    requires
        s.active_session == Some(session),
    ensures
        ({
            let (done, ok) = daemon::after_enable(s, session, c, None, now);
            let (undone, bad) = daemon::after_enable(s, session, c, Some(e), now);
            &&& ok is RoutingEnabled
            &&& done.routing_active && done.routing_config == Some(c)
            &&& done.active_session == Some(session) && done.last_heartbeat == now
            &&& bad == NetdResponse::Error(e)
            &&& undone.active_session is None
            &&& undone.routing_active == s.routing_active && undone.routing_config
                == s.routing_config && undone.last_heartbeat == s.last_heartbeat
        }),
{
}

/// The owner's request to disable routing goes to the backend; once that has done so
/// nothing is left, and where it failed everything is.
pub proof fn law_backends_decide_on_disabling(
    s: StateView,
    session: u64,
    now: Instant,
    e: Seq<char>,
)
    ensures
        daemon::processed(
            s,
            NetdRequest::DisableRouting { session_id: session },
            session,
            now,
        ).0 == s,
        daemon::processed(
            s,
            NetdRequest::DisableRouting { session_id: session },
            session,
            now,
        ).1 is DisableBackend,
        ({
            let (done, ok) = daemon::after_disable(s, None);
            &&& ok is RoutingDisabled
            &&& !done.routing_active && done.routing_config is None && done.active_session is None
        }),
        daemon::after_disable(s, Some(e)) == (s, NetdResponse::Error(e)),
{
}

/// A second handshake is refused and changes nothing.
pub proof fn law_handshakes_come_once(s: StateView, version: u32, session: u64, now: Instant)
    ensures
        ({
            let (after, step) = daemon::processed(
                s,
                NetdRequest::Handshake { client_version: version },
                session,
                now,
            );
            &&& after == s
            &&& step is Reply && step->Reply_0 == NetdResponse::Error(
                "handshake may only be sent once"@,
            )
        }),
{
}

/// Routing is overdue exactly from four seconds after the last heartbeat on, and only
/// while it is active.
pub proof fn law_silence_is_noticed_after_four_seconds(s: StateView, now: Instant)
    ensures
        daemon::is_expired(s, now) <==> s.routing_active && now.nanos >= s.last_heartbeat.nanos
            + 4_000_000_000,
{
}

// ---------------------------------------------------------------------------
// Rules
// ---------------------------------------------------------------------------

/// The settings are those of the configuration, with subnets as texts.
pub proof fn law_settings_are_those_of_the_configuration(c: RoutingView)
    ensures
        ({
            let s = netfilter::settings_for(c);
            &&& s.tproxy_port == c.tproxy_port && s.proxy_fwmark == c.proxy_fwmark
            &&& s.table_id == c.table_id && s.dns_ipv4 == c.dns_ipv4 && s.core_uid == c.core_uid
            &&& s.bypass_subnets.len() == c.bypass_subnets.len()
            &&& forall|i: int|
                0 <= i < c.bypass_subnets.len() ==> #[trigger] s.bypass_subnets[i]
                    == ip::ipv4_text(c.bypass_subnets[i].0) + "/"@ + text::decimal(
                    c.bypass_subnets[i].1 as nat,
                )
            &&& s.bypass_subnets_v6.len() == c.bypass_subnets_v6.len()
            &&& forall|i: int|
                0 <= i < c.bypass_subnets_v6.len() ==> #[trigger] s.bypass_subnets_v6[i]
                    == ip::ipv6_text(c.bypass_subnets_v6[i].0) + "/"@ + text::decimal(
                    c.bypass_subnets_v6[i].1 as nat,
                )
        }),
{
}

/// A set holds the local subnets first and then the configured ones, each once and
/// nothing else.
pub proof fn law_sets_hold_each_subnet_once(
    configured: Seq<Seq<char>>,
    defaults: Seq<Seq<char>>,
    n: nat,
)
    requires
        n <= configured.len(),
        defaults.no_duplicates(),
    ensures
        ({
            let all = netfilter::merged(configured, defaults, n);
            &&& all.no_duplicates()
            &&& all.len() >= defaults.len() && all.take(defaults.len() as int) == defaults
            &&& forall|s: Seq<char>| #[trigger]
                all.contains(s) <==> defaults.contains(s) || configured.take(n as int).contains(s)
        }),
    decreases n,
{
    let all = netfilter::merged(configured, defaults, n);
    if n == 0 {
        assert(all.take(defaults.len() as int) =~= defaults);
        assert(configured.take(0) =~= Seq::empty());
    } else {
        let m = (n - 1) as nat;
        law_sets_hold_each_subnet_once(configured, defaults, m);
        let before = netfilter::merged(configured, defaults, m);
        let last = configured[m as int];
        let head = configured.take(m as int);
        assert(configured.take(n as int) =~= head.push(last));
        assert forall|s: Seq<char>| #[trigger]
            all.contains(s) <==> defaults.contains(s) || configured.take(n as int).contains(s) by {
            assert(head.push(last).contains(s) <==> head.contains(s) || s == last) by {
                if head.contains(s) {
                    let k = choose|k: int| 0 <= k < head.len() && head[k] == s;
                    assert(head.push(last)[k] == s);
                }
                assert(head.push(last)[head.len() as int] == last);
            }
            if !before.contains(last) {
                assert(all == before.push(last));
                if before.contains(s) {
                    let k = choose|k: int| 0 <= k < before.len() && before[k] == s;
                    assert(all[k] == s);
                }
                assert(all[before.len() as int] == last);
            }
        }
        assert(all.take(defaults.len() as int) =~= before.take(defaults.len() as int));
    }
}

/// Whatever is configured, the loopback and link-local subnets of both families are
/// bypassed, and the unique local ones.
pub proof fn law_local_subnets_are_bypassed(v4: Seq<Seq<char>>, v6: Seq<Seq<char>>)
    ensures
        netfilter::merged(v4, netfilter::local_bypass_v4(), v4.len()).contains("127.0.0.0/8"@),
        netfilter::merged(v4, netfilter::local_bypass_v4(), v4.len()).contains("169.254.0.0/16"@),
        netfilter::merged(v6, netfilter::local_bypass_v6(), v6.len()).contains("::1/128"@),
        netfilter::merged(v6, netfilter::local_bypass_v6(), v6.len()).contains("fe80::/10"@),
        netfilter::merged(v6, netfilter::local_bypass_v6(), v6.len()).contains("fc00::/7"@),
{
    let (a, b) = (netfilter::local_bypass_v4(), netfilter::local_bypass_v6());
    reveal_strlit("127.0.0.0/8");
    reveal_strlit("169.254.0.0/16");
    reveal_strlit("::1/128");
    reveal_strlit("fe80::/10");
    reveal_strlit("fc00::/7");
    assert(a[0].len() != a[1].len());
    assert(b[0].len() != b[1].len() && b[1].len() != b[2].len() && b[0].len() != b[2].len());
    law_sets_hold_each_subnet_once(v4, a, v4.len());
    law_sets_hold_each_subnet_once(v6, b, v6.len());
    assert(a.contains(a[0]) && a.contains(a[1]));
    assert(b.contains(b[0]) && b.contains(b[1]) && b.contains(b[2]));
}

/// The command that takes the policy rule back is the one that makes it, with `del` in
/// the place of `add`; both name the mark and the table. The route leads everything to
/// the machine itself through the same table, which is flushed to take it back.
#[verifier::rlimit(40)]
pub proof fn law_policy_is_taken_back(v4: bool, s: SettingsView)
    ensures
        ({
            let add = netfilter::rule_command(v4, Op::Add, s);
            let del = netfilter::rule_command(v4, Op::Del, s);
            let at: int = if v4 {
                2
            } else {
                3
            };
            &&& add.len() == at + 5 && add[0] == "ip"@ && (!v4 ==> add[1] == "-6"@)
            &&& add[at - 1] == "rule"@ && add[at] == "add"@
            &&& add[at + 1] == "fwmark"@ && add[at + 2] == "0x"@ + text::hex(s.proxy_fwmark as nat)
            &&& add[at + 3] == "lookup"@ && add[at + 4] == text::decimal(s.table_id as nat)
            &&& del == add.update(at, "del"@)
        }),
        ({
            let add = netfilter::route_command(v4, Op::Add, s);
            let del = netfilter::route_command(v4, Op::Del, s);
            let at: int = if v4 {
                1
            } else {
                2
            };
            &&& add[0] == "ip"@ && del[0] == "ip"@ && (!v4 ==> add[1] == "-6"@ && del[1] == "-6"@)
            &&& add.skip(at) == seq![
                "route"@,
                "add"@,
                "local"@,
                if v4 {
                    "0.0.0.0/0"@
                } else {
                    "::/0"@
                },
                "dev"@,
                "lo"@,
                "table"@,
                text::decimal(s.table_id as nat),
            ]
            &&& del.skip(at) == seq!["route"@, "flush"@, "table"@, text::decimal(
                s.table_id as nat,
            )]
        }),
{
    let add = netfilter::rule_command(v4, Op::Add, s);
    let del = netfilter::rule_command(v4, Op::Del, s);
    if v4 {
        assert(del =~= add.update(2, "del"@));
    } else {
        assert(del =~= add.update(3, "del"@));
    }
}

/// An installation runs the rule and the route of version 4, those of version 6, and then
/// applies the ruleset; what is removed is what was installed.
pub proof fn law_installations_go_step_by_step(s: SettingsView)
    ensures
        ({
            let run = |c: Seq<Seq<char>>| InstallAction::<Seq<char>, Seq<Seq<char>>>::Run(c);
            let first = InstallState::Policy(0);
            let second = netfilter::after_step(first, true);
            let third = netfilter::after_step(second, true);
            let fourth = netfilter::after_step(third, true);
            let last = netfilter::after_step(fourth, true);
            &&& netfilter::pending_step(first, s) == run(
                netfilter::rule_command(true, Op::Add, s),
            )
            &&& netfilter::pending_step(second, s) == run(
                netfilter::route_command(true, Op::Add, s),
            )
            &&& netfilter::pending_step(third, s) == run(
                netfilter::rule_command(false, Op::Add, s),
            )
            &&& netfilter::pending_step(fourth, s) == run(
                netfilter::route_command(false, Op::Add, s),
            )
            &&& netfilter::pending_step(last, s) == InstallAction::<
                Seq<char>,
                Seq<Seq<char>>,
            >::Apply(netfilter::ruleset(s))
            &&& netfilter::after_step(last, true) is Installed
            &&& netfilter::pending_step(InstallState::Installed, s) is Nothing
        }),
{
}

/// A step that fails undoes the commands that were run before it, from the first on, and
/// no others: what each undoes is the command of the same number.
pub proof fn law_failed_steps_are_undone_from_the_first(s: SettingsView, i: usize, next: usize, ok: bool)
    requires
        i < 4,
        next < i,
    ensures
        netfilter::after_step(InstallState::Policy(0), false) is PolicyFailed,
        i > 0 ==> netfilter::after_step(InstallState::Policy(i), false) == (InstallState::Undo {
            next: 0,
            done: i,
        }),
        netfilter::after_step(InstallState::Ruleset, false) == (InstallState::Undo {
            next: 0,
            done: 4,
        }),
        ({
            let undo = InstallState::Undo { next, done: i };
            &&& netfilter::pending_step(undo, s) == InstallAction::<Seq<char>, Seq<Seq<char>>>::Run(
                if next == 0 {
                    netfilter::rule_command(true, Op::Del, s)
                } else if next == 1 {
                    netfilter::route_command(true, Op::Del, s)
                } else {
                    netfilter::rule_command(false, Op::Del, s)
                },
            )
            &&& next + 1 < i ==> netfilter::after_step(undo, ok) == (InstallState::Undo {
                next: (next + 1) as usize,
                done: i,
            })
            &&& next + 1 == i ==> netfilter::after_step(undo, ok) is PolicyFailed
        }),
        netfilter::after_step(InstallState::Undo { next: 3, done: 4 }, ok) is RulesetFailed,
{
}

/// Routing is taken down table first, and then, where it was installed, command by
/// command, in the order in which they were run.
pub proof fn law_removals_take_everything_back(s: SettingsView)
    ensures
        ({
            let r = netfilter::removal(Some(s));
            let run = |c: Seq<Seq<char>>| InstallAction::<Seq<char>, Seq<Seq<char>>>::Run(c);
            &&& r.len() == 5
            &&& r[0] == InstallAction::<Seq<char>, Seq<Seq<char>>>::Apply(
                "delete table inet myproxy"@,
            )
            &&& r[1] == run(netfilter::rule_command(true, Op::Del, s))
            &&& r[2] == run(netfilter::route_command(true, Op::Del, s))
            &&& r[3] == run(netfilter::rule_command(false, Op::Del, s))
            &&& r[4] == run(netfilter::route_command(false, Op::Del, s))
            &&& netfilter::removal(None) == r.take(1)
        }),
{
    assert(netfilter::removal(None) =~= netfilter::removal(Some(s)).take(1));
}

/// The text holds the part.
pub open spec fn has_part(s: Seq<char>, part: Seq<char>) -> bool {
    exists|a: Seq<char>, b: Seq<char>| s == #[trigger] (a + part + b)
}

proof fn lemma_part(s: Seq<char>, part: Seq<char>, a: Seq<char>, b: Seq<char>)
    requires
        s =~= a + part + b,
    ensures
        has_part(s, part),
{
    assert(s == a + part + b);
}

/// A rule is one line: it leaves a packet alone by returning, and intercepts it by going
/// to the chain of its hook. Rules are written one after the other.
pub proof fn law_rules_are_written_line_by_line(
    rules: Seq<Rule>,
    n: nat,
    hook: Hook,
    mark: Seq<char>,
    uid: u32,
)
    ensures
        ({
            let goal = if hook is Prerouting {
                "divert"@
            } else {
                "remark"@
            };
            &&& netfilter::rule_text(Rule::Marked, hook, mark) == "\t\tmeta mark "@ + mark
                + " return\n"@
            &&& netfilter::rule_text(Rule::OwnedBy(uid), hook, mark) == "\t\tmeta skuid "@
                + text::decimal(uid as nat) + " return\n"@
            &&& netfilter::rule_text(Rule::UdpQueries, hook, mark) == "\t\tudp dport 53 goto "@
                + goal + "\n"@
            &&& netfilter::rule_text(Rule::TcpQueries, hook, mark) == "\t\ttcp dport 53 goto "@
                + goal + "\n"@
            &&& netfilter::rule_text(Rule::BypassV4, hook, mark)
                == "\t\tip daddr @bypass_v4 return\n"@
            &&& netfilter::rule_text(Rule::BypassV6, hook, mark)
                == "\t\tip6 daddr @bypass_v6 return\n"@
            &&& netfilter::rule_text(Rule::Rest, hook, mark) == "\t\tgoto "@ + goal + "\n"@
        }),
        netfilter::rules_text(rules, 0, hook, mark).len() == 0,
        netfilter::rules_text(rules, n + 1, hook, mark) == netfilter::rules_text(
            rules,
            n,
            hook,
            mark,
        ) + netfilter::rule_text(rules[n as int], hook, mark),
{
}

/// The ruleset diverts to the port with the mark, marks what leaves with the same mark,
/// lists the bypassed subnets of both families, and has the lines of both chains behind
/// their hooks.
#[verifier::rlimit(40)]
pub proof fn law_rulesets_hold_port_mark_and_subnets(s: SettingsView)
    ensures
        ({
            let r = netfilter::ruleset(s);
            let mark = "0x"@ + text::hex(s.proxy_fwmark as nat);
            let v4 = text::join(
                netfilter::merged(
                    s.bypass_subnets,
                    netfilter::local_bypass_v4(),
                    s.bypass_subnets.len(),
                ),
                ", "@,
            );
            let v6 = text::join(
                netfilter::merged(
                    s.bypass_subnets_v6,
                    netfilter::local_bypass_v6(),
                    s.bypass_subnets_v6.len(),
                ),
                ", "@,
            );
            let all = |hook: Hook|
                netfilter::rules_text(
                    netfilter::chain_rules(hook, s.core_uid),
                    netfilter::chain_rules(hook, s.core_uid).len(),
                    hook,
                    mark,
                );
            &&& has_part(
                r,
                " tproxy to :"@ + text::decimal(s.tproxy_port as nat) + " meta mark set "@ + mark,
            )
            &&& has_part(
                r,
                "\tset bypass_v4 {\n\t\ttype ipv4_addr\n\t\tflags interval\n\t\telements = { "@ + v4
                    + " }"@,
            )
            &&& has_part(
                r,
                "\tset bypass_v6 {\n\t\ttype ipv6_addr\n\t\tflags interval\n\t\telements = { "@ + v6
                    + " }"@,
            )
            &&& has_part(
                r,
                "type filter hook prerouting priority mangle; policy accept;\n"@ + all(
                    Hook::Prerouting,
                ),
            )
            &&& has_part(
                r,
                "type route hook output priority mangle; policy accept;\n"@ + all(Hook::Output),
            )
        }),
{
    lemma_literals();
    let mark = netfilter::mark_text(s.proxy_fwmark);
    lemma_sets(s);
    lemma_captures(s);
    let pre = netfilter::chain_text(Hook::Prerouting, s);
    let out = netfilter::chain_text(Hook::Output, s);
    let x0 = "table inet myproxy {\n"@;
    let x1 = x0 + netfilter::bypass_sets(s);
    let x2 = x1 + netfilter::capture_chains(s);
    let pre_open = "\tchain prerouting {\n\t\t"@;
    let pre_hook = "type filter hook prerouting priority mangle; policy accept;\n"@;
    let x3 = x2 + (pre_open + pre_hook);
    let x4 = x3 + pre;
    let out_open = "\t}\n\tchain output {\n\t\t"@;
    let out_hook = "type route hook output priority mangle; policy accept;\n"@;
    let x5 = x4 + (out_open + out_hook);
    let x6 = x5 + out;
    let close = "\t}\n}\n"@;
    assert(netfilter::ruleset(s) == x6 + close);
    let set4 = "\tset bypass_v4 {\n\t\ttype ipv4_addr\n\t\tflags interval\n\t\telements = { "@
        + netfilter::set_text(s.bypass_subnets, netfilter::local_bypass_v4()) + " }"@;
    let set6 = "\tset bypass_v6 {\n\t\ttype ipv6_addr\n\t\tflags interval\n\t\telements = { "@
        + netfilter::set_text(s.bypass_subnets_v6, netfilter::local_bypass_v6()) + " }"@;
    let divert = " tproxy to :"@ + text::decimal(s.tproxy_port as nat) + " meta mark set "@ + mark;
    lemma_right(x0, netfilter::bypass_sets(s), set4);
    lemma_right(x0, netfilter::bypass_sets(s), set6);
    lemma_left(x1, netfilter::capture_chains(s), set4);
    lemma_left(x1, netfilter::capture_chains(s), set6);
    lemma_right(x1, netfilter::capture_chains(s), divert);
    lemma_tail(x2, pre_open + pre_hook, pre, out_open + out_hook, out, close, set4);
    lemma_tail(x2, pre_open + pre_hook, pre, out_open + out_hook, out, close, set6);
    lemma_tail(x2, pre_open + pre_hook, pre, out_open + out_hook, out, close, divert);
    lemma_part(x4, pre_hook + pre, x2 + pre_open, Seq::empty());
    lemma_left(x4, out_open + out_hook, pre_hook + pre);
    lemma_left(x5, out, pre_hook + pre);
    lemma_left(x6, close, pre_hook + pre);
    lemma_part(x6, out_hook + out, x4 + out_open, Seq::empty());
    lemma_left(x6, close, out_hook + out);
}

proof fn lemma_left(a: Seq<char>, b: Seq<char>, part: Seq<char>)
    requires
        has_part(a, part),
    ensures
        has_part(a + b, part),
{
    let (x, y) = choose|x: Seq<char>, y: Seq<char>| a == #[trigger] (x + part + y);
    lemma_part(a + b, part, x, y + b);
}

proof fn lemma_right(a: Seq<char>, b: Seq<char>, part: Seq<char>)
    requires
        has_part(b, part),
    ensures
        has_part(a + b, part),
{
    let (x, y) = choose|x: Seq<char>, y: Seq<char>| b == #[trigger] (x + part + y);
    lemma_part(a + b, part, a + x, y);
}

proof fn lemma_tail(
    s: Seq<char>,
    a: Seq<char>,
    b: Seq<char>,
    c: Seq<char>,
    d: Seq<char>,
    e: Seq<char>,
    part: Seq<char>,
)
    requires
        has_part(s, part),
    ensures
        has_part(s + a + b + c + d + e, part),
{
    lemma_left(s, a, part);
    lemma_left(s + a, b, part);
    lemma_left(s + a + b, c, part);
    lemma_left(s + a + b + c, d, part);
    lemma_left(s + a + b + c + d, e, part);
}

#[verifier::rlimit(40)]
proof fn lemma_sets(s: SettingsView)
    ensures
        has_part(
            netfilter::bypass_sets(s),
            "\tset bypass_v4 {\n\t\ttype ipv4_addr\n\t\tflags interval\n\t\telements = { "@
                + netfilter::set_text(s.bypass_subnets, netfilter::local_bypass_v4()) + " }"@,
        ),
        has_part(
            netfilter::bypass_sets(s),
            "\tset bypass_v6 {\n\t\ttype ipv6_addr\n\t\tflags interval\n\t\telements = { "@
                + netfilter::set_text(s.bypass_subnets_v6, netfilter::local_bypass_v6()) + " }"@,
        ),
{
    lemma_literals();
    let four = "\tset bypass_v4 {\n\t\ttype ipv4_addr\n\t\tflags interval\n\t\telements = { "@;
    let six = "\tset bypass_v6 {\n\t\ttype ipv6_addr\n\t\tflags interval\n\t\telements = { "@;
    let (one, end) = (" }"@, "\n\t}\n"@);
    let v4 = netfilter::set_text(s.bypass_subnets, netfilter::local_bypass_v4());
    let v6 = netfilter::set_text(s.bypass_subnets_v6, netfilter::local_bypass_v6());
    let head = four + v4;
    let both = head + ((one + end) + six);
    assert(netfilter::bypass_sets(s) == both + v6 + (one + end));
    lemma_part(both, head + one, Seq::empty(), end + six);
    lemma_left(both, v6, head + one);
    lemma_left(both + v6, one + end, head + one);
    let tail = six + v6 + one;
    lemma_part(both + v6 + (one + end), tail, head + (one + end), end);
}

#[verifier::rlimit(40)]
proof fn lemma_captures(s: SettingsView)
    ensures
        has_part(
            netfilter::capture_chains(s),
            " tproxy to :"@ + text::decimal(s.tproxy_port as nat) + " meta mark set "@
                + netfilter::mark_text(s.proxy_fwmark),
        ),
{
    lemma_literals();
    let open = "\tchain divert {\n\t\tmeta l4proto { tcp, udp }"@;
    let to = " tproxy to :"@;
    let port = text::decimal(s.tproxy_port as nat);
    let set_mark = " meta mark set "@;
    let mark = netfilter::mark_text(s.proxy_fwmark);
    let remark =
        " accept\n\t}\n\tchain remark {\n\t\tmeta l4proto { tcp, udp } meta mark set "@;
    let end = " accept\n\t}\n"@;
    let head = (open + to) + port + set_mark + mark;
    let part = to + port + set_mark + mark;
    assert(netfilter::capture_chains(s) == head + remark + mark + end);
    lemma_part(head, part, open, Seq::empty());
    lemma_left(head, remark, part);
    lemma_left(head + remark, mark, part);
    lemma_left(head + remark + mark, end, part);
}

/// How the longer texts of the ruleset are made up.
proof fn lemma_literals()
    ensures
        "\tchain divert {\n\t\tmeta l4proto { tcp, udp } tproxy to :"@
            == "\tchain divert {\n\t\tmeta l4proto { tcp, udp }"@ + " tproxy to :"@,
        " }\n\t}\n\tset bypass_v6 {\n\t\ttype ipv6_addr\n\t\tflags interval\n\t\telements = { "@
            == " }\n\t}\n"@
            + "\tset bypass_v6 {\n\t\ttype ipv6_addr\n\t\tflags interval\n\t\telements = { "@,
        " }\n\t}\n"@ == " }"@ + "\n\t}\n"@,
        "\tchain prerouting {\n\t\ttype filter hook prerouting priority mangle; policy accept;\n"@
            == "\tchain prerouting {\n\t\t"@
            + "type filter hook prerouting priority mangle; policy accept;\n"@,
        "\t}\n\tchain output {\n\t\ttype route hook output priority mangle; policy accept;\n"@
            == "\t}\n\tchain output {\n\t\t"@
            + "type route hook output priority mangle; policy accept;\n"@,
{
    reveal_strlit("\tchain divert {\n\t\tmeta l4proto { tcp, udp } tproxy to :");
    reveal_strlit("\tchain divert {\n\t\tmeta l4proto { tcp, udp }");
    reveal_strlit(" tproxy to :");
    reveal_strlit(
        " }\n\t}\n\tset bypass_v6 {\n\t\ttype ipv6_addr\n\t\tflags interval\n\t\telements = { ",
    );
    reveal_strlit(" }\n\t}\n");
    reveal_strlit("\tset bypass_v6 {\n\t\ttype ipv6_addr\n\t\tflags interval\n\t\telements = { ");
    reveal_strlit(" }");
    reveal_strlit("\n\t}\n");
    reveal_strlit(
        "\tchain prerouting {\n\t\ttype filter hook prerouting priority mangle; policy accept;\n",
    );
    reveal_strlit("\tchain prerouting {\n\t\t");
    reveal_strlit("type filter hook prerouting priority mangle; policy accept;\n");
    reveal_strlit(
        "\t}\n\tchain output {\n\t\ttype route hook output priority mangle; policy accept;\n",
    );
    reveal_strlit("\t}\n\tchain output {\n\t\t");
    reveal_strlit("type route hook output priority mangle; policy accept;\n");
    assert("\tchain divert {\n\t\tmeta l4proto { tcp, udp } tproxy to :"@
        =~= "\tchain divert {\n\t\tmeta l4proto { tcp, udp }"@ + " tproxy to :"@);
    assert(" }\n\t}\n\tset bypass_v6 {\n\t\ttype ipv6_addr\n\t\tflags interval\n\t\telements = { "@
        =~= " }\n\t}\n"@
        + "\tset bypass_v6 {\n\t\ttype ipv6_addr\n\t\tflags interval\n\t\telements = { "@);
    assert(" }\n\t}\n"@ =~= " }"@ + "\n\t}\n"@);
    assert("\tchain prerouting {\n\t\ttype filter hook prerouting priority mangle; policy accept;\n"@
        =~= "\tchain prerouting {\n\t\t"@
        + "type filter hook prerouting priority mangle; policy accept;\n"@);
    assert("\t}\n\tchain output {\n\t\ttype route hook output priority mangle; policy accept;\n"@
        =~= "\t}\n\tchain output {\n\t\t"@
        + "type route hook output priority mangle; policy accept;\n"@);
}

// ---------------------------------------------------------------------------
// Subnets
// ---------------------------------------------------------------------------

proof fn lemma_dec(n: nat)
    requires
        n < 256,
    ensures
        cidr::number(text::decimal(n), 3, 255) == Some(n),
        n <= 32 ==> cidr::number(text::decimal(n), 2, 32) == Some(n),
        forall|i: int|
            0 <= i < text::decimal(n).len() ==> '0' <= #[trigger] text::decimal(n)[i] <= '9',
{
    laws::text::lemma_decimal(n);
    reveal_with_fuel(text::number_text, 3);
}

/// An IPv4 subnet that is shown is read back.
#[verifier::rlimit(40)]
pub proof fn law_subnets_are_read_back(octets: Seq<u8>, len: u8)
    requires
        octets.len() == 4,
        len <= 32,
    ensures
        cidr::ipv4_net(ip::ipv4_text(octets) + "/"@ + text::decimal(len as nat)) == Some(
            (octets, len),
        ),
{
    reveal_strlit("/");
    let head = ip::ipv4_text(octets);
    let tail = text::decimal(len as nat);
    let parts = seq![
        text::decimal(octets[0] as nat),
        text::decimal(octets[1] as nat),
        text::decimal(octets[2] as nat),
        text::decimal(octets[3] as nat),
    ];
    lemma_dec(octets[0] as nat);
    lemma_dec(octets[1] as nat);
    lemma_dec(octets[2] as nat);
    lemma_dec(octets[3] as nat);
    lemma_dec(len as nat);
    reveal_with_fuel(text::join, 5);
    assert(text::join(parts, seq!['.']) =~= head);
    assert forall|i: int| 0 <= i < 4 implies !laws::text::holds(#[trigger] parts[i], '.') by {}
    laws::text::law_joined_parts_are_split_again(parts, '.');
    let both = seq![head, tail];
    assert(text::join(both, seq!['/']) =~= head + "/"@ + tail);
    assert forall|i: int| 0 <= i < 2 implies !laws::text::holds(#[trigger] both[i], '/') by {
        if i == 0 {
            assert forall|k: int| 0 <= k < head.len() implies head[k] != '/' by {}
        }
    }
    laws::text::law_joined_parts_are_split_again(both, '/');
    assert forall|i: int| 0 <= i < 4 implies cidr::number(#[trigger] parts[i], 3, 255) is Some by {}
    assert(cidr::dotted(head)->0 =~= octets);
}

proof fn lemma_cidr_groups(s: Seq<u16>, dotted_end: bool)
    ensures
        cidr::groups(ip::segments_text(s), dotted_end) == Some(s),
{
    laws::address::lemma_no_double(s);
    if s.len() == 0 {
        assert(s =~= Seq::empty());
    } else {
        let parts = laws::address::groups_of(s);
        laws::address::lemma_segments_text(s);
        assert forall|i: int| 0 <= i < parts.len() implies !laws::text::holds(
            #[trigger] parts[i],
            ':',
        ) && ip::segment(parts[i]) == Some(s[i]) by {
            laws::address::lemma_group(s, i);
        }
        laws::text::law_joined_parts_are_split_again(parts, ':');
        laws::address::lemma_group(s, s.len() - 1);
        lemma_no_dots(parts.last());
        assert(cidr::hex_groups(parts)->0 =~= s);
    }
}

proof fn lemma_no_dots(s: Seq<char>)
    requires
        forall|k: int| 0 <= k < s.len() ==> laws::address::is_hex_char(#[trigger] s[k]),
    ensures
        cidr::dotted(s) is None,
{
    text::lemma_next_char(s, '.', 0);
    let end = text::next_char(s, '.', 0);
    if end < s.len() {
        assert(laws::address::is_hex_char(s[end]));
    }
    assert(text::fields(s, '.') =~= seq![s]);
}

proof fn lemma_cidr_gap(a: Seq<u16>, b: Seq<u16>)
    requires
        a.len() + b.len() <= 7,
    ensures
        cidr::segments(ip::segments_text(a) + seq![':', ':'] + ip::segments_text(b)) == Some(
            a + Seq::new((8 - a.len() - b.len()) as nat, |i: int| 0u16) + b,
        ),
{
    laws::address::lemma_no_double(a);
    laws::address::lemma_double(ip::segments_text(a), ip::segments_text(b));
    lemma_cidr_groups(a, false);
    lemma_cidr_groups(b, true);
}

proof fn lemma_cidr_full(s: Seq<u16>)
    requires
        s.len() == 8,
    ensures
        cidr::segments(ip::segments_text(s)) == Some(s),
{
    let mark = seq![':', ':'];
    let t = ip::segments_text(s);
    laws::address::lemma_no_double(s);
    laws::text::law_splitting_once_takes_the_first_occurrence(t, mark);
    if let Some((head, tail)) = text::split_once(t, mark) {
        let h = head.len() as int;
        assert(t[h] == ':' && t[h + 1] == ':');
    }
    lemma_cidr_groups(s, true);
}

#[verifier::rlimit(40)]
proof fn lemma_cidr_segments(s: Seq<u16>)
    requires
        s.len() == 8,
    ensures
        cidr::segments(ip::ipv6_text(s)) == Some(s),
{
    if (forall|i: int| 0 <= i < 5 ==> s[i] == 0) && s[5] == 0xffff {
        lemma_cidr_mapped(s);
    } else {
        let start = ip::best_run(s, 7);
        let len = ip::zero_run(s, start) as int;
        laws::address::law_the_longest_run_is_left_out(s, 7, 0);
        laws::address::lemma_zero_run(s, start);
        if len > 1 {
            let a = s.take(start);
            let b = s.skip(start + len);
            assert("::"@ =~= seq![':', ':']) by {
                reveal_strlit("::");
            }
            lemma_cidr_gap(a, b);
            assert(a + Seq::new((8 - a.len() - b.len()) as nat, |i: int| 0u16) + b =~= s);
        } else {
            lemma_cidr_full(s);
        }
    }
}

proof fn lemma_cidr_dotted(o: Seq<u8>)
    requires
        o.len() == 4,
    ensures
        cidr::dotted(ip::ipv4_text(o)) == Some(o),
{
    laws::address::lemma_dotted(o);
    let parts = text::fields(ip::ipv4_text(o), '.');
    lemma_dec(o[0] as nat);
    lemma_dec(o[1] as nat);
    lemma_dec(o[2] as nat);
    lemma_dec(o[3] as nat);
    assert forall|i: int| 0 <= i < 4 implies cidr::number(#[trigger] parts[i], 3, 255) is Some by {}
    assert(cidr::dotted(ip::ipv4_text(o))->0 =~= o);
}

#[verifier::rlimit(40)]
proof fn lemma_cidr_end(f: Seq<char>, v: u16, o: Seq<u8>)
    requires
        ip::segment(f) == Some(v),
        !laws::text::holds(f, ':'),
        o.len() == 4,
    ensures
        cidr::groups(f + seq![':'] + ip::ipv4_text(o), true) == Some(
            seq![v] + seq![(o[0] * 256 + o[1]) as u16, (o[2] * 256 + o[3]) as u16],
        ),
{
    let d = ip::ipv4_text(o);
    let tail = f + seq![':'] + d;
    let parts = seq![f, d];
    laws::address::lemma_dotted_chars(o);
    lemma_cidr_dotted(o);
    assert(!laws::text::holds(d, ':'));
    assert(text::join(parts, seq![':']) =~= tail) by {
        reveal_with_fuel(text::join, 3);
    }
    assert forall|i: int| 0 <= i < 2 implies !laws::text::holds(#[trigger] parts[i], ':') by {}
    laws::text::law_joined_parts_are_split_again(parts, ':');
    let head = parts.drop_last();
    assert(head =~= seq![f]);
    assert(cidr::hex_groups(head) is Some);
    assert(cidr::hex_groups(head)->0 =~= seq![v]);
    assert(parts.last() == d);
}

#[verifier::rlimit(40)]
proof fn lemma_cidr_mapped(s: Seq<u16>)
    requires
        s.len() == 8,
        forall|i: int| 0 <= i < 5 ==> s[i] == 0,
        s[5] == 0xffff,
    ensures
        cidr::segments(ip::ipv6_text(s)) == Some(s),
{
    let o = seq![
        (s[6] / 256) as u8,
        (s[6] % 256) as u8,
        (s[7] / 256) as u8,
        (s[7] % 256) as u8,
    ];
    let d = ip::ipv4_text(o);
    let empty = Seq::<char>::empty();
    let f = seq!['f', 'f', 'f', 'f'];
    let tail = f + seq![':'] + d;
    assert("::ffff:"@ + d =~= empty + seq![':', ':'] + tail) by {
        reveal_strlit("::ffff:");
    }
    laws::address::lemma_double(empty, tail);
    laws::address::lemma_all_ones();
    lemma_cidr_end(f, 0xffff, o);
    assert(o[0] * 256 + o[1] == s[6] && o[2] * 256 + o[3] == s[7]);
    let got = seq![0xffffu16] + seq![s[6], s[7]];
    assert(cidr::groups(tail, true) == Some(got));
    assert(cidr::groups(empty, false) == Some(Seq::<u16>::empty()));
    assert(Seq::<u16>::empty() + Seq::new(5, |i: int| 0u16) + got =~= s);
}

/// An IPv6 subnet that is shown is read back.
#[verifier::rlimit(40)]
pub proof fn law_subnets_of_segments_are_read_back(s: Seq<u16>, len: u8)
    requires
        s.len() == 8,
        len <= 128,
    ensures
        cidr::ipv6_net(ip::ipv6_text(s) + "/"@ + text::decimal(len as nat)) == Some((s, len)),
{
    reveal_strlit("/");
    let head = ip::ipv6_text(s);
    let tail = text::decimal(len as nat);
    lemma_cidr_segments(s);
    laws::text::lemma_decimal(len as nat);
    assert(cidr::number(tail, 3, 128) == Some(len as nat)) by {
        reveal_with_fuel(text::number_text, 3);
    }
    let both = seq![head, tail];
    assert(text::join(both, seq!['/']) =~= head + "/"@ + tail) by {
        reveal_with_fuel(text::join, 3);
    }
    assert forall|i: int| 0 <= i < 2 implies !laws::text::holds(#[trigger] both[i], '/') by {
        if i == 0 {
            assert forall|k: int| 0 <= k < head.len() implies head[k] != '/' by {
                laws::address::law_addresses_hold_no_white_space(ip::IpView::V6(s), k);
            }
        }
    }
    laws::text::law_joined_parts_are_split_again(both, '/');
}

/// A frame begins with the length of its payload in four bytes, the most significant one
/// first, and the payload follows as it is. A payload is framed up to sixty-four
/// kibibytes; of longer ones the length is reported.
pub proof fn law_frames_begin_with_their_length(
    payload: Seq<u8>,
    a: u8,
    b: u8,
    c: u8,
    d: u8,
)
    requires
        payload.len() == ((a * 256 + b) * 256 + c) * 256 + d,
    ensures
        payload.len() <= 65536 ==> proto::frame(payload) == Ok::<Seq<u8>, FrameError>(
            seq![a, b, c, d] + payload,
        ),
        payload.len() > 65536 ==> proto::frame(payload) == Err::<Seq<u8>, FrameError>(
            FrameError::TooLarge(payload.len() as usize),
        ),
{
    if payload.len() <= 65536 {
        let n = payload.len();
        assert(n / 0x1000000 % 256 == a && n / 0x10000 % 256 == b && n / 0x100 % 256 == c && n
            % 256 == d);
        assert(proto::length_bytes(n) =~= seq![a, b, c, d]);
    }
}

/// The head of a frame is read the same way. It is refused where it stands for nothing or
/// for more than sixty-four kibibytes, and the length is reported then.
pub proof fn law_heads_give_the_length(a: u8, b: u8, c: u8, d: u8)
    ensures
        ({
            let n = ((a * 256 + b) * 256 + c) * 256 + d;
            let read = proto::checked_length(seq![a, b, c, d]);
            &&& 1 <= n <= 65536 ==> read == Ok::<nat, FrameError>(n as nat)
            &&& !(1 <= n <= 65536) ==> read == Err::<nat, FrameError>(
                FrameError::InvalidLength(n as usize),
            )
        }),
{
}

/// Sessions are numbered one after the other, and after the largest number zero follows.
pub proof fn law_sessions_are_numbered_in_turn(c: SessionCounter)
    ensures
        c.next < u64::MAX ==> daemon::number_after(c).next == c.next + 1,
        c.next == u64::MAX ==> daemon::number_after(c).next == 0,
{
}

/// What the chains do to a packet: the core's own packets pass, of the others those to
/// port 53 are intercepted over TCP and UDP, the rest of TCP and UDP is where it goes to
/// no bypassed subnet, and nothing else is.
pub proof fn law_packets_are_intercepted(hook: Hook, uid: Option<u32>, p: Packet)
    ensures
        ({
            let own = p.marked || (hook == Hook::Output && uid == Some(p.owner));
            let bypassed = p.bypassed_v4 || p.bypassed_v6;
            netfilter::is_intercepted(netfilter::chain_rules(hook, uid), 0, p) == (!own && (p.tcp
                || p.udp) && (p.port == 53 || !bypassed))
        }),
{
    reveal_with_fuel(netfilter::is_intercepted, 8);
}

} // verus!
