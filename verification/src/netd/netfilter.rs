//! Policy routing and packet filter rules for transparent interception.
use crate::netd::daemon::{RoutingConfig, RoutingView};
use crate::text;
use vstd::prelude::*;
use vstd::string::*;

verus! {

/// Settings that the routing backends operate on, as texts that can be rendered.
#[derive(Clone, Debug, PartialEq, Eq)]
pub struct TProxySettings<L = Vec<String>> {
    pub tproxy_port: u16,
    pub proxy_fwmark: u32,
    pub table_id: u32,
    pub dns_ipv4: Option<[u8; 4]>,
    pub bypass_subnets: L,
    pub bypass_subnets_v6: L,
    pub core_uid: Option<u32>,
}

/// The model of the settings.
pub type SettingsView = TProxySettings<Seq<Seq<char>>>;

impl View for TProxySettings {
    type V = TProxySettings<Seq<Seq<char>>>;

    open spec fn view(&self) -> TProxySettings<Seq<Seq<char>>> {
        TProxySettings {
            tproxy_port: self.tproxy_port,
            proxy_fwmark: self.proxy_fwmark,
            table_id: self.table_id,
            dns_ipv4: self.dns_ipv4,
            bypass_subnets: text::texts_of(self.bypass_subnets@),
            bypass_subnets_v6: text::texts_of(self.bypass_subnets_v6@),
            core_uid: self.core_uid,
        }
    }
}

// ---------------------------------------------------------------------------
// Model
// ---------------------------------------------------------------------------

/// The settings for a validated configuration.
pub open spec fn settings_for(c: RoutingView) -> SettingsView {
    TProxySettings {
        tproxy_port: c.tproxy_port,
        proxy_fwmark: c.proxy_fwmark,
        table_id: c.table_id,
        dns_ipv4: c.dns_ipv4,
        bypass_subnets: c.bypass_subnets.map_values(
            |n: (Seq<u8>, u8)| crate::netd::daemon::net4_text(n),
        ),
        bypass_subnets_v6: c.bypass_subnets_v6.map_values(
            |n: (Seq<u16>, u8)| crate::netd::daemon::net6_text(n),
        ),
        core_uid: c.core_uid,
    }
}

pub open spec fn local_bypass_v4() -> Seq<Seq<char>> {
    seq!["127.0.0.0/8"@, "169.254.0.0/16"@]
}

pub open spec fn local_bypass_v6() -> Seq<Seq<char>> {
    seq!["::1/128"@, "fe80::/10"@, "fc00::/7"@]
}

/// The default subnets, then each configured one that is not there yet.
pub open spec fn merged(configured: Seq<Seq<char>>, defaults: Seq<Seq<char>>, n: nat) -> Seq<
    Seq<char>,
>
    decreases n,
{
    if n == 0 {
        defaults
    } else {
        let before = merged(configured, defaults, (n - 1) as nat);
        if before.contains(configured[n - 1]) {
            before
        } else {
            before.push(configured[n - 1])
        }
    }
}

/// The subnets of a set as the rules list them.
pub open spec fn set_text(configured: Seq<Seq<char>>, defaults: Seq<Seq<char>>) -> Seq<char> {
    text::join(merged(configured, defaults, configured.len()), ", "@)
}

/// A mark in hexadecimal.
pub open spec fn mark_text(mark: u32) -> Seq<char> {
    "0x"@ + text::hex(mark as nat)
}

/// The hook that a chain stands on.
#[derive(Clone, Copy, Debug, PartialEq, Eq, Structural)]
pub enum Hook {
    /// Packets that come in.
    Prerouting,
    /// Packets that leave.
    Output,
}

/// A rule of a chain. The first one that applies to a packet decides.
#[derive(Clone, Copy, Debug, PartialEq, Eq, Structural)]
pub enum Rule {
    /// Packets that are marked already are left alone.
    Marked,
    /// Packets of the user are left alone.
    OwnedBy(u32),
    /// Name queries over UDP are intercepted.
    UdpQueries,
    /// Name queries over TCP are intercepted.
    TcpQueries,
    /// Packets to bypassed IPv4 subnets are left alone.
    BypassV4,
    /// Packets to bypassed IPv6 subnets are left alone.
    BypassV6,
    /// What is left is intercepted.
    Rest,
}

/// The chain that intercepted packets go to: those that come in are diverted to
/// the proxy, those that leave are marked, so that the policy rule leads them back
/// in.
pub open spec fn capture_chain(hook: Hook) -> Seq<char> {
    match hook {
        Hook::Prerouting => "divert"@,
        Hook::Output => "remark"@,
    }
}

/// The line of a rule.
pub open spec fn rule_text(rule: Rule, hook: Hook, mark: Seq<char>) -> Seq<char> {
    match rule {
        Rule::Marked => "\t\tmeta mark "@ + mark + " return\n"@,
        Rule::OwnedBy(uid) => "\t\tmeta skuid "@ + text::decimal(uid as nat) + " return\n"@,
        Rule::UdpQueries => "\t\tudp dport 53 goto "@ + capture_chain(hook) + "\n"@,
        Rule::TcpQueries => "\t\ttcp dport 53 goto "@ + capture_chain(hook) + "\n"@,
        Rule::BypassV4 => "\t\tip daddr @bypass_v4 return\n"@,
        Rule::BypassV6 => "\t\tip6 daddr @bypass_v6 return\n"@,
        Rule::Rest => "\t\tgoto "@ + capture_chain(hook) + "\n"@,
    }
}

/// The rules of a chain. The core's own packets are left alone, by their mark and,
/// where they leave, by their user. Name queries are intercepted before the
/// bypassed subnets are left alone, so that none of them leaks to a resolver there.
pub open spec fn chain_rules(hook: Hook, uid: Option<u32>) -> Seq<Rule> {
    let own = match (hook, uid) {
        (Hook::Output, Some(n)) => seq![Rule::Marked, Rule::OwnedBy(n)],
        _ => seq![Rule::Marked],
    };
    own + seq![
        Rule::UdpQueries,
        Rule::TcpQueries,
        Rule::BypassV4,
        Rule::BypassV6,
        Rule::Rest,
    ]
}

/// The lines of the first `n` rules.
pub open spec fn rules_text(rules: Seq<Rule>, n: nat, hook: Hook, mark: Seq<char>) -> Seq<char>
    decreases n,
{
    if n == 0 {
        Seq::empty()
    } else {
        rules_text(rules, (n - 1) as nat, hook, mark) + rule_text(rules[n - 1], hook, mark)
    }
}

/// The lines of a chain.
pub open spec fn chain_text(hook: Hook, s: SettingsView) -> Seq<char> {
    let rules = chain_rules(hook, s.core_uid);
    rules_text(rules, rules.len(), hook, mark_text(s.proxy_fwmark))
}

/// What the rules look at in a packet.
#[derive(Clone, Copy, Debug, PartialEq, Eq, Structural)]
pub struct Packet {
    pub tcp: bool,
    pub udp: bool,
    /// The port that it goes to.
    pub port: u16,
    /// It goes to a bypassed IPv4 subnet.
    pub bypassed_v4: bool,
    /// It goes to a bypassed IPv6 subnet.
    pub bypassed_v6: bool,
    pub marked: bool,
    /// The user that sends it.
    pub owner: u32,
}

/// The rule applies to the packet.
pub open spec fn applies(rule: Rule, p: Packet) -> bool {
    match rule {
        Rule::Marked => p.marked,
        Rule::OwnedBy(uid) => p.owner == uid,
        Rule::UdpQueries => p.udp && p.port == 53,
        Rule::TcpQueries => p.tcp && p.port == 53,
        Rule::BypassV4 => p.bypassed_v4,
        Rule::BypassV6 => p.bypassed_v6,
        Rule::Rest => true,
    }
}

/// The rules from position `i` on intercept the packet: the first one that applies
/// leads to the capture chain, and that takes TCP and UDP.
pub open spec fn is_intercepted(rules: Seq<Rule>, i: int, p: Packet) -> bool
    decreases rules.len() - i,
{
    if i < 0 || i >= rules.len() {
        false
    } else if !applies(rules[i], p) {
        is_intercepted(rules, i + 1, p)
    } else {
        match rules[i] {
            Rule::UdpQueries | Rule::TcpQueries | Rule::Rest => p.tcp || p.udp,
            _ => false,
        }
    }
}

/// The chains that intercepted packets go to.
pub open spec fn capture_chains(s: SettingsView) -> Seq<char> {
    let mark = mark_text(s.proxy_fwmark);
    "\tchain divert {\n\t\tmeta l4proto { tcp, udp } tproxy to :"@ + text::decimal(
        s.tproxy_port as nat,
    ) + " meta mark set "@ + mark
        + " accept\n\t}\n\tchain remark {\n\t\tmeta l4proto { tcp, udp } meta mark set "@ + mark
        + " accept\n\t}\n"@
}

/// The sets of bypassed subnets.
pub open spec fn bypass_sets(s: SettingsView) -> Seq<char> {
    "\tset bypass_v4 {\n\t\ttype ipv4_addr\n\t\tflags interval\n\t\telements = { "@ + set_text(
        s.bypass_subnets,
        local_bypass_v4(),
    ) + " }\n\t}\n\tset bypass_v6 {\n\t\ttype ipv6_addr\n\t\tflags interval\n\t\telements = { "@
        + set_text(s.bypass_subnets_v6, local_bypass_v6()) + " }\n\t}\n"@
}

/// The ruleset for the settings.
pub open spec fn ruleset(s: SettingsView) -> Seq<char> {
    "table inet myproxy {\n"@ + bypass_sets(s) + capture_chains(s)
        + "\tchain prerouting {\n\t\ttype filter hook prerouting priority mangle; policy accept;\n"@
        + chain_text(Hook::Prerouting, s)
        + "\t}\n\tchain output {\n\t\ttype route hook output priority mangle; policy accept;\n"@
        + chain_text(Hook::Output, s) + "\t}\n}\n"@
}

/// Name queries are captured before the bypasses: a packet to port 53 is
/// intercepted wherever it goes, unless it is the core's own.
pub proof fn law_queries_are_captured_before_bypasses(hook: Hook, uid: Option<u32>, p: Packet)
    requires
        p.tcp || p.udp,
        p.port == 53,
        !p.marked,
        hook == Hook::Output ==> uid != Some(p.owner),
    ensures
        is_intercepted(chain_rules(hook, uid), 0, p),
{
    reveal_with_fuel(is_intercepted, 8);
}

/// The core's own packets are left alone, name queries included, which breaks the
/// intercept loop: those with the mark in both chains, those of its user where they
/// leave.
pub proof fn law_own_packets_are_left_alone(hook: Hook, uid: Option<u32>, p: Packet)
    requires
        p.marked || (hook == Hook::Output && uid == Some(p.owner)),
    ensures
        !is_intercepted(chain_rules(hook, uid), 0, p),
{
    reveal_with_fuel(is_intercepted, 8);
}

/// Of all other packets, those over TCP or UDP are intercepted unless they go to a
/// bypassed subnet.
pub proof fn law_bypassed_subnets_are_left_alone(hook: Hook, uid: Option<u32>, p: Packet)
    requires
        p.port != 53,
        !p.marked,
        hook == Hook::Output ==> uid != Some(p.owner),
    ensures
        is_intercepted(chain_rules(hook, uid), 0, p) == ((p.tcp || p.udp) && !p.bypassed_v4
            && !p.bypassed_v6),
{
    reveal_with_fuel(is_intercepted, 8);
}

/// Whether a routing entry is added or deleted.
#[derive(Clone, Copy, Debug, PartialEq, Eq, Structural)]
pub enum Op {
    Add,
    Del,
}

pub open spec fn ip_command(v4: bool) -> Seq<Seq<char>> {
    if v4 {
        seq!["ip"@]
    } else {
        seq!["ip"@, "-6"@]
    }
}

/// The command that adds or deletes the policy rule of a family.
pub open spec fn rule_command(v4: bool, op: Op, s: SettingsView) -> Seq<Seq<char>> {
    ip_command(v4) + seq![
        "rule"@,
        if op == Op::Add {
            "add"@
        } else {
            "del"@
        },
        "fwmark"@,
        mark_text(s.proxy_fwmark),
        "lookup"@,
        text::decimal(s.table_id as nat),
    ]
}

/// The command that adds the local route of a family, or flushes its table.
pub open spec fn route_command(v4: bool, op: Op, s: SettingsView) -> Seq<Seq<char>> {
    let table = seq!["table"@, text::decimal(s.table_id as nat)];
    if op == Op::Add {
        ip_command(v4) + seq![
            "route"@,
            "add"@,
            "local"@,
            if v4 {
                "0.0.0.0/0"@
            } else {
                "::/0"@
            },
            "dev"@,
            "lo"@,
        ] + table
    } else {
        ip_command(v4) + seq!["route"@, "flush"@] + table
    }
}

/// The commands of the policy routing: rule and route of both families.
pub open spec fn policy_command(i: int, op: Op, s: SettingsView) -> Seq<Seq<char>> {
    if i == 0 {
        rule_command(true, op, s)
    } else if i == 1 {
        route_command(true, op, s)
    } else if i == 2 {
        rule_command(false, op, s)
    } else {
        route_command(false, op, s)
    }
}

// ---------------------------------------------------------------------------
// Executable forms
// ---------------------------------------------------------------------------

impl TProxySettings {
    /// The settings for a validated configuration.
    pub fn from_config(config: &RoutingConfig) -> (r: TProxySettings)
        ensures
            r@ == settings_for(config@),
    {
        let mut v4: Vec<String> = Vec::new();
        let ghost want4 = settings_for(config@).bypass_subnets;
        let mut i: usize = 0;
        while i < config.bypass_subnets.len()
            invariant
                i <= config.bypass_subnets@.len(),
                v4@.len() == i,
                want4 == settings_for(config@).bypass_subnets,
                forall|k: int| 0 <= k < i ==> (#[trigger] v4@[k])@ == want4[k],
            decreases config.bypass_subnets@.len() - i,
        {
            v4.push(config.bypass_subnets[i].to_text());
            assert(want4[i as int] == crate::netd::daemon::net4_text(
                config.bypass_subnets@[i as int]@,
            ));
            i += 1;
        }
        let mut v6: Vec<String> = Vec::new();
        let ghost want6 = settings_for(config@).bypass_subnets_v6;
        let mut j: usize = 0;
        while j < config.bypass_subnets_v6.len()
            invariant
                j <= config.bypass_subnets_v6@.len(),
                v6@.len() == j,
                want6 == settings_for(config@).bypass_subnets_v6,
                forall|k: int| 0 <= k < j ==> (#[trigger] v6@[k])@ == want6[k],
            decreases config.bypass_subnets_v6@.len() - j,
        {
            v6.push(config.bypass_subnets_v6[j].to_text());
            assert(want6[j as int] == crate::netd::daemon::net6_text(
                config.bypass_subnets_v6@[j as int]@,
            ));
            j += 1;
        }
        let r = TProxySettings {
            tproxy_port: config.tproxy_port,
            proxy_fwmark: config.proxy_fwmark,
            table_id: config.table_id,
            dns_ipv4: config.dns_ipv4,
            bypass_subnets: v4,
            bypass_subnets_v6: v6,
            core_uid: config.core_uid,
        };
        assert(r@.bypass_subnets =~= want4);
        assert(r@.bypass_subnets_v6 =~= want6);
        r
    }
}

fn has_text(list: &Vec<String>, s: &str) -> (r: bool)
    ensures
        r == text::texts_of(list@).contains(s@),
{
    let ghost all = text::texts_of(list@);
    let mut i: usize = 0;
    while i < list.len()
        invariant
            i <= list@.len(),
            all == text::texts_of(list@),
            forall|k: int| 0 <= k < i ==> all[k] != s@,
        decreases list@.len() - i,
    {
        assert(all[i as int] == list@[i as int]@);
        if text::same(list[i].as_str(), s) {
            return true;
        }
        i += 1;
    }
    false
}

/// The subnets of a set: the defaults and the configured ones without
/// repetition.
pub fn cidr_set(configured: &Vec<String>, defaults: &Vec<String>) -> (r: String)
    ensures
        r@ == set_text(text::texts_of(configured@), text::texts_of(defaults@)),
{
    let ghost from = text::texts_of(configured@);
    let ghost base = text::texts_of(defaults@);
    let mut cidrs = text::copy_texts(defaults);
    let mut i: usize = 0;
    while i < configured.len()
        invariant
            i <= configured@.len(),
            from == text::texts_of(configured@),
            base == text::texts_of(defaults@),
            text::texts_of(cidrs@) == merged(from, base, i as nat),
        decreases configured@.len() - i,
    {
        let ghost before = text::texts_of(cidrs@);
        assert(from[i as int] == configured@[i as int]@);
        if !has_text(&cidrs, configured[i].as_str()) {
            cidrs.push(configured[i].clone());
            assert(text::texts_of(cidrs@) =~= before.push(configured@[i as int]@));
        }
        i += 1;
    }
    text::join_texts(&cidrs, ", ")
}

/// The subnets that are never intercepted.
pub fn default_bypass_v4() -> (r: Vec<String>)
    ensures
        text::texts_of(r@) == local_bypass_v4(),
{
    let mut r: Vec<String> = Vec::new();
    r.push("127.0.0.0/8".to_owned());
    r.push("169.254.0.0/16".to_owned());
    assert(text::texts_of(r@) =~= local_bypass_v4());
    r
}

/// The IPv6 subnets that are never intercepted.
pub fn default_bypass_v6() -> (r: Vec<String>)
    ensures
        text::texts_of(r@) == local_bypass_v6(),
{
    let mut r: Vec<String> = Vec::new();
    r.push("::1/128".to_owned());
    r.push("fe80::/10".to_owned());
    r.push("fc00::/7".to_owned());
    assert(text::texts_of(r@) =~= local_bypass_v6());
    r
}

fn mark_of(mark: u32) -> (r: String)
    ensures
        r@ == mark_text(mark),
{
    let mut r = "0x".to_owned();
    r.append(text::hex_text(mark as u64).as_str());
    r
}

fn sets_of(settings: &TProxySettings) -> (r: String)
    ensures
        r@ == bypass_sets(settings@),
{
    let mut r =
        "\tset bypass_v4 {\n\t\ttype ipv4_addr\n\t\tflags interval\n\t\telements = { ".to_owned();
    r.append(cidr_set(&settings.bypass_subnets, &default_bypass_v4()).as_str());
    r.append(
        " }\n\t}\n\tset bypass_v6 {\n\t\ttype ipv6_addr\n\t\tflags interval\n\t\telements = { ",
    );
    r.append(cidr_set(&settings.bypass_subnets_v6, &default_bypass_v6()).as_str());
    r.append(" }\n\t}\n");
    r
}

fn captures_of(settings: &TProxySettings, mark: &str) -> (r: String)
    requires
        mark@ == mark_text(settings.proxy_fwmark),
    ensures
        r@ == capture_chains(settings@),
{
    let mut r = "\tchain divert {\n\t\tmeta l4proto { tcp, udp } tproxy to :".to_owned();
    r.append(text::decimal_text(settings.tproxy_port as u64).as_str());
    r.append(" meta mark set ");
    r.append(mark);
    r.append(
        " accept\n\t}\n\tchain remark {\n\t\tmeta l4proto { tcp, udp } meta mark set ",
    );
    r.append(mark);
    r.append(" accept\n\t}\n");
    r
}

fn capture_name(hook: Hook) -> (r: &'static str)
    ensures
        r@ == capture_chain(hook),
{
    match hook {
        Hook::Prerouting => "divert",
        Hook::Output => "remark",
    }
}

fn rule_line(rule: Rule, hook: Hook, mark: &str) -> (r: String)
    ensures
        r@ == rule_text(rule, hook, mark@),
{
    match rule {
        Rule::Marked => {
            let mut r = "\t\tmeta mark ".to_owned();
            r.append(mark);
            r.append(" return\n");
            r
        },
        Rule::OwnedBy(uid) => {
            let mut r = "\t\tmeta skuid ".to_owned();
            r.append(text::decimal_text(uid as u64).as_str());
            r.append(" return\n");
            r
        },
        Rule::UdpQueries => {
            let mut r = "\t\tudp dport 53 goto ".to_owned();
            r.append(capture_name(hook));
            r.append("\n");
            r
        },
        Rule::TcpQueries => {
            let mut r = "\t\ttcp dport 53 goto ".to_owned();
            r.append(capture_name(hook));
            r.append("\n");
            r
        },
        Rule::BypassV4 => "\t\tip daddr @bypass_v4 return\n".to_owned(),
        Rule::BypassV6 => "\t\tip6 daddr @bypass_v6 return\n".to_owned(),
        Rule::Rest => {
            let mut r = "\t\tgoto ".to_owned();
            r.append(capture_name(hook));
            r.append("\n");
            r
        },
    }
}

/// The rules of a chain, in order.
pub fn rules_of(hook: Hook, uid: Option<u32>) -> (r: Vec<Rule>)
    ensures
        r@ == chain_rules(hook, uid),
{
    let mut r: Vec<Rule> = Vec::new();
    r.push(Rule::Marked);
    if let (Hook::Output, Some(n)) = (hook, uid) {
        r.push(Rule::OwnedBy(n));
    }
    r.push(Rule::UdpQueries);
    r.push(Rule::TcpQueries);
    r.push(Rule::BypassV4);
    r.push(Rule::BypassV6);
    r.push(Rule::Rest);
    assert(r@ =~= chain_rules(hook, uid));
    r
}

fn chain_of(hook: Hook, settings: &TProxySettings, mark: &str) -> (r: String)
    requires
        mark@ == mark_text(settings.proxy_fwmark),
    ensures
        r@ == chain_text(hook, settings@),
{
    let rules = rules_of(hook, settings.core_uid);
    let mut r = String::new();
    let mut i: usize = 0;
    assert(r@ =~= Seq::empty());
    while i < rules.len()
        invariant
            i <= rules@.len(),
            r@ == rules_text(rules@, i as nat, hook, mark@),
        decreases rules@.len() - i,
    {
        r.append(rule_line(rules[i], hook, mark).as_str());
        i += 1;
    }
    r
}

/// Renders the ruleset as one transaction.
///
/// Packets that leave locally get the mark in the output hook, so that the policy
/// rule routes them into the proxy. Sockets that carry the mark already, the
/// core's own, are left alone, which breaks the loop. Intercepted sockets get the
/// same mark. Name queries are intercepted before the bypassed subnets are left
/// alone.
pub fn render_ruleset(settings: &TProxySettings) -> (r: String)
    ensures
        r@ == ruleset(settings@),
{
    let mark = mark_of(settings.proxy_fwmark);
    let mut r = "table inet myproxy {\n".to_owned();
    r.append(sets_of(settings).as_str());
    r.append(captures_of(settings, mark.as_str()).as_str());
    r.append(
        "\tchain prerouting {\n\t\ttype filter hook prerouting priority mangle; policy accept;\n",
    );
    r.append(chain_of(Hook::Prerouting, settings, mark.as_str()).as_str());
    r.append(
        "\t}\n\tchain output {\n\t\ttype route hook output priority mangle; policy accept;\n",
    );
    r.append(chain_of(Hook::Output, settings, mark.as_str()).as_str());
    r.append("\t}\n}\n");
    r
}

fn start_command(v4: bool) -> (r: Vec<String>)
    ensures
        text::texts_of(r@) == ip_command(v4),
{
    let mut r: Vec<String> = Vec::new();
    r.push("ip".to_owned());
    if !v4 {
        r.push("-6".to_owned());
    }
    assert(text::texts_of(r@) =~= ip_command(v4));
    r
}

/// The command that adds or deletes the policy rule of a family.
pub fn rule_args(v4: bool, op: Op, settings: &TProxySettings) -> (r: Vec<String>)
    ensures
        text::texts_of(r@) == rule_command(v4, op, settings@),
{
    let mut r = start_command(v4);
    let ghost head = r@;
    r.push("rule".to_owned());
    r.push(
        match op {
            Op::Add => "add".to_owned(),
            Op::Del => "del".to_owned(),
        },
    );
    r.push("fwmark".to_owned());
    r.push(mark_of(settings.proxy_fwmark));
    r.push("lookup".to_owned());
    r.push(text::decimal_text(settings.table_id as u64));
    assert(text::texts_of(r@) =~= rule_command(v4, op, settings@)) by {
        assert(text::texts_of(head) == ip_command(v4));
        assert(text::texts_of(r@).take(head.len() as int) =~= text::texts_of(head));
        assert(forall|i: int|
            0 <= i < head.len() ==> text::texts_of(r@)[i] == text::texts_of(r@).take(
                head.len() as int,
            )[i]);
    }
    r
}

/// The command that adds the local route of a family, or flushes its table.
pub fn route_args(v4: bool, op: Op, settings: &TProxySettings) -> (r: Vec<String>)
    ensures
        text::texts_of(r@) == route_command(v4, op, settings@),
{
    let mut r = start_command(v4);
    let ghost head = r@;
    r.push("route".to_owned());
    match op {
        Op::Add => {
            r.push("add".to_owned());
            r.push("local".to_owned());
            r.push(
                if v4 {
                    "0.0.0.0/0".to_owned()
                } else {
                    "::/0".to_owned()
                },
            );
            r.push("dev".to_owned());
            r.push("lo".to_owned());
        },
        Op::Del => {
            r.push("flush".to_owned());
        },
    }
    r.push("table".to_owned());
    r.push(text::decimal_text(settings.table_id as u64));
    assert(text::texts_of(r@) =~= route_command(v4, op, settings@)) by {
        assert(text::texts_of(head) == ip_command(v4));
        assert(text::texts_of(r@).take(head.len() as int) =~= text::texts_of(head));
        assert(forall|i: int|
            0 <= i < head.len() ==> text::texts_of(r@)[i] == text::texts_of(r@).take(
                head.len() as int,
            )[i]);
    }
    r
}

/// One of the four commands of the policy routing.
pub fn policy_args(i: usize, op: Op, settings: &TProxySettings) -> (r: Vec<String>)
    requires
        i < 4,
    ensures
        text::texts_of(r@) == policy_command(i as int, op, settings@),
{
    if i == 0 {
        rule_args(true, op, settings)
    } else if i == 1 {
        route_args(true, op, settings)
    } else if i == 2 {
        rule_args(false, op, settings)
    } else {
        route_args(false, op, settings)
    }
}

// ---------------------------------------------------------------------------
// Installing and removing
// ---------------------------------------------------------------------------

/// Where the installation of the routing stands.
#[derive(Clone, Copy, Debug, PartialEq, Eq, Structural)]
pub enum InstallState {
    /// The policy command with the number is to be run.
    Policy(usize),
    /// The ruleset is to be applied.
    Ruleset,
    /// A step failed after the first `done` policy commands had been run; the one
    /// with the number `next` is to be undone.
    Undo { next: usize, done: usize },
    /// Everything is installed.
    Installed,
    /// A policy command failed and those before it were undone.
    PolicyFailed,
    /// The ruleset failed and the policy routing was removed.
    RulesetFailed,
}

/// The state in which an installation ends that fails after so many policy commands.
pub open spec fn failed_after(done: usize) -> InstallState {
    if done >= 4 {
        InstallState::RulesetFailed
    } else {
        InstallState::PolicyFailed
    }
}

/// The state after the pending step succeeded or failed. A step that fails undoes
/// the policy commands that have been run, whatever the single commands for that
/// give.
pub open spec fn after_step(state: InstallState, ok: bool) -> InstallState {
    match state {
        InstallState::Policy(i) => if !ok {
            if i == 0 {
                InstallState::PolicyFailed
            } else {
                InstallState::Undo { next: 0, done: i }
            }
        } else if i >= 3 {
            InstallState::Ruleset
        } else {
            InstallState::Policy((i + 1) as usize)
        },
        InstallState::Ruleset => if ok {
            InstallState::Installed
        } else {
            InstallState::Undo { next: 0, done: 4 }
        },
        InstallState::Undo { next, done } => if next + 1 >= done {
            failed_after(done)
        } else {
            InstallState::Undo { next: (next + 1) as usize, done }
        },
        other => other,
    }
}

/// What the pending step is.
#[derive(Clone, Debug, PartialEq, Eq)]
pub enum InstallAction<T = String, L = Vec<String>> {
    Run(L),
    Apply(T),
    Nothing,
}

impl View for InstallAction {
    type V = InstallAction<Seq<char>, Seq<Seq<char>>>;

    open spec fn view(&self) -> InstallAction<Seq<char>, Seq<Seq<char>>> {
        match *self {
            InstallAction::Run(args) => InstallAction::Run(text::texts_of(args@)),
            InstallAction::Apply(rules) => InstallAction::Apply(rules@),
            InstallAction::Nothing => InstallAction::Nothing,
        }
    }
}

pub open spec fn pending_step(state: InstallState, s: SettingsView) -> InstallAction<
    Seq<char>,
    Seq<Seq<char>>,
> {
    match state {
        InstallState::Policy(i) => InstallAction::Run(policy_command(i as int, Op::Add, s)),
        InstallState::Ruleset => InstallAction::Apply(ruleset(s)),
        InstallState::Undo { next, .. } => InstallAction::Run(
            policy_command(next as int, Op::Del, s),
        ),
        _ => InstallAction::Nothing,
    }
}

/// The step is one of the four, and only what was done is undone.
pub open spec fn is_step(state: InstallState) -> bool {
    match state {
        InstallState::Policy(i) => i < 4,
        InstallState::Undo { next, done } => next < done <= 4,
        _ => true,
    }
}

/// The state after steps that succeeded or failed.
pub open spec fn after_steps(state: InstallState, oks: Seq<bool>) -> InstallState
    decreases oks.len(),
{
    if oks.len() == 0 {
        state
    } else {
        after_step(after_steps(state, oks.drop_last()), oks.last())
    }
}

/// The step that follows the first `done` policy commands: the next of them, or the
/// ruleset.
pub open spec fn step_after(done: usize) -> InstallState {
    if done >= 4 {
        InstallState::Ruleset
    } else {
        InstallState::Policy(done)
    }
}

/// A failed installation is rolled back: when a policy command or the ruleset fails
/// after some policy commands have been run, each of these is undone, whatever the
/// commands for that give, and the installation ends as failed.
pub proof fn law_failed_installations_are_rolled_back(s: SettingsView, done: usize, oks: Seq<bool>)
    requires
        done <= 4,
        oks.len() <= done,
    ensures
        ({
            let state = after_steps(after_step(step_after(done), false), oks);
            if oks.len() < done {
                pending_step(state, s) == InstallAction::<Seq<char>, Seq<Seq<char>>>::Run(
                    policy_command(oks.len() as int, Op::Del, s),
                )
            } else {
                state == failed_after(done)
            }
        }),
{
    lemma_undone(done, oks);
}

proof fn lemma_undone(done: usize, oks: Seq<bool>)
    requires
        done <= 4,
        oks.len() <= done,
    ensures
        ({
            let state = after_steps(after_step(step_after(done), false), oks);
            if oks.len() < done {
                state == (InstallState::Undo { next: oks.len() as usize, done })
            } else {
                state == failed_after(done)
            }
        }),
    decreases oks.len(),
{
    if oks.len() > 0 {
        lemma_undone(done, oks.drop_last());
    }
}

/// The settings of an installation, if there is one.
pub open spec fn installed_settings(s: Option<TProxySettings>) -> Option<SettingsView> {
    match s {
        Some(s) => Some(s@),
        None => None,
    }
}

/// What takes routing down: the table goes, then the policy routing of the
/// settings that it was installed with.
pub open spec fn removal(s: Option<SettingsView>) -> Seq<InstallAction<Seq<char>, Seq<Seq<char>>>> {
    let table = seq![
        InstallAction::<Seq<char>, Seq<Seq<char>>>::Apply("delete table inet myproxy"@),
    ];
    match s {
        None => table,
        Some(s) => table + Seq::new(
            4,
            |i: int| InstallAction::Run(policy_command(i, Op::Del, s)),
        ),
    }
}

/// Every policy command that an installation runs is taken back when routing is
/// taken down.
pub proof fn law_removal_takes_back_the_policy_routing(s: SettingsView, i: usize)
    requires
        i < 4,
    ensures
        pending_step(InstallState::Policy(i), s) == InstallAction::<Seq<char>, Seq<Seq<char>>>::Run(
            policy_command(i as int, Op::Add, s),
        ),
        removal(Some(s)).contains(InstallAction::Run(policy_command(i as int, Op::Del, s))),
{
    assert(removal(Some(s))[i + 1] == InstallAction::<Seq<char>, Seq<Seq<char>>>::Run(
        policy_command(i as int, Op::Del, s),
    ));
}

/// The steps that take routing down. They are independent: each is tried whatever
/// the others give.
pub fn removal_steps(settings: &Option<TProxySettings>) -> (r: Vec<InstallAction>)
    ensures
        r@.map_values(|a: InstallAction| a@) == removal(installed_settings(*settings)),
{
    let mut r: Vec<InstallAction> = Vec::new();
    r.push(InstallAction::Apply("delete table inet myproxy".to_owned()));
    if let Some(settings) = settings {
        let mut i: usize = 0;
        while i < 4
            invariant
                i <= 4,
                r@.len() == i + 1,
                r@[0]@ == removal(Some(settings@))[0],
                forall|k: int|
                    0 <= k < i ==> (#[trigger] r@[k + 1])@ == InstallAction::<
                        Seq<char>,
                        Seq<Seq<char>>,
                    >::Run(policy_command(k, Op::Del, settings@)),
            decreases 4 - i,
        {
            r.push(InstallAction::Run(policy_args(i, Op::Del, settings)));
            i += 1;
        }
        assert forall|k: int| 0 <= k < 5 implies (#[trigger] r@[k])@ == removal(
            Some(settings@),
        )[k] by {
            if k > 0 {
                assert(r@[(k - 1) + 1] == r@[k]);
            }
        }
    }
    assert(r@.map_values(|a: InstallAction| a@) =~= removal(installed_settings(*settings)));
    r
}

/// Goes on after the pending step.
pub fn install_next(state: InstallState, ok: bool) -> (r: InstallState)
    requires
        is_step(state),
    ensures
        r == after_step(state, ok),
        is_step(r),
{
    match state {
        InstallState::Policy(i) => if !ok {
            if i == 0 {
                InstallState::PolicyFailed
            } else {
                InstallState::Undo { next: 0, done: i }
            }
        } else if i >= 3 {
            InstallState::Ruleset
        } else {
            InstallState::Policy(i + 1)
        },
        InstallState::Ruleset => if ok {
            InstallState::Installed
        } else {
            InstallState::Undo { next: 0, done: 4 }
        },
        InstallState::Undo { next, done } => if next + 1 < done {
            InstallState::Undo { next: next + 1, done }
        } else if done >= 4 {
            InstallState::RulesetFailed
        } else {
            InstallState::PolicyFailed
        },
        other => other,
    }
}

/// The pending step.
pub fn install_action(state: InstallState, settings: &TProxySettings) -> (r: InstallAction)
    requires
        is_step(state),
    ensures
        r@ == pending_step(state, settings@),
{
    match state {
        InstallState::Policy(i) => InstallAction::Run(policy_args(i, Op::Add, settings)),
        InstallState::Ruleset => InstallAction::Apply(render_ruleset(settings)),
        InstallState::Undo { next, .. } => InstallAction::Run(
            policy_args(next, Op::Del, settings),
        ),
        _ => InstallAction::Nothing,
    }
}

} // verus!
