//! Settings, the plan of a switch, and what the controller remembers of switches.
use crate::adapter::config;
use crate::adapter::config::{compile_full_config, DnsProvider, LocalDns};
use crate::adapter::egress::ScatterConfig;
use crate::adapter::outbound::AdapterError;
use crate::controller::failover;
use crate::controller::failover::CycleStart;
use crate::controller::netd_client::{RoutingSpec, RoutingSpecView};
use crate::ir::adapter::CoreCapabilities;
use crate::ir::node::{CanonicalNode, NodeView};
use crate::json;
use crate::json::{Json, JsonView};
use crate::netd::daemon;
use crate::netd::daemon::{FaultView, RoutingView};
use crate::netd::netfilter;
use crate::text;
use crate::time;
use crate::time::{Duration, Instant};
use vstd::prelude::*;
use vstd::string::*;

verus! {

/// The one mark of the whole interception: the core's own sockets carry it and
/// are left alone.
pub const SINGLE_FW_MARK: u32 = 0x1;

/// Everything that the controller can be tuned by. `L` is a list of texts.
#[derive(Clone, Debug, PartialEq, Eq)]
pub struct ProxySettings<L = Vec<String>> {
    pub tproxy_port: u16,
    pub fwmark: u32,
    pub table_id: u32,
    /// Resolver that is dialed through the node.
    pub dns_provider: DnsProvider,
    pub dns_ipv4: Option<[u8; 4]>,
    pub core_uid: Option<u32>,
    pub bypass_subnets: L,
    pub bypass_subnets_v6: L,
    /// Resolver for what the tunnel does not carry.
    pub local_dns: Option<LocalDns>,
    /// How many real sites are asked beside the operators in a trial.
    pub egress_real_count: usize,
    /// How long one target of a trial is waited for.
    pub egress_timeout: Duration,
    /// How many operators must answer as expected.
    pub egress_min_verified: usize,
}

/// The model of the settings.
pub type ProxySettingsView = ProxySettings<Seq<Seq<char>>>;

impl View for ProxySettings {
    type V = ProxySettings<Seq<Seq<char>>>;

    open spec fn view(&self) -> ProxySettings<Seq<Seq<char>>> {
        ProxySettings {
            tproxy_port: self.tproxy_port,
            fwmark: self.fwmark,
            table_id: self.table_id,
            dns_provider: self.dns_provider,
            dns_ipv4: self.dns_ipv4,
            core_uid: self.core_uid,
            bypass_subnets: text::texts_of(self.bypass_subnets@),
            bypass_subnets_v6: text::texts_of(self.bypass_subnets_v6@),
            local_dns: self.local_dns,
            egress_real_count: self.egress_real_count,
            egress_timeout: self.egress_timeout,
            egress_min_verified: self.egress_min_verified,
        }
    }
}

/// The default settings on a network with the given gateway.
pub open spec fn default_settings(gateway: Option<[u8; 4]>) -> ProxySettingsView {
    ProxySettings {
        tproxy_port: 12345,
        fwmark: SINGLE_FW_MARK,
        table_id: 100,
        dns_provider: DnsProvider::Cloudflare,
        dns_ipv4: Some([1, 1, 1, 1]),
        core_uid: None,
        bypass_subnets: seq!["10.0.0.0/8"@, "172.16.0.0/12"@, "192.168.0.0/16"@],
        bypass_subnets_v6: seq!["fc00::/7"@],
        local_dns: match gateway {
            Some(ipv4) => Some(LocalDns { ipv4, port: 53 }),
            None => None,
        },
        egress_real_count: 2,
        egress_timeout: time::secs(10),
        egress_min_verified: 2,
    }
}

/// The routing parameters that the settings give.
pub open spec fn routing_of(s: ProxySettingsView) -> RoutingSpecView {
    RoutingSpec {
        tproxy_port: s.tproxy_port,
        fwmark: s.fwmark,
        table_id: s.table_id,
        dns_ipv4: s.dns_ipv4,
        bypass_subnets: s.bypass_subnets,
        bypass_subnets_v6: s.bypass_subnets_v6,
        core_uid: s.core_uid,
    }
}

impl ProxySettings {
    /// The default settings on a network with the given gateway.
    pub fn for_gateway(gateway: Option<[u8; 4]>) -> (r: ProxySettings)
        ensures
            r@ == default_settings(gateway),
    {
        let mut bypass_subnets: Vec<String> = Vec::new();
        bypass_subnets.push("10.0.0.0/8".to_owned());
        bypass_subnets.push("172.16.0.0/12".to_owned());
        bypass_subnets.push("192.168.0.0/16".to_owned());
        let mut bypass_subnets_v6: Vec<String> = Vec::new();
        bypass_subnets_v6.push("fc00::/7".to_owned());
        let r = ProxySettings {
            tproxy_port: 12345,
            fwmark: SINGLE_FW_MARK,
            table_id: 100,
            dns_provider: DnsProvider::Cloudflare,
            dns_ipv4: Some([1, 1, 1, 1]),
            core_uid: None,
            bypass_subnets,
            bypass_subnets_v6,
            local_dns: match gateway {
                Some(ipv4) => Some(LocalDns::new(ipv4, 53)),
                None => None,
            },
            egress_real_count: 2,
            egress_timeout: Duration::from_secs(10),
            egress_min_verified: 2,
        };
        assert(r@.bypass_subnets =~= default_settings(gateway).bypass_subnets);
        assert(r@.bypass_subnets_v6 =~= default_settings(gateway).bypass_subnets_v6);
        r
    }

    /// The trial configuration that the settings give.
    pub fn scatter_config(&self) -> (r: ScatterConfig)
        ensures
            r.operators@ == crate::adapter::egress::operator_targets(),
            r.real_sites@ == crate::adapter::egress::real_site_targets(),
            r.real_count == self.egress_real_count,
            r.min_verified == self.egress_min_verified,
            r.timeout == self.egress_timeout,
            r.max_concurrency == 8,
    {
        let mut r = ScatterConfig::default();
        r.real_count = self.egress_real_count;
        r.min_verified = self.egress_min_verified;
        r.timeout = self.egress_timeout;
        r
    }

    /// The routing parameters that the settings give.
    pub fn routing_spec(&self) -> (r: RoutingSpec)
        ensures
            r@ == routing_of(self@),
    {
        RoutingSpec {
            tproxy_port: self.tproxy_port,
            fwmark: self.fwmark,
            table_id: self.table_id,
            dns_ipv4: self.dns_ipv4,
            bypass_subnets: text::copy_texts(&self.bypass_subnets),
            bypass_subnets_v6: text::copy_texts(&self.bypass_subnets_v6),
            core_uid: self.core_uid,
        }
    }

    /// A copy of the settings.
    pub fn copy(&self) -> (r: ProxySettings)
        ensures
            r@ == self@,
    {
        ProxySettings {
            tproxy_port: self.tproxy_port,
            fwmark: self.fwmark,
            table_id: self.table_id,
            dns_provider: self.dns_provider,
            dns_ipv4: self.dns_ipv4,
            core_uid: self.core_uid,
            bypass_subnets: text::copy_texts(&self.bypass_subnets),
            bypass_subnets_v6: text::copy_texts(&self.bypass_subnets_v6),
            local_dns: self.local_dns,
            egress_real_count: self.egress_real_count,
            egress_timeout: self.egress_timeout,
            egress_min_verified: self.egress_min_verified,
        }
    }
}

/// What a switch hands to the core and to the routing daemon.
#[derive(Debug, PartialEq, Eq)]
pub struct SwitchPlan {
    pub config: Json,
    pub routing: RoutingSpec,
}

/// What the controller remembers: its settings, the node in use, when it was
/// switched by whom, and whether the tunnel was dropped.
#[derive(Clone, Debug)]
pub struct ProxyController<S = ProxySettings, N = CanonicalNode> {
    pub settings: S,
    pub active_node: Option<N>,
    pub last_auto_switch: Option<Instant>,
    pub last_manual_switch: Option<Instant>,
    pub degraded: bool,
}

/// The model of a controller.
pub type ControllerView = ProxyController<ProxySettingsView, NodeView>;

pub open spec fn node_of(n: Option<CanonicalNode>) -> Option<NodeView> {
    match n {
        Some(n) => Some(n@),
        None => None,
    }
}

impl View for ProxyController {
    type V = ProxyController<ProxySettingsView, NodeView>;

    open spec fn view(&self) -> ProxyController<ProxySettingsView, NodeView> {
        ProxyController {
            settings: self.settings@,
            active_node: node_of(self.active_node),
            last_auto_switch: self.last_auto_switch,
            last_manual_switch: self.last_manual_switch,
            degraded: self.degraded,
        }
    }
}

/// The controller after a switch.
pub open spec fn switched(
    c: ControllerView,
    node: NodeView,
    automatic: bool,
    now: Instant,
) -> ControllerView {
    ProxyController {
        settings: c.settings,
        active_node: Some(node),
        last_auto_switch: if automatic {
            Some(now)
        } else {
            c.last_auto_switch
        },
        last_manual_switch: if automatic {
            c.last_manual_switch
        } else {
            Some(now)
        },
        degraded: false,
    }
}

/// The later of two moments, where there are two.
pub open spec fn latest(a: Option<Instant>, b: Option<Instant>) -> Option<Instant> {
    match (a, b) {
        (Some(x), Some(y)) => if y.nanos > x.nanos {
            Some(y)
        } else {
            Some(x)
        },
        (Some(x), None) => Some(x),
        (None, y) => y,
    }
}

/// What a watchdog cycle starts from.
pub open spec fn cycle_start_of(c: ControllerView) -> CycleStart<Seq<char>> {
    CycleStart {
        active: match c.active_node {
            Some(n) => Some(n.meta.label),
            None => None,
        },
        degraded: c.degraded,
        last_manual_switch: c.last_manual_switch,
        last_auto_switch: c.last_auto_switch,
    }
}

/// A switch breaks the intercept loop. The core listens on the port that the
/// daemon's ruleset diverts to and stamps its own sockets with the mark of that
/// ruleset, and both chains of the ruleset leave every packet with it alone.
pub proof fn law_the_core_is_not_intercepted(s: ProxySettingsView, n: NodeView, c: RoutingView)
    requires
        config::full_config(n, s.tproxy_port, s.fwmark, s.dns_provider, s.local_dns) is Ok,
        daemon::validated_request(
            s.tproxy_port,
            s.fwmark,
            s.table_id,
            s.dns_ipv4,
            s.bypass_subnets,
            s.bypass_subnets_v6,
            s.core_uid,
        ) == Ok::<RoutingView, FaultView>(c),
    ensures
        ({
            let full = config::full_config(
                n,
                s.tproxy_port,
                s.fwmark,
                s.dns_provider,
                s.local_dns,
            )->Ok_0;
            let installed = netfilter::settings_for(c);
            &&& json::member(full, "inbounds"@) == Some(
                JsonView::List(seq![config::tproxy_inbound("::"@, s.tproxy_port)]),
            )
            &&& json::member(full, "route"@) == Some(config::routing(n.meta.label, s.fwmark, true))
            &&& json::member(config::routing(n.meta.label, s.fwmark, true), "default_mark"@)
                == Some(JsonView::Number(s.fwmark as u64))
            &&& installed.tproxy_port == s.tproxy_port
            &&& installed.proxy_fwmark == s.fwmark
            &&& forall|hook: netfilter::Hook, p: netfilter::Packet|
                p.marked ==> !(#[trigger] netfilter::is_intercepted(
                    netfilter::chain_rules(hook, installed.core_uid),
                    0,
                    p,
                ))
        }),
{
    let t = netfilter::settings_for(c);
    assert(t.proxy_fwmark == s.fwmark && t.tproxy_port == s.tproxy_port);
    config::law_full_config_routes_to_the_node(n, s.tproxy_port, s.fwmark, s.dns_provider, s.local_dns);
    reveal_strlit("inbounds");
    reveal_strlit("outbounds");
    reveal_strlit("route");
    reveal_strlit("dns");
    assert("inbounds"@.len() != "outbounds"@.len());
    assert("inbounds"@.len() != "route"@.len());
    assert("inbounds"@.len() != "dns"@.len());
    reveal_strlit("default_mark");
    reveal_strlit("rules");
    assert("default_mark"@.len() != "rules"@.len());
    assert forall|hook: netfilter::Hook, p: netfilter::Packet| p.marked implies !(
    #[trigger] netfilter::is_intercepted(
        netfilter::chain_rules(hook, t.core_uid),
        0,
        p,
    )) by {
        netfilter::law_own_packets_are_left_alone(hook, t.core_uid, p);
    }
}

/// Whatever a cycle switches to, it switches automatically: the moment counts for the
/// cooldown, so that until it is over no failure makes the watchdog leave the new
/// node, and not for the window that a switch of the user's opens.
pub proof fn law_failover_switches_are_automatic(
    state: failover::CycleView,
    c: ControllerView,
    node: NodeView,
    now: Instant,
    config: failover::FailoverConfig,
    label: Seq<char>,
    status: failover::StatusView,
    later: Instant,
    hour: u8,
)
    requires
        failover::work_of(state) is Switch,
        failover::is_recent(Some(now), later, config.cooldown_after_auto_switch),
    ensures
        ({
            let automatic = failover::work_of(state)->automatic;
            let next = switched(c, node, automatic, now);
            &&& automatic
            &&& next.last_auto_switch == Some(now)
            &&& next.last_manual_switch == c.last_manual_switch
            &&& failover::stepped(
                config,
                failover::CycleView::ProbingActive {
                    label,
                    last_auto_switch: cycle_start_of(next).last_auto_switch,
                },
                failover::EventView::Probed { passes: false },
                status,
                later,
                hour,
            ).1 !is Escalating
        }),
{
}

/// Any switch restores the tunnel, and only a switch of the user's keeps the
/// watchdog away: after an automatic one the next cycle watches the new node.
pub proof fn law_switches_restore_the_tunnel(
    c: ControllerView,
    node: NodeView,
    now: Instant,
    config: failover::FailoverConfig,
    status: failover::StatusView,
)
    requires
        config.min_time_since_manual_switch.nanos > 0,
    ensures
        !switched(c, node, true, now).degraded,
        !switched(c, node, false, now).degraded,
        failover::begun(
            config,
            cycle_start_of(switched(c, node, false, now)),
            status,
            now,
        ).1 == failover::CycleView::Finished(
            failover::FailoverAction::ManualWindow,
        ),
        c.last_manual_switch is None ==> failover::begun(
            config,
            cycle_start_of(switched(c, node, true, now)),
            status,
            now,
        ).1 is ProbingActive,
{
}

impl ProxyController {
    /// A controller that has not switched yet.
    pub fn new(settings: ProxySettings) -> (r: ProxyController)
        ensures
            r@ == (ControllerView {
                settings: settings@,
                active_node: None,
                last_auto_switch: None,
                last_manual_switch: None,
                degraded: false,
            }),
    {
        ProxyController {
            settings,
            active_node: None,
            last_auto_switch: None,
            last_manual_switch: None,
            degraded: false,
        }
    }

    pub fn settings(&self) -> (r: ProxySettings)
        ensures
            r@ == self@.settings,
    {
        self.settings.copy()
    }

    pub fn set_settings(&mut self, settings: ProxySettings)
        ensures
            final(self)@ == (ControllerView { settings: settings@, ..old(self)@ }),
    {
        self.settings = settings;
    }

    /// What a switch to a node hands to the core and to the routing daemon.
    pub fn plan_switch(&self, node: &CanonicalNode) -> (r: Result<SwitchPlan, AdapterError>)
        ensures
            ({
                let want = crate::adapter::config::full_config(
                    node@,
                    self@.settings.tproxy_port,
                    self@.settings.fwmark,
                    self@.settings.dns_provider,
                    self@.settings.local_dns,
                );
                match r {
                    Ok(plan) => want == Ok::<JsonView, AdapterError<Seq<char>>>(plan.config@)
                        && plan.routing@ == routing_of(self@.settings),
                    Err(e) => want == Err::<JsonView, AdapterError<Seq<char>>>(e@),
                }
            }),
    {
        let caps = CoreCapabilities {
            core_name: "sing-box".to_owned(),
            version: "controller".to_owned(),
            supported: Vec::new(),
        };
        match compile_full_config(
            node,
            &caps,
            self.settings.tproxy_port,
            self.settings.fwmark,
            self.settings.dns_provider,
            self.settings.local_dns,
        ) {
            Ok(config) => Ok(SwitchPlan { config, routing: self.settings.routing_spec() }),
            Err(e) => Err(e),
        }
    }

    /// Notes that the tunnel was switched, by the user or by the watchdog, and
    /// says so.
    pub fn switch_node(&mut self, node: CanonicalNode, automatic: bool, now: Instant) -> (r: String)
        ensures
            final(self)@ == switched(old(self)@, node@, automatic, now),
            r@ == "switched to "@ + node@.meta.label,
    {
        let mut r = "switched to ".to_owned();
        r.append(node.meta.label.as_str());
        self.active_node = Some(node);
        if automatic {
            self.last_auto_switch = Some(now);
        } else {
            self.last_manual_switch = Some(now);
        }
        self.degraded = false;
        r
    }

    /// Notes that the tunnel was torn down.
    pub fn stop(&mut self)
        ensures
            final(self)@ == (ControllerView { active_node: None, ..old(self)@ }),
    {
        self.active_node = None;
    }

    /// Notes that the tunnel was dropped in favour of the direct way.
    pub fn degrade_to_direct(&mut self)
        ensures
            final(self)@ == (ControllerView { active_node: None, degraded: true, ..old(self)@ }),
    {
        self.active_node = None;
        self.degraded = true;
    }

    /// The node in use.
    pub fn active_node(&self) -> (r: Option<&CanonicalNode>)
        ensures
            (match r {
                Some(n) => self@.active_node == Some(n@),
                None => self@.active_node is None,
            }),
    {
        match &self.active_node {
            Some(n) => Some(n),
            None => None,
        }
    }

    /// Whether the tunnel was dropped.
    pub fn is_degraded(&self) -> (r: bool)
        ensures
            r == self@.degraded,
    {
        self.degraded
    }

    /// When the last switch was, of the user's or of the watchdog's.
    pub fn last_switch(&self) -> (r: Option<Instant>)
        ensures
            r == latest(self@.last_manual_switch, self@.last_auto_switch),
    {
        match (self.last_manual_switch, self.last_auto_switch) {
            (Some(manual), Some(auto)) => if auto.nanos > manual.nanos {
                Some(auto)
            } else {
                Some(manual)
            },
            (Some(manual), None) => Some(manual),
            (None, auto) => auto,
        }
    }

    /// Notes a switch of the user's that went past the controller.
    pub fn note_manual_switch(&mut self, now: Instant)
        ensures
            final(self)@ == (ControllerView { last_manual_switch: Some(now), ..old(self)@ }),
    {
        self.last_manual_switch = Some(now);
    }

    /// Notes a switch of the watchdog's.
    pub fn note_auto_switch(&mut self, now: Instant)
        ensures
            final(self)@ == (ControllerView { last_auto_switch: Some(now), ..old(self)@ }),
    {
        self.last_auto_switch = Some(now);
    }

    pub fn last_manual_switch(&self) -> (r: Option<Instant>)
        ensures
            r == self@.last_manual_switch,
    {
        self.last_manual_switch
    }

    pub fn last_auto_switch(&self) -> (r: Option<Instant>)
        ensures
            r == self@.last_auto_switch,
    {
        self.last_auto_switch
    }

    /// What a watchdog cycle starts from.
    pub fn cycle_start(&self) -> (r: CycleStart)
        ensures
            r@ == cycle_start_of(self@),
    {
        CycleStart {
            active: match &self.active_node {
                Some(n) => Some(n.meta.label.clone()),
                None => None,
            },
            degraded: self.degraded,
            last_manual_switch: self.last_manual_switch,
            last_auto_switch: self.last_auto_switch,
        }
    }
}

/// The number of a new subscription, or why there is none.
pub fn subscription_id(next: u64) -> (r: Result<u16, String>)
    ensures
        (match r {
            Ok(id) => next <= u16::MAX && id == next,
            Err(e) => next > u16::MAX && e@ == "too many subscriptions (id "@ + text::decimal(
                next as nat,
            ) + " exceeded u16)"@,
        }),
{
    if next > u16::MAX as u64 {
        let mut r = "too many subscriptions (id ".to_owned();
        r.append(text::decimal_text(next).as_str());
        r.append(" exceeded u16)");
        return Err(r);
    }
    Ok(next as u16)
}

} // verus!
