//! Ranking, the watchdog and the controller.
use std::collections::HashMap;
use yarisugi::adapter::config::LocalDns;
use yarisugi::adapter::egress::{ScatterReport, TargetCheck};
use yarisugi::controller::failover::{
    begin_cycle, in_quiet_hours, step_cycle, utc_hour, watchdog_summary, CycleEvent, CycleStart,
    CycleState, CycleWork, FailoverAction, FailoverConfig, FailoverStatus,
};
use yarisugi::controller::proxy_controller::{subscription_id, ProxyController, ProxySettings};
use yarisugi::controller::ranking::{
    rank_candidates, score_egress_candidates, select_finalists, sort_ranked, tiered_shortlist,
    CandidateScore, CheapOutcome, PreflightConfig,
};
use yarisugi::ip::{IpAddr, SocketAddr};
use yarisugi::ir::node::{CanonicalNode, EndpointTarget, NodeMetadata};
use yarisugi::ir::protocol::{ProtocolSpec, VlessConfig};
use yarisugi::ir::transport::{SecuritySpec, TransportSpec};
use yarisugi::ir::uuid::Uuid;
use yarisugi::json::Json;
use yarisugi::parser::ingest::ingest_with_timestamp;
use yarisugi::storage::repository::{NodeRepository, SubscriptionRecord, SubscriptionService};
use yarisugi::storage::soa_store::{DenseNodeStore, ProtocolKind, StoredRow};
use yarisugi::storage::sync::Catalog;
use yarisugi::time::{Duration, Instant};

const TEST_SUB: &[u8] =
    b"vless://00000000-0000-0000-0000-000000000000@1.2.3.4:443?security=none#Alpha\n\
      vless://11111111-1111-1111-1111-111111111111@5.6.7.8:443?security=none#Beta";

fn vless_node() -> CanonicalNode {
    CanonicalNode::try_new(
        NodeMetadata::new(1, "Alpha", *b"US", 1).unwrap(),
        EndpointTarget::ip(SocketAddr { ip: IpAddr::V4([1, 2, 3, 4]), port: 443 }),
        ProtocolSpec::Vless(VlessConfig { uuid: Uuid::nil(), flow: None }),
        TransportSpec::Tcp,
        SecuritySpec::Plain,
        None,
    )
    .unwrap()
}

fn settings() -> ProxySettings {
    ProxySettings::for_gateway(None)
}

fn record(id: u16) -> SubscriptionRecord<'static> {
    SubscriptionRecord {
        id,
        uuid: "one",
        name: "Test sub",
        url: "https://example.invalid/sub",
        last_updated: 5,
        auto_update_interval: 86400,
        etag: None,
    }
}

#[test]
fn import_then_probe_targets_round_trip() {
    let report = SubscriptionService::refresh(&record(1), TEST_SUB, false).unwrap();
    let plan = Catalog { nodes: Vec::new(), links: Vec::new() }
        .plan_sync(1, &report.successful_nodes);
    assert!(plan.result().inserted_nodes >= 1, "at least one node inserted");
    let targets: Vec<_> = report
        .successful_nodes
        .iter()
        .map(|node| NodeRepository::node_payload(node))
        .map(|payload| NodeRepository::decode_node_payload(&payload).unwrap())
        .collect();
    assert_eq!(targets.len(), 2);
    assert_eq!(targets[0].meta.label, "Alpha");
}

#[test]
fn hydrate_matches_imported_catalog() {
    let report = SubscriptionService::refresh(&record(1), TEST_SUB, false).unwrap();
    let empty = Catalog { nodes: Vec::new(), links: Vec::new() };
    let plan = empty.plan_sync(1, &report.successful_nodes);
    let rows: Vec<StoredRow> = plan
        .insert
        .iter()
        .map(|&position| {
            let row = NodeRepository::node_row(&report.successful_nodes[position]);
            StoredRow {
                id: position as u32 + 1,
                country_code: row.country_code,
                name: row.name,
                protocol: ProtocolKind::of(&report.successful_nodes[position].protocol),
                latency_ms: 65535,
                health_score: 0,
            }
        })
        .collect();
    let links: Vec<(u32, u16)> = rows.iter().map(|row| (row.id, 1)).collect();
    let store = DenseNodeStore::hydrate(&rows, &links);
    assert_eq!(store.len(), 2);
    match store.names[0].as_str() {
        "Alpha" | "Beta" => {}
        other => panic!("unexpected first node {other:?}"),
    }
}

#[test]
fn the_core_carries_the_exempt_mark() {
    let controller = ProxyController::new(settings());
    let plan = controller.plan_switch(&vless_node()).unwrap();
    let route = plan.config.get("route").unwrap();
    assert_eq!(route.get("default_mark"), Some(&Json::Number(u64::from(plan.routing.fwmark))));
    let inbound = plan.config.get("inbounds").unwrap().at(0).unwrap();
    assert_eq!(
        inbound.get("listen_port"),
        Some(&Json::Number(u64::from(plan.routing.tproxy_port)))
    );
}

#[test]
fn invalid_subscription_payload_is_rejected() {
    let refused =
        SubscriptionService::refresh(&record(1), b"this is definitely not a subscription", false);
    assert!(refused.is_err());
}

#[test]
fn subscriptions_are_numbered_within_sixteen_bits() {
    assert_eq!(subscription_id(1), Ok(1));
    assert_eq!(subscription_id(65535), Ok(65535));
    assert_eq!(
        subscription_id(65536),
        Err("too many subscriptions (id 65536 exceeded u16)".to_owned())
    );
}

fn trial(verified: usize, total: usize, latencies_ms: &[u64]) -> Option<ScatterReport> {
    let checks = latencies_ms
        .iter()
        .map(|ms| TargetCheck {
            tag: "op",
            verified: true,
            latency: Duration::from_millis(*ms),
            status: 200,
            detail: "ok".into(),
        })
        .collect();
    Some(ScatterReport {
        checks,
        verified,
        total,
        quorum_verified: verified,
        passes: verified >= 2,
    })
}

#[test]
fn rank_passes_only_on_quorum_not_total_verified() {
    let candidates = vec![vless_node()];
    let report = Some(ScatterReport {
        checks: Vec::new(),
        verified: 3, // plenty of noise sites answered 200...
        total: 9,
        quorum_verified: 1, // ...but only one operator agreed
        passes: false,
    });
    let ranked = rank_candidates(&candidates, &vec![report], 2);
    assert!(
        !ranked[0].passes,
        "total-verified must not buy a pass; the quorum decides"
    );
    assert_eq!(ranked[0].verified, 3);
}

#[test]
fn select_finalists_promotes_fastest_alive_only() {
    let outcomes = vec![
        CheapOutcome { latency: Some(900), alive: true },
        CheapOutcome { latency: Some(40), alive: true },
        CheapOutcome { latency: None, alive: false },
        CheapOutcome { latency: None, alive: true }, // UDP: alive, wordless
        CheapOutcome { latency: Some(120), alive: true },
    ];
    // Fastest three alive, ascending by node index for stable ordering.
    let finalists = select_finalists(&outcomes, 3);
    assert_eq!(finalists, vec![0, 1, 4]);
    // A lax cap promotes every live node.
    let finalists = select_finalists(&outcomes, 20);
    assert_eq!(finalists, vec![0, 1, 3, 4]);
    // Nothing alive, nothing promoted.
    let finalists = select_finalists(&outcomes[2..3].to_vec(), 3);
    assert!(finalists.is_empty());
}

#[test]
fn wordless_nodes_sort_behind_measured_ones() {
    let outcomes = vec![
        CheapOutcome { latency: None, alive: true },
        CheapOutcome { latency: Some(65535), alive: true },
    ];
    assert_eq!(select_finalists(&outcomes, 1), vec![1]);
    assert_eq!(select_finalists(&outcomes, 2), vec![0, 1]);
}

fn scored(node_index: usize, verified: usize, passes: bool, median_ms: u64) -> CandidateScore {
    CandidateScore {
        node_index,
        label: format!("node {node_index}"),
        sub_id: 1,
        verified,
        total: 9,
        passes,
        median_latency: Some(Duration::from_millis(median_ms)),
    }
}

#[test]
fn stragglers_go_by_what_they_verified() {
    let order = |scores: Vec<CandidateScore>| {
        sort_ranked(&scores).iter().map(|score| score.node_index).collect::<Vec<_>>()
    };
    assert_eq!(order(vec![scored(0, 1, false, 10), scored(1, 2, false, 50)]), vec![1, 0]);
    assert_eq!(order(vec![scored(0, 2, false, 50), scored(1, 2, false, 10)]), vec![1, 0]);
    assert_eq!(order(vec![scored(0, 9, true, 50), scored(1, 2, true, 10)]), vec![1, 0]);
    assert_eq!(order(vec![scored(0, 9, false, 1), scored(1, 2, true, 90)]), vec![1, 0]);
    // The order of the input does not matter.
    let mut scores =
        vec![scored(0, 1, false, 10), scored(1, 2, true, 50), scored(2, 2, true, 40)];
    let ranked = order(scores.clone());
    scores.reverse();
    assert_eq!(order(scores), ranked);
    assert_eq!(ranked, vec![2, 1, 0]);
}

#[test]
fn tiered_shortlist_empty_catalog_is_immediate() {
    let scores = tiered_shortlist(
        &Vec::new(),
        &Vec::new(),
        &PreflightConfig::default(),
        &Vec::new(),
        2,
        10,
    );
    assert!(scores.is_empty(), "empty catalog must short-circuit, no network");
}

#[test]
fn tiered_shortlist_ranks_the_finalists() {
    let candidates = vec![vless_node(), vless_node(), vless_node()];
    let outcomes = vec![
        CheapOutcome { latency: Some(10), alive: true },
        CheapOutcome { latency: None, alive: false },
        CheapOutcome { latency: Some(20), alive: true },
    ];
    let reports = vec![trial(0, 8, &[]), trial(3, 8, &[50])];
    let scores =
        tiered_shortlist(&candidates, &outcomes, &PreflightConfig::default(), &reports, 2, 10);
    assert_eq!(
        scores.iter().map(|score| score.node_index).collect::<Vec<_>>(),
        vec![2, 0]
    );
    assert!(scores[0].passes && !scores[1].passes);
    let one =
        tiered_shortlist(&candidates, &outcomes, &PreflightConfig::default(), &reports, 2, 1);
    assert_eq!(one.len(), 1);
    assert_eq!(one[0].node_index, 2);
}

#[test]
fn rank_favours_quorum_passing_then_fastest() {
    let candidates = vec![vless_node(), vless_node(), vless_node(), vless_node()];
    let reports = vec![
        trial(3, 8, &[50, 60, 70]),
        None,
        trial(0, 8, &[]),
        trial(3, 8, &[40, 45, 48]),
    ];
    let ranked = rank_candidates(&candidates, &reports, 2);
    let ranked = sort_ranked(&ranked);
    assert_eq!(ranked.len(), 4);
    // The two quorum-passing candidates lead, fastest median first.
    assert!(ranked[0].passes && ranked[1].passes);
    assert_eq!(ranked[0].median_latency, Some(Duration::from_millis(45)));
    assert_eq!(ranked[1].median_latency, Some(Duration::from_millis(60)));
    // Stragglers (including a fatal trial) sort behind the passing set.
    assert!(!ranked[2].passes && !ranked[3].passes);
    assert_eq!(ranked[2].verified, 0);
    assert_eq!(ranked[3].verified, 0);
}

#[test]
fn rank_sinks_flaky_nodes_behind_fast_healthy_ones() {
    let candidates = vec![vless_node(), vless_node()];
    let reports = vec![trial(3, 8, &[200, 210, 220]), trial(3, 8, &[90, 150, 430])];
    let ranked = rank_candidates(&candidates, &reports, 2);
    let ranked = sort_ranked(&ranked);
    assert!(ranked[0].median_latency <= ranked[1].median_latency);
    assert_eq!(ranked[0].node_index, 1);
}

#[test]
fn scoring_without_binary_yields_nonpassing_shortlist() {
    let scores = score_egress_candidates(&vec![vless_node()], &vec![None], 2, 5);
    assert_eq!(scores.len(), 1);
    assert!(!scores[0].passes);
    assert_eq!(scores[0].verified, 0);
    assert_eq!(scores[0].total, 0);
    assert!(score_egress_candidates(&vec![vless_node()], &vec![None], 2, 0).is_empty());
}

// --- The watchdog, driven with scripted answers. ---

#[derive(Clone, Copy)]
enum Muck {
    Pass,
    Fail,
}

struct MockEgress {
    outcomes: HashMap<String, Muck>,
    rescore_passing: Vec<String>,
    probes: Vec<String>,
    switches: Vec<(String, bool)>,
    degrade_calls: usize,
    switch_failures: usize,
}

impl MockEgress {
    fn new(outcomes: HashMap<String, Muck>) -> Self {
        Self {
            outcomes,
            rescore_passing: Vec::new(),
            probes: Vec::new(),
            switches: Vec::new(),
            degrade_calls: 0,
            switch_failures: 0,
        }
    }

    fn probe(&mut self, label: &str) -> CycleEvent {
        self.probes.push(label.to_owned());
        CycleEvent::Probed {
            passes: matches!(self.outcomes.get(label), Some(Muck::Pass)),
        }
    }

    fn rescore(&self, candidates: &[CanonicalNode]) -> CycleEvent {
        CycleEvent::Rescored(
            candidates
                .iter()
                .enumerate()
                .map(|(index, node)| {
                    let passing = self.rescore_passing.contains(&node.meta.label);
                    CandidateScore {
                        node_index: index,
                        label: node.meta.label.clone(),
                        sub_id: node.meta.sub_id,
                        verified: if passing { 3 } else { 0 },
                        total: 8,
                        passes: passing,
                        median_latency: Some(Duration::from_millis(40)),
                    }
                })
                .collect(),
        )
    }

    fn switch(&mut self, label: &str, automatic: bool) -> CycleEvent {
        if self.switch_failures > 0 {
            self.switch_failures -= 1;
            return CycleEvent::SwitchFailed("no core".into());
        }
        self.switches.push((label.to_owned(), automatic));
        CycleEvent::SwitchDone(label.to_owned())
    }
}

fn candidates() -> Vec<CanonicalNode> {
    ingest_with_timestamp(TEST_SUB, 1, 5).successful_nodes
}

const NOW: Instant = Instant { nanos: 10_000_000_000_000 };

/// Runs one whole cycle against the scripted answers.
fn run_failover_cycle(
    controller: &ProxyController,
    config: &FailoverConfig,
    egress: &mut MockEgress,
    status: &mut FailoverStatus,
) -> FailoverAction {
    let candidates = candidates();
    let mut state = begin_cycle(config, &controller.cycle_start(), status, NOW);
    loop {
        let event = match (state.work(), &state) {
            (CycleWork::Done, CycleState::Finished(action)) => return action.clone(),
            (CycleWork::ProbeActive, CycleState::ProbingActive { label, .. }) => {
                egress.probe(label)
            }
            (CycleWork::Rescore, _) => egress.rescore(&candidates),
            (CycleWork::Confirm { index }, _) => {
                let at = status.shortlist[index].node_index;
                egress.probe(&candidates[at].meta.label)
            }
            (CycleWork::Switch { index, automatic }, _) => {
                let at = status.shortlist[index].node_index;
                egress.switch(&candidates[at].meta.label, automatic)
            }
            (CycleWork::Degrade, _) => {
                egress.degrade_calls += 1;
                CycleEvent::Dropped
            }
            (work, state) => panic!("{work:?} does not go with {state:?}"),
        };
        state = step_cycle(config, state, event, status, NOW, 12);
    }
}

fn failover_controller() -> ProxyController {
    let mut controller = ProxyController::new(settings());
    controller.active_node = Some(vless_node());
    controller
}

fn base_config() -> FailoverConfig {
    FailoverConfig {
        interval: Duration::from_secs(60),
        required_consecutive_failures: 2,
        min_time_since_manual_switch: Duration::from_secs(300),
        cooldown_after_auto_switch: Duration::from_secs(300),
        rescore_limit: 8,
        background_rescore_cycles: 0,
        quiet_hours_utc: None,
    }
}

#[test]
fn failover_switches_only_after_two_failures_and_confirmation() {
    let controller = failover_controller();
    let mut egress = MockEgress::new(HashMap::from([
        ("Alpha".into(), Muck::Fail),
        ("Beta".into(), Muck::Pass),
    ]));
    egress.rescore_passing = vec!["Beta".into()];

    let mut status = FailoverStatus::default();
    let first = run_failover_cycle(&controller, &base_config(), &mut egress, &mut status);
    assert_eq!(first, FailoverAction::Inspecting { failures: 1 });
    assert_eq!(status.consecutive_failures, 1);
    assert_eq!(status.shortlist.len(), 2, "shortlist pre-armed while confidence builds");

    let second = run_failover_cycle(&controller, &base_config(), &mut egress, &mut status);
    assert_eq!(second, FailoverAction::Switched { label: "Beta".into() });
    assert_eq!(status.consecutive_failures, 0);
    assert_eq!(egress.switches.last(), Some(&("Beta".into(), true)));
    assert_eq!(egress.probes, vec!["Alpha", "Alpha", "Beta"]);
}

#[test]
fn failover_respects_manual_switch_window() {
    let mut controller = failover_controller();
    controller.note_manual_switch(NOW);
    let mut egress = MockEgress::new(HashMap::from([("Alpha".into(), Muck::Fail)]));

    let mut status = FailoverStatus::default();
    let action = run_failover_cycle(&controller, &base_config(), &mut egress, &mut status);
    assert_eq!(action, FailoverAction::ManualWindow);
    assert!(egress.probes.is_empty(), "hands off while the user drives");
}

#[test]
fn failover_respects_cooldown_after_auto_switch() {
    let mut controller = failover_controller();
    controller.note_auto_switch(NOW);
    let mut config = base_config();
    config.required_consecutive_failures = 1;
    let mut egress = MockEgress::new(HashMap::from([("Alpha".into(), Muck::Fail)]));

    let mut status = FailoverStatus::default();
    let action = run_failover_cycle(&controller, &config, &mut egress, &mut status);
    assert_eq!(action, FailoverAction::Cooldown);
    assert!(egress.switches.is_empty());
}

#[test]
fn unconfirmed_candidate_blocks_switch_and_degrade() {
    let controller = failover_controller();
    let mut config = base_config();
    config.required_consecutive_failures = 1;
    let mut egress = MockEgress::new(HashMap::from([
        ("Alpha".into(), Muck::Fail),
        ("Beta".into(), Muck::Fail), // passes trials, then fails confirmation
    ]));
    egress.rescore_passing = vec!["Beta".into()];

    let mut status = FailoverStatus::default();
    let action = run_failover_cycle(&controller, &config, &mut egress, &mut status);
    assert_eq!(action, FailoverAction::Unconfirmed);
    assert!(egress.switches.is_empty(), "no switch on unconfirmed evidence");
    assert_eq!(egress.degrade_calls, 0, "stay up rather than degrade");
}

#[test]
fn degrade_only_when_nothing_passes_trials() {
    let controller = failover_controller();
    let mut config = base_config();
    config.required_consecutive_failures = 1;
    let mut egress = MockEgress::new(HashMap::from([
        ("Alpha".into(), Muck::Fail),
        ("Beta".into(), Muck::Fail),
    ]));

    let mut status = FailoverStatus::default();
    let action = run_failover_cycle(&controller, &config, &mut egress, &mut status);
    assert_eq!(action, FailoverAction::Degraded);
    assert_eq!(egress.degrade_calls, 1);
    assert!(egress.switches.is_empty());
}

#[test]
fn degraded_controller_heals_when_candidate_resurrects() {
    let mut controller = failover_controller();
    controller.degrade_to_direct();
    assert!(controller.is_degraded());
    let mut egress = MockEgress::new(HashMap::from([("Beta".into(), Muck::Pass)]));
    egress.rescore_passing = vec!["Beta".into()];

    let mut status = FailoverStatus::default();
    let action = run_failover_cycle(&controller, &base_config(), &mut egress, &mut status);
    assert_eq!(action, FailoverAction::Healed { label: "Beta".into() });
    assert_eq!(egress.switches.last(), Some(&("Beta".into(), true)));
    assert_eq!(egress.degrade_calls, 0);
}

#[test]
fn healing_goes_on_after_a_failed_switch() {
    let mut controller = failover_controller();
    controller.degrade_to_direct();
    let mut egress = MockEgress::new(HashMap::from([
        ("Alpha".into(), Muck::Pass),
        ("Beta".into(), Muck::Pass),
    ]));
    egress.rescore_passing = vec!["Alpha".into(), "Beta".into()];
    egress.switch_failures = 1;
    let mut status = FailoverStatus::default();
    let action = run_failover_cycle(&controller, &base_config(), &mut egress, &mut status);
    assert_eq!(action, FailoverAction::Healed { label: "Beta".into() });
}

#[test]
fn healthy_cycles_keep_arranging_shortlist() {
    let controller = failover_controller();
    let mut config = base_config();
    config.required_consecutive_failures = 99;
    config.background_rescore_cycles = 2;
    let mut egress = MockEgress::new(HashMap::from([("Alpha".into(), Muck::Pass)]));

    let mut status = FailoverStatus::default();
    let first = run_failover_cycle(&controller, &config, &mut egress, &mut status);
    assert_eq!(first, FailoverAction::Healthy);
    assert_eq!(status.consecutive_failures, 0);
    let second = run_failover_cycle(&controller, &config, &mut egress, &mut status);
    assert_eq!(second, FailoverAction::Rearmed { shortlist: 2 });
    assert_eq!(status.shortlist.len(), 2);
    assert_eq!(status.cycles_since_rescore, 0);
}

#[test]
fn mechanical_failures_are_reported() {
    let config = base_config();
    let escalating = || CycleState::Escalating { label: "Alpha".into() };
    let mut status = FailoverStatus::default();
    let after = step_cycle(
        &config,
        escalating(),
        CycleEvent::CatalogUnavailable("locked".into()),
        &mut status,
        NOW,
        0,
    );
    assert_eq!(
        after,
        CycleState::Finished(FailoverAction::Error("catalog unavailable: locked".into()))
    );
    let after = step_cycle(
        &config,
        escalating(),
        CycleEvent::RescoreFailed("no runtime".into()),
        &mut status,
        NOW,
        0,
    );
    assert_eq!(
        after,
        CycleState::Finished(FailoverAction::Error("rescore failed: no runtime".into()))
    );
    let after = step_cycle(
        &config,
        CycleState::Switching { index: 0 },
        CycleEvent::SwitchFailed("no core".into()),
        &mut status,
        NOW,
        0,
    );
    assert_eq!(
        after,
        CycleState::Finished(FailoverAction::Error("switch failed: no core".into()))
    );
    // What was not asked for changes nothing.
    let after =
        step_cycle(&config, escalating(), CycleEvent::Dropped, &mut status, NOW, 0);
    assert_eq!(after, escalating());
}

#[test]
fn the_tunnel_stays_while_anything_passes() {
    let config = base_config();
    let escalated = |scores: Vec<CandidateScore>| {
        let mut status = FailoverStatus::default();
        let state = CycleState::Escalating { label: "node 0".into() };
        let after =
            step_cycle(&config, state, CycleEvent::Rescored(scores), &mut status, NOW, 0);
        (after, status.shortlist.len())
    };
    // The active node alone passed: it is no candidate, and the tunnel stays.
    assert_eq!(
        escalated(vec![scored(0, 9, true, 10), scored(1, 1, false, 10)]),
        (CycleState::Finished(FailoverAction::Unconfirmed), 1)
    );
    assert_eq!(
        escalated(vec![scored(0, 1, false, 10), scored(1, 1, false, 10)]),
        (CycleState::Degrading, 1)
    );
    assert_eq!(
        escalated(vec![scored(0, 9, true, 10), scored(1, 9, true, 10)]),
        (CycleState::Confirming { index: 0 }, 1)
    );
}

#[test]
fn degraded_cycles_only_heal() {
    let start = CycleStart {
        active: None,
        degraded: true,
        last_manual_switch: None,
        last_auto_switch: None,
    };
    let config = base_config();
    let mut status = FailoverStatus::default();
    let state = begin_cycle(&config, &start, &mut status, NOW);
    assert_eq!(state, CycleState::Healing);
    let scores = vec![scored(0, 9, true, 10), scored(1, 9, true, 20)];
    let state = step_cycle(&config, state, CycleEvent::Rescored(scores), &mut status, NOW, 0);
    assert_eq!(state, CycleState::HealConfirming { index: 0 });
    let state =
        step_cycle(&config, state, CycleEvent::Probed { passes: false }, &mut status, NOW, 0);
    assert_eq!(state, CycleState::HealConfirming { index: 1 });
    let state =
        step_cycle(&config, state, CycleEvent::Probed { passes: true }, &mut status, NOW, 0);
    assert_eq!(state, CycleState::HealSwitching { index: 1 });
    let state = step_cycle(
        &config,
        state,
        CycleEvent::SwitchDone("node 1".into()),
        &mut status,
        NOW,
        0,
    );
    assert_eq!(
        state,
        CycleState::Finished(FailoverAction::Healed { label: "node 1".into() })
    );
}

#[test]
fn cycles_without_a_node_are_idle() {
    let start = CycleStart {
        active: None,
        degraded: false,
        last_manual_switch: None,
        last_auto_switch: None,
    };
    let mut status = FailoverStatus::default();
    assert_eq!(
        begin_cycle(&base_config(), &start, &mut status, NOW),
        CycleState::Finished(FailoverAction::Idle)
    );
}

#[test]
fn quiet_hours_may_pass_midnight() {
    let mut config = base_config();
    assert!(!in_quiet_hours(&config, 3));
    config.quiet_hours_utc = Some((1, 4));
    assert!(in_quiet_hours(&config, 1) && in_quiet_hours(&config, 3));
    assert!(!in_quiet_hours(&config, 4) && !in_quiet_hours(&config, 0));
    config.quiet_hours_utc = Some((22, 4));
    assert!(in_quiet_hours(&config, 23) && in_quiet_hours(&config, 2));
    assert!(!in_quiet_hours(&config, 12));
    assert_eq!(utc_hour(0), 0);
    assert_eq!(utc_hour(3600 * 25 + 59), 1);
}

#[test]
fn summaries_tell_what_the_watchdog_does() {
    let mut status = FailoverStatus::default();
    assert_eq!(watchdog_summary(&status), "Egress watchdog: monitoring no active node");
    status.active_node = Some("Alpha".into());
    status.record(FailoverAction::Healthy, NOW);
    assert_eq!(watchdog_summary(&status), "Egress watchdog: Alpha healthy");
    status.record(FailoverAction::Inspecting { failures: 1 }, NOW);
    assert_eq!(
        watchdog_summary(&status),
        "Egress watchdog: inspecting Alpha (1 consecutive misses)"
    );
    status.record(FailoverAction::Error("x".into()), NOW);
    assert_eq!(watchdog_summary(&status), "Egress watchdog: error \u{2014} x");
    status.degraded = true;
    assert_eq!(
        watchdog_summary(&status),
        "Egress watchdog: DEGRADED to direct \u{2014} hunting for a live node"
    );
    assert!(FailoverAction::Degraded.is_intervention());
    assert!(!FailoverAction::<String>::Healthy.is_intervention());
}

// --- The controller. ---

#[test]
fn switches_are_planned_and_remembered() {
    let mut controller =
        ProxyController::new(ProxySettings::for_gateway(Some([192, 168, 1, 1])));
    assert_eq!(
        controller.settings().local_dns,
        Some(LocalDns::new([192, 168, 1, 1], 53))
    );
    let plan = controller.plan_switch(&vless_node()).unwrap();
    assert_eq!(plan.routing.tproxy_port, 12345);
    assert_eq!(plan.routing.bypass_subnets.len(), 3);
    assert!(plan.config.get("dns").is_some());
    assert_eq!(controller.last_switch(), None);
    assert_eq!(controller.switch_node(vless_node(), true, NOW), "switched to Alpha");
    assert_eq!(controller.last_auto_switch(), Some(NOW));
    assert_eq!(controller.last_manual_switch(), None);
    assert_eq!(controller.last_switch(), Some(NOW));
    controller.degrade_to_direct();
    assert!(controller.is_degraded() && controller.active_node().is_none());
    let later = Instant { nanos: NOW.nanos + 1 };
    controller.switch_node(vless_node(), false, later);
    assert!(!controller.is_degraded());
    assert_eq!(controller.last_switch(), Some(later));
    assert_eq!(controller.active_node().unwrap().meta.label, "Alpha");
    let latest = Instant { nanos: later.nanos + 1 };
    controller.note_auto_switch(latest);
    assert_eq!(controller.last_switch(), Some(latest));
    controller.note_manual_switch(NOW);
    assert_eq!(controller.last_switch(), Some(latest));
    controller.stop();
    assert!(controller.active_node().is_none());
    let mut settings = controller.settings();
    settings.egress_min_verified = 3;
    controller.set_settings(settings);
    let scatter = controller.settings().scatter_config();
    assert_eq!(scatter.min_verified, 3);
    assert_eq!(scatter.timeout, Duration::from_secs(10));
}

#[test]
fn cycles_switch_automatically() {
    for state in [CycleState::Switching { index: 3 }, CycleState::HealSwitching { index: 3 }] {
        let work = state.work();
        assert_eq!(work, CycleWork::Switch { index: 3, automatic: true });
        let mut controller = failover_controller();
        controller.note_manual_switch(Instant { nanos: 7 });
        controller.switch_node(vless_node(), true, NOW);
        assert_eq!(controller.last_auto_switch(), Some(NOW));
        assert_eq!(controller.last_manual_switch(), Some(Instant { nanos: 7 }));
    }
    assert_eq!(CycleState::Degrading.work(), CycleWork::Degrade);
    assert_eq!(CycleState::Healing.work(), CycleWork::Rescore);
    assert_eq!(CycleState::Finished(FailoverAction::Idle).work(), CycleWork::Done);
}
