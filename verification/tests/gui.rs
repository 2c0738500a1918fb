//! The list, the stream of results and the status lines.
use std::sync::Arc;
use yarisugi::controller::ranking::CandidateScore;
use yarisugi::gui::dispatcher::{
    changed_ids, dropped_text, resort_due, Accumulation, MetricWorker, ProbeResult, UiDispatcher,
};
use yarisugi::gui::status::{
    demo_store, flag_value, has_flag, imported_status, initial_status, probe_health,
    probe_result, probed_status, rescored_status, score_result, simulated_result,
};
use yarisugi::gui::view_state::ViewState;
use yarisugi::gui::virtual_model::{
    latency_display, Applied, Color, Projection, RowNotice, VirtualNodeModel,
};
use yarisugi::probe::engine::ProbeOutcome;
use yarisugi::storage::query_engine::SortCriteria;
use yarisugi::storage::soa_store::{DenseNodeStore, MetricsArena, UNTESTED_LATENCY};
use yarisugi::time::{Duration, Instant};

fn result(node_id: u32, latency_ms: u16) -> ProbeResult {
    ProbeResult { node_id, latency_ms, health_score: 50 }
}

#[test]
fn results_wait_in_order_and_overflow_is_counted() {
    let mut dispatcher = UiDispatcher::new(2);
    dispatcher.enqueue(result(1, 10));
    dispatcher.enqueue(result(1, 20));
    dispatcher.enqueue(result(2, 30));
    assert_eq!(dispatcher.dropped_results(), 1);
    let mut accumulation = Accumulation::new();
    assert!(accumulation.is_empty());
    dispatcher.drain_into(&mut accumulation);
    let updates = accumulation.take();
    assert_eq!(updates.len(), 1, "the later result of a node takes its place");
    assert_eq!(updates[0].latency_ms, 20);
    assert!(accumulation.is_empty());
    dispatcher.enqueue(result(2, 30));
    dispatcher.drain_into(&mut accumulation);
    assert_eq!(changed_ids(&accumulation.take()), vec![2]);
    assert_eq!(dropped_text(0), None);
    assert_eq!(dropped_text(1).as_deref(), Some("1 demo updates dropped"));
}

#[test]
fn measurements_are_published_at_a_steady_pace() {
    let start = Instant { nanos: 0 };
    let mut worker = MetricWorker::new(start);
    let soon = start.plus(Duration::from_millis(149));
    let due = start.plus(Duration::from_millis(150));
    assert!(worker.publish(due).is_none(), "nothing to publish");
    worker.accumulation.note(result(1, 10));
    assert!(worker.publish(soon).is_none());
    assert_eq!(worker.publish(due).unwrap().len(), 1);
    worker.accumulation.note(result(1, 10));
    assert!(worker.publish(due).is_none());
    let mut last = start;
    assert!(!resort_due(&mut last, due));
    assert_eq!(last, start);
    let second = start.plus(Duration::from_secs(1));
    assert!(resort_due(&mut last, second));
    assert_eq!(last, second);
}

#[test]
fn orders_go_by_name() {
    let mut view = ViewState::default();
    assert_eq!(view.sort, SortCriteria::LatencyAsc);
    assert!(view.sort_is_metric_dependent());
    view.set_sort_name("country");
    assert_eq!(view.sort, SortCriteria::CountryAsc);
    assert!(!view.sort_is_metric_dependent());
    view.set_sort_name("name");
    assert_eq!(view.sort, SortCriteria::NameAsc);
    view.set_sort_name("health");
    assert_eq!(view.sort, SortCriteria::HealthScoreDesc);
    view.set_sort_name("anything");
    assert_eq!(view.sort, SortCriteria::LatencyAsc);
}

fn model(count: usize) -> (VirtualNodeModel, MetricsArena) {
    let store = Arc::new(demo_store(count));
    let metrics = MetricsArena::from_store(&store);
    let mut view = ViewState::default();
    view.set_sort_name("name");
    (VirtualNodeModel::new(store, &metrics, &view), metrics)
}

#[test]
fn rows_are_drawn_from_the_store() {
    let (mut list, metrics) = model(8);
    assert_eq!(list.row_count(), 8);
    let first = list.row_data(0, &metrics).unwrap();
    assert_eq!(first.id, 1);
    assert_eq!(first.name, "Demo node 00001");
    assert_eq!(first.country, "DE");
    assert_eq!(first.protocol, "VLESS");
    assert_eq!(first.latency_text, "\u{2014}");
    assert!(!first.is_active);
    assert_eq!(list.row_data(1, &metrics).unwrap().latency_text, "31 ms");
    assert!(list.row_data(8, &metrics).is_none());
    assert_eq!(list.selected_name(), "No node selected");
    assert_eq!(list.select_node(3), vec![2]);
    assert_eq!(list.selected_name(), "Demo node 00003");
    assert_eq!(list.select_node(5), vec![2, 4]);
    assert!(list.row_data(4, &metrics).unwrap().is_active);
    assert_eq!(list.select_node(99), vec![4]);
    assert_eq!(list.selected_name(), "No node selected");
    assert_eq!(list.notify_metrics(&[8, 99, 1]), RowNotice::Rows(vec![7, 0]));
}

#[test]
fn many_changes_redraw_everything() {
    let (list, _) = model(2049);
    let ids: Vec<u32> = (1..=2049).collect();
    assert_eq!(list.notify_metrics(&ids), RowNotice::Everything);
    assert!(matches!(list.notify_metrics(&ids[1..]), RowNotice::Rows(rows) if rows.len() == 2048));
}

#[test]
fn stale_projections_are_not_shown() {
    let (mut list, _) = model(3);
    assert_eq!(list.apply_completed_projection(None, true), Applied::Nothing);
    let other = || Projection {
        store: Arc::new(DenseNodeStore::default()),
        indices: vec![5],
    };
    assert_eq!(list.apply_completed_projection(Some(other()), false), Applied::Stale);
    assert_eq!(list.row_count(), 3);
    assert_eq!(list.apply_completed_projection(Some(other()), true), Applied::Installed);
    assert_eq!(list.row_count(), 1);
    let metrics = MetricsArena::from_store(&DenseNodeStore::default());
    assert!(list.row_data(0, &metrics).is_none(), "positions outside of the store are not drawn");
    let mut view = ViewState::default();
    view.search_text = "x".into();
    list.refresh(&view);
    assert_eq!(list.desired_view, view);
}

#[test]
fn latencies_have_colours() {
    assert_eq!(
        latency_display(149),
        ("149 ms".to_owned(), Color { red: 70, green: 167, blue: 88 })
    );
    assert_eq!(latency_display(150).1, Color { red: 245, green: 166, blue: 35 });
    assert_eq!(latency_display(350).1, Color { red: 229, green: 72, blue: 77 });
    assert_eq!(latency_display(UNTESTED_LATENCY).1, Color { red: 113, green: 113, blue: 122 });
}

#[test]
fn probes_become_results() {
    assert_eq!(probe_health(false, Some(1)), 0);
    assert_eq!(probe_health(true, None), 100);
    assert_eq!(probe_health(true, Some(80)), 90);
    assert_eq!(probe_health(true, Some(60000)), 10);
    let outcome = ProbeOutcome {
        label: "x".to_owned(),
        country_code: *b"DE",
        protocol: "ss",
        latency_ms: None,
        alive: true,
        failure: None,
    };
    assert_eq!(
        probe_result(4, &outcome),
        ProbeResult { node_id: 4, latency_ms: UNTESTED_LATENCY, health_score: 100 }
    );
    let score = CandidateScore {
        node_index: 0,
        label: "x".to_owned(),
        sub_id: 1,
        verified: 3,
        total: 8,
        passes: true,
        median_latency: Some(Duration::from_millis(65536 + 16)),
    };
    assert_eq!(
        score_result(4, &score),
        ProbeResult { node_id: 4, latency_ms: 16, health_score: 98 }
    );
    // 37 times the identifier, within thirty-two bits.
    assert_eq!(simulated_result(10).latency_ms, 25 + 370);
    let large = u32::MAX;
    assert_eq!(
        simulated_result(large).latency_ms,
        25 + (large.wrapping_mul(37) % 550) as u16
    );
}

fn args(list: &[&str]) -> Vec<String> {
    list.iter().map(|arg| arg.to_string()).collect()
}

#[test]
fn flags_are_found() {
    let given = args(&["gui", "--data-dir", "/x", "--demo-nodes"]);
    assert!(has_flag(&given, "--demo-nodes"));
    assert!(!has_flag(&given, "--sing-box"));
    assert_eq!(flag_value(&given, "--data-dir").as_deref(), Some("/x"));
    assert_eq!(flag_value(&given, "--demo-nodes"), None);
    assert_eq!(flag_value(&Vec::new(), "--demo-nodes"), None);
}

#[test]
fn status_lines_count() {
    assert_eq!(
        initial_status(0),
        "Empty catalog \u{2014} import a subscription to get started"
    );
    assert_eq!(initial_status(3), "3 nodes from local catalog");
    assert_eq!(probed_status(2), "Probed 2 nodes via socket health");
    assert_eq!(imported_status(1), "Imported 1 new node(s)");
    assert_eq!(rescored_status(1, 4), "Rescore: 1/4 candidates passed quorum");
}

#[test]
fn the_demonstration_catalog_is_varied() {
    let store = demo_store(20);
    assert_eq!(store.len(), 20);
    assert_eq!(store.node_ids[19], 20);
    assert_eq!(store.country_codes[1], *b"US");
    assert_eq!(store.latencies_ms[0], UNTESTED_LATENCY);
    assert_eq!(store.latencies_ms[1], 31);
    assert_eq!(store.health_scores[5], 35);
    assert!(store.has_source(4, 2));
}
