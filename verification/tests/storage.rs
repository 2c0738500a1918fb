//! The catalog: rows, queries, measurements and replacement.
use std::cmp::Ordering;
use yarisugi::ip::{IpAddr, SocketAddr};
use yarisugi::ir::decoding::decode_node;
use yarisugi::ir::node::{CanonicalNode, EndpointTarget, NodeMetadata};
use yarisugi::ir::protocol::{
    Hysteria2Config, Hysteria2Obfs, ProtocolSpec, ShadowsocksCipher, ShadowsocksConfig,
    TrojanConfig, TuicCongestion, TuicConfig, TuicUdpRelay, VlessConfig, VlessFlow, VmessCipher,
    VmessConfig, WireGuardConfig,
};
use yarisugi::ir::transport::{
    GrpcConfig, HttpUpgradeConfig, MuxProtocol, MuxSpec, RealityConfig, SecuritySpec,
    StandardTlsConfig, TransportSpec, UtlsFingerprint, WebSocketConfig, XHttpConfig, XHttpMode,
};
use yarisugi::ir::uuid::Uuid;
use yarisugi::parser::error::IngestionReport;
use yarisugi::storage::db::{backfill_kinds, lacks_protocol_kind, payload_kind};
use yarisugi::storage::query_engine::{
    latency_order, name_matches, query, query_with_metrics, SortCriteria,
};
use yarisugi::storage::repository::{
    NodeRepository, RepositoryError, SubscriptionRecord, SubscriptionService,
};
use yarisugi::storage::snapshot::{MetricUpdate, StoreSnapshot};
use yarisugi::storage::soa_store::{
    country_code, DenseNodeStore, HotNodeRow, MetricsArena, ProtocolKind, StoredRow,
    UNTESTED_LATENCY,
};
use yarisugi::storage::sync::{Catalog, LinkTarget, StoredNode, SyncPlan};

fn node_at(label: &str, port: u16) -> CanonicalNode {
    CanonicalNode::try_new(
        NodeMetadata::new(1, label, *b"DE", 1).unwrap(),
        EndpointTarget::domain("example.com", port).unwrap(),
        ProtocolSpec::Vless(VlessConfig { uuid: Uuid::nil(), flow: None }),
        TransportSpec::Tcp,
        SecuritySpec::Plain,
        None,
    )
    .unwrap()
}

fn node(label: &str) -> CanonicalNode {
    node_at(label, 443)
}

fn stored(id: u32, label: &str, country: &str) -> StoredRow {
    StoredRow {
        id,
        country_code: country.into(),
        name: label.into(),
        protocol: ProtocolKind::Vless,
        latency_ms: UNTESTED_LATENCY,
        health_score: 0,
    }
}

fn subscription(id: u16) -> SubscriptionRecord<'static> {
    SubscriptionRecord {
        id,
        uuid: if id == 1 { "one" } else { "two" },
        name: "Test subscription",
        url: "https://example.invalid/subscription",
        last_updated: 1,
        auto_update_interval: 86400,
        etag: None,
    }
}

fn empty_catalog() -> Catalog {
    Catalog { nodes: Vec::new(), links: Vec::new() }
}

/// Replaces a subscription in a catalog, as the plan says.
fn sync(catalog: &mut Catalog, sub_id: u16, nodes: &Vec<CanonicalNode>) -> SyncPlan {
    let plan = catalog.plan_sync(sub_id, nodes);
    let mut next = catalog.nodes.iter().map(|node| node.id).max().unwrap_or(0);
    catalog.links.retain(|link| link.1 != sub_id);
    for target in &plan.link {
        let id = match target {
            LinkTarget::Stored(id) => *id,
            LinkTarget::New(position) => {
                next += 1;
                catalog.nodes.push(StoredNode { id: next, hash: nodes[*position].hash });
                next
            }
        };
        catalog.links.push((id, sub_id));
    }
    catalog.nodes.retain(|node| !plan.orphans.contains(&node.id));
    plan
}

#[test]
fn duplicate_nodes_keep_both_subscription_sources() {
    let first = node("First");
    let second = node("Second");
    let mut catalog = empty_catalog();
    assert_eq!(sync(&mut catalog, 1, &vec![first]).result().inserted_nodes, 1);
    assert_eq!(sync(&mut catalog, 2, &vec![second]).result().inserted_nodes, 0);
    let rows: Vec<StoredRow> =
        catalog.nodes.iter().map(|node| stored(node.id, "First", "DE")).collect();
    let store = DenseNodeStore::hydrate(&rows, &catalog.links);
    assert_eq!(store.len(), 1);
    assert!(store.has_source(0, 1));
    assert!(store.has_source(0, 2));
    assert_eq!(query(&store, "first", None, Some(2), SortCriteria::NameAsc), vec![0]);
}

#[test]
fn sync_replaces_sources_and_collects_only_orphans() {
    let shared = vec![node("Shared")];
    let mut catalog = empty_catalog();
    sync(&mut catalog, 1, &shared);
    sync(&mut catalog, 2, &shared);
    let result = sync(&mut catalog, 1, &Vec::new()).result();
    assert_eq!(result.removed_orphans, 0);
    assert_eq!(catalog.nodes.len(), 1);
    let result = sync(&mut catalog, 2, &Vec::new()).result();
    assert_eq!(result.removed_orphans, 1);
    assert_eq!(catalog.nodes.len(), 0);
}

#[test]
fn the_same_report_again_changes_nothing() {
    let nodes = vec![node("a"), node_at("b", 444)];
    let mut catalog = empty_catalog();
    sync(&mut catalog, 1, &nodes);
    let plan = sync(&mut catalog, 1, &nodes);
    assert!(plan.insert.is_empty() && plan.orphans.is_empty());
    assert_eq!(plan.link, vec![LinkTarget::Stored(1), LinkTarget::Stored(2)]);
    assert_eq!(catalog.nodes.len(), 2);
}

#[test]
fn repeated_nodes_are_inserted_once() {
    let plan = empty_catalog().plan_sync(1, &vec![node("a"), node("b"), node_at("c", 444)]);
    assert_eq!(plan.insert, vec![0, 2]);
    assert_eq!(plan.link, vec![LinkTarget::New(0), LinkTarget::New(2)]);
    let result = plan.result();
    assert_eq!(result.inserted_nodes, 2);
    assert_eq!(result.linked_nodes, 2);
    assert_eq!(result.removed_orphans, 0);
}

#[test]
fn empty_refresh_is_rejected_by_default() {
    let report = IngestionReport::default();
    assert!(NodeRepository::check_replacement(&report, false).is_err());
    assert!(NodeRepository::check_replacement(&report, true).is_ok());
    let refused = SubscriptionService::refresh(&subscription(1), b"", false).unwrap_err();
    assert_eq!(refused, RepositoryError::EmptySnapshot);
    assert_eq!(
        refused.message(),
        "refusing to replace subscription with an empty or entirely invalid snapshot"
    );
    let taken = SubscriptionService::refresh(
        &subscription(1),
        b"trojan://secret@example.com:443#One\nnonsense",
        false,
    )
    .unwrap();
    assert_eq!(taken.successful_nodes.len(), 1);
    assert_eq!(taken.failed_entries.len(), 1);
    assert_eq!(taken.successful_nodes[0].meta.import_timestamp, 1);
}

#[test]
fn snapshot_replaces_without_mutating_existing_readers() {
    let mut snapshot = StoreSnapshot::new(DenseNodeStore::default());
    let held = snapshot.load_full();
    assert_eq!(snapshot.load().len(), 0);
    snapshot.replace(DenseNodeStore::hydrate(
        &vec![stored(1, "Snapshot", "DE")],
        &vec![(1, 1)],
    ));
    assert_eq!(snapshot.load().len(), 1);
    assert_eq!(held.len(), 0);
}

#[test]
fn legacy_database_gains_and_backfills_protocol_kind() {
    let node = node("Legacy node");
    let kind = ProtocolKind::from(&node.protocol);
    let columns = |names: &[&str]| names.iter().map(|name| name.to_string()).collect::<Vec<_>>();
    let legacy = columns(&["id", "hash", "name", "country_code", "raw_payload"]);
    assert!(lacks_protocol_kind(&legacy));
    assert!(!lacks_protocol_kind(&columns(&["id", "protocol_kind"])));
    let payload = NodeRepository::node_payload(&node);
    let rows = vec![(7, payload.clone()), (8, vec![1, 2, 3])];
    let kinds = backfill_kinds(&rows);
    assert_eq!(kinds, vec![(7, ProtocolKind::from(&node.protocol).discriminant())]);
    let row = StoredRow {
        protocol: payload_kind(&payload).unwrap(),
        ..stored(7, "Legacy node", "DE")
    };
    let store = DenseNodeStore::hydrate(&vec![row], &Vec::new());
    assert_eq!(store.protocol_kinds, vec![kind]);
}

#[test]
fn every_protocol_is_backfilled_with_its_kind() {
    let rows: Vec<(i64, Vec<u8>)> = all_kinds_of_nodes()
        .iter()
        .enumerate()
        .map(|(i, node)| (i as i64, NodeRepository::node_payload(node)))
        .collect();
    let kinds: Vec<u8> = backfill_kinds(&rows).into_iter().map(|(_, kind)| kind).collect();
    assert_eq!(kinds, vec![0, 0, 1, 2, 3, 4, 5, 6]);
    assert_eq!(payload_kind(b"junk"), None);
}

fn row(id: u32, name: &str, latency_ms: u16, health_score: u8, sub: u16) -> HotNodeRow {
    HotNodeRow {
        id,
        country_code: *b"DE",
        latency_ms,
        health_score,
        name: name.into(),
        protocol: ProtocolKind::Trojan,
        source_sub_ids: vec![sub],
    }
}

fn three() -> DenseNodeStore {
    DenseNodeStore::from_hot_rows(vec![
        row(10, "Beta", 200, 50, 1),
        row(20, "alpha", UNTESTED_LATENCY, 90, 1),
        row(30, "Gamma", 100, 150, 2),
    ])
}

#[test]
fn queries_filter_and_sort() {
    let store = three();
    assert_eq!(query(&store, "", None, None, SortCriteria::LatencyAsc), vec![2, 0, 1]);
    assert_eq!(query(&store, "", None, None, SortCriteria::LatencyDesc), vec![1, 0, 2]);
    assert_eq!(query(&store, "", None, None, SortCriteria::NameAsc), vec![0, 2, 1]);
    assert_eq!(query(&store, "", None, None, SortCriteria::HealthScoreDesc), vec![2, 1, 0]);
    assert_eq!(query(&store, "ALPHA", None, None, SortCriteria::NameAsc), vec![1]);
    assert_eq!(query(&store, "", None, Some(2), SortCriteria::NameAsc), vec![2]);
    assert!(query(&store, "", Some(*b"US"), None, SortCriteria::NameAsc).is_empty());
    assert_eq!(store.health_scores[2], 100, "health is capped");
}

#[test]
fn empty_terms_stand_in_every_name() {
    assert!(name_matches("alpha", ""));
    assert!(name_matches("alpha", "pha"));
    assert!(!name_matches("alpha", "phb"));
    assert!(!name_matches("", "a"));
}

#[test]
fn measurements_show_in_queries_and_leave_the_store() {
    let mut snapshot = StoreSnapshot::new(three());
    snapshot.publish_metrics(&[
        MetricUpdate { node_id: 20, latency_ms: 5, health_score: 200 },
        MetricUpdate { node_id: 99, latency_ms: 1, health_score: 1 },
    ]);
    assert_eq!(snapshot.load().latencies_ms[1], UNTESTED_LATENCY);
    assert_eq!(snapshot.load_metrics().latencies_ms, vec![200, 5, 100]);
    assert_eq!(snapshot.load_metrics().health_scores, vec![50, 100, 100]);
    let order = query_with_metrics(
        snapshot.load(),
        snapshot.load_metrics(),
        "",
        None,
        None,
        SortCriteria::LatencyAsc,
    );
    assert_eq!(order, vec![1, 2, 0]);
    snapshot.update_metrics_batch(&[MetricUpdate {
        node_id: 10,
        latency_ms: 7,
        health_score: 70,
    }]);
    assert_eq!(snapshot.load().latencies_ms[0], 7);
    assert_eq!(snapshot.load_metrics().latencies_ms[0], 7);
}

#[test]
fn publication_order_does_not_matter() {
    let a = MetricUpdate { node_id: 10, latency_ms: 1, health_score: 1 };
    let b = MetricUpdate { node_id: 30, latency_ms: 2, health_score: 2 };
    let mut first = StoreSnapshot::new(three());
    let mut second = StoreSnapshot::new(three());
    first.publish_metrics(&[a, b]);
    second.publish_metrics(&[b, a]);
    assert_eq!(first.load_metrics(), second.load_metrics());
}

#[test]
fn stores_find_nodes_by_identifier() {
    let mut store = three();
    assert_eq!(store.index_of(20), Some(1));
    assert_eq!(store.index_of(21), None);
    store.update_metrics(20, 33, 44);
    assert_eq!(store.latencies_ms[1], 33);
    assert_eq!(store.copy().latencies_ms, store.latencies_ms);
    let mut arena = MetricsArena::from_store(&store);
    arena.apply_update(7, 1, 1);
    assert_eq!(arena.latencies_ms, store.latencies_ms);
    assert_eq!(ProtocolKind::Hysteria2.label(), "HY2");
}

#[test]
fn empty_stores_keep_their_first_offset() {
    let mut store = DenseNodeStore::from_hot_rows(Vec::new());
    assert_eq!(store.source_offsets, vec![0]);
    store.update_metrics(1, 2, 3);
    assert_eq!(store.source_offsets, vec![0]);
    assert_eq!(store.copy().source_offsets, vec![0]);
    assert_eq!(DenseNodeStore::hydrate(&Vec::new(), &Vec::new()).source_offsets, vec![0]);
}

#[test]
fn own_measurements_change_no_query() {
    let store = three();
    let metrics = MetricsArena::from_store(&store);
    for sort in [
        SortCriteria::LatencyAsc,
        SortCriteria::LatencyDesc,
        SortCriteria::CountryAsc,
        SortCriteria::NameAsc,
        SortCriteria::HealthScoreDesc,
    ] {
        assert_eq!(
            query_with_metrics(&store, &metrics, "", None, None, sort),
            query(&store, "", None, None, sort)
        );
    }
}

#[test]
fn stored_rows_are_checked() {
    assert_eq!(country_code(b"DE"), *b"DE");
    assert_eq!(country_code(b"de"), *b"UN");
    assert_eq!(country_code(b"DEU"), *b"UN");
    let node = node("x");
    let row = NodeRepository::node_row(&node);
    assert_eq!(row.hash, node.hash);
    assert_eq!(row.name, "x");
    assert_eq!(row.country_code, "DE");
    assert_eq!(NodeRepository::stored_hash(&node.hash), Ok(node.hash));
    assert_eq!(
        NodeRepository::stored_hash(&[1, 2, 3]),
        Err(RepositoryError::HashLength(3))
    );
    assert_eq!(
        RepositoryError::HashLength(3).message(),
        "database contains hash with 3 bytes"
    );
    let payload = NodeRepository::node_payload(&node);
    assert_eq!(NodeRepository::decode_node_payload(&payload).unwrap(), node);
    let mut forged = node.clone();
    forged.hash[0] ^= 1;
    assert_eq!(
        NodeRepository::decode_node_payload(&NodeRepository::node_payload(&forged)).unwrap_err(),
        RepositoryError::HashMismatch
    );
    let mut moved = node;
    moved.endpoint = EndpointTarget::domain("example.org", 443).unwrap();
    assert_eq!(
        NodeRepository::decode_node_payload(&NodeRepository::node_payload(&moved)).unwrap_err(),
        RepositoryError::HashMismatch
    );
    assert_eq!(
        NodeRepository::decode_node_payload(&payload[..payload.len() - 1]).unwrap_err(),
        RepositoryError::Undecodable
    );
    assert_eq!(
        RepositoryError::Undecodable.message(),
        "stored node payload cannot be decoded"
    );
    assert_eq!(
        RepositoryError::HashMismatch.message(),
        "stored node hash does not match its payload"
    );
}

/// Nodes with every protocol, transport and security, and every optional part both
/// given and left out.
fn all_kinds_of_nodes() -> Vec<CanonicalNode> {
    let uuid = Uuid(0x0011_2233_4455_6677_8899_aabb_ccdd_eeff);
    let text = |s: &str| s.to_owned();
    let protocols = vec![
        ProtocolSpec::Vless(VlessConfig { uuid, flow: None }),
        ProtocolSpec::Vless(VlessConfig { uuid, flow: Some(VlessFlow::XtlsRprxVisionUdp443) }),
        ProtocolSpec::Vmess(VmessConfig { uuid, alter_id: 513, cipher: VmessCipher::Plain }),
        ProtocolSpec::Trojan(TrojanConfig { password: text("p\u{e4}ss") }),
        ProtocolSpec::Shadowsocks(ShadowsocksConfig {
            method: ShadowsocksCipher::Ss2022Blake3Chacha20Poly1305,
            password: text(""),
            plugin: Some(text("obfs")),
            plugin_opts: None,
        }),
        ProtocolSpec::Hysteria2(Hysteria2Config {
            password: text("x"),
            up_mbps: Some(70_000),
            down_mbps: None,
            obfs: Some(Hysteria2Obfs { obfs_type: text("salamander"), password: text("y") }),
            port_hopping: Some(text("1-2")),
        }),
        ProtocolSpec::Tuic(TuicConfig {
            uuid,
            password: text("z"),
            congestion_control: TuicCongestion::NewReno,
            udp_relay_mode: TuicUdpRelay::Quic,
            zero_rtt_handshake: true,
        }),
        ProtocolSpec::WireGuard(WireGuardConfig {
            private_key: text("a"),
            peer_public_key: text("b"),
            preshared_key: None,
            local_address: vec![
                IpAddr::V4([10, 0, 0, 2]),
                IpAddr::V6([0xfd00, 0, 0, 0, 0, 0, 0x1234, 2]),
            ],
            reserved: Some([7, 8, 9]),
            mtu: Some(1280),
        }),
    ];
    let transports = vec![
        TransportSpec::Tcp,
        TransportSpec::WebSocket(WebSocketConfig {
            path: text("/ws"),
            host: Some(text("cdn.example")),
            max_early_data: 2048,
            early_data_header: None,
        }),
        TransportSpec::Grpc(GrpcConfig { service_name: text("svc"), multi_mode: true }),
        TransportSpec::HttpUpgrade(HttpUpgradeConfig { path: text("/"), host: None }),
        TransportSpec::XHttp(XHttpConfig {
            mode: XHttpMode::PacketUp,
            path: text("/x"),
            host: Some(text("h")),
        }),
    ];
    let securities = vec![
        SecuritySpec::Plain,
        SecuritySpec::Tls(StandardTlsConfig {
            server_name: text("sni.example"),
            alpn: vec![text("h2"), text("http/1.1")],
            fingerprint: UtlsFingerprint::Disabled,
            allow_insecure: true,
        }),
        SecuritySpec::Reality(RealityConfig {
            server_name: text("sni"),
            public_key: text("key"),
            short_id: text("id"),
            spider_x: Some(text("/")),
            fingerprint: UtlsFingerprint::Safari,
        }),
    ];
    let mux = Some(MuxSpec { enabled: true, concurrency: 8, protocol: MuxProtocol::H2Mux });
    let endpoints = vec![
        EndpointTarget::domain("example.com", 443).unwrap(),
        EndpointTarget::Ip(SocketAddr { ip: IpAddr::V4([192, 0, 2, 1]), port: 8443 }),
        EndpointTarget::Ip(SocketAddr {
            ip: IpAddr::V6([0x2001, 0xdb8, 0, 0, 0, 0, 0, 1]),
            port: 1,
        }),
    ];
    let mut nodes = Vec::new();
    for (i, protocol) in protocols.into_iter().enumerate() {
        nodes.push(
            CanonicalNode::try_new(
                NodeMetadata::new(i as u16, "label", *b"DE", 1_700_000_000).unwrap(),
                endpoints[i % 3].clone(),
                protocol,
                transports[i % 5].clone(),
                securities[i % 3].clone(),
                if i % 2 == 0 { mux } else { None },
            )
            .unwrap(),
        );
    }
    nodes
}

#[test]
fn persisted_nodes_read_back() {
    for node in all_kinds_of_nodes() {
        let mut payload = NodeRepository::node_payload(&node);
        for n in 0..payload.len() {
            assert!(decode_node(&payload[..n]).is_none());
        }
        assert_eq!(decode_node(&payload), Some(node.clone()));
        payload.push(9);
        assert_eq!(NodeRepository::decode_node_payload(&payload).unwrap(), node);
        payload[33] ^= 1;
        let other = NodeRepository::decode_node_payload(&payload).unwrap();
        assert_ne!(other.meta.sub_id, node.meta.sub_id);
    }
}

#[test]
fn payloads_have_the_form_of_their_fields() {
    let node = node("Label");
    let meta = (1u16, "Label", *b"DE", 1u64);
    let endpoint = (1u32, "example.com", 443u16);
    let uuid = (16u64, [0u8; 16]);
    let protocol = (0u32, uuid, None::<u32>);
    let (transport, security, mux) = (0u32, 0u32, None::<u8>);
    let fields = (node.hash, meta, endpoint, protocol, transport, security, mux);
    assert_eq!(NodeRepository::node_payload(&node), bincode::serialize(&fields).unwrap());
    let read: ([u8; 32], (u16, String, [u8; 2], u64)) =
        bincode::deserialize(&NodeRepository::node_payload(&node)).unwrap();
    assert_eq!(read.0, node.hash);
    assert_eq!(read.1 .1, "Label");
}

#[test]
fn payloads_of_no_node_are_refused() {
    let mut payload = NodeRepository::node_payload(&node("Label"));
    let tag = payload.len() - 1;
    payload[tag] = 2;
    assert!(decode_node(&payload).is_none(), "an option is given or not");
    payload[tag] = 0;
    assert!(decode_node(&payload).is_some());
    payload[34] = 0xff;
    assert!(decode_node(&payload).is_none(), "a text is not longer than the payload");
    payload[34] = 5;
    payload[42] = 0xff;
    assert!(decode_node(&payload).is_none(), "a text is UTF-8");
    assert!(decode_node(&[]).is_none());
}

#[test]
fn untested_latencies_come_last() {
    assert_eq!(latency_order(1, 2), Ordering::Less);
    assert_eq!(latency_order(UNTESTED_LATENCY, 2), Ordering::Greater);
    assert_eq!(latency_order(5, 5), Ordering::Equal);
}

#[test]
fn searches_ignore_case() {
    let store = DenseNodeStore::from_hot_rows(vec![
        row(1, "Tokyo FAST", 10, 50, 1),
        row(2, "\u{dc}nter den Linden", 20, 50, 1),
        row(3, "plain", 30, 50, 1),
    ]);
    let found = |term: &str| query(&store, term, None, None, SortCriteria::LatencyAsc);
    assert_eq!(found(""), vec![0, 1, 2]);
    assert_eq!(found("fast"), vec![0]);
    assert_eq!(found("FaSt"), vec![0]);
    assert_eq!(found("\u{fc}NTER"), vec![1]);
    assert_eq!(found("\u{dc}nter"), vec![1]);
    assert_eq!(found("n"), vec![1, 2]);
    assert!(found("slow").is_empty());
}

#[test]
fn measurements_only_reorder_answers() {
    let store = three();
    let mut metrics = MetricsArena::from_store(&store);
    metrics.latencies_ms = vec![300, 1, UNTESTED_LATENCY];
    metrics.health_scores = vec![1];
    for sort in [
        SortCriteria::LatencyAsc,
        SortCriteria::LatencyDesc,
        SortCriteria::CountryAsc,
        SortCriteria::NameAsc,
        SortCriteria::HealthScoreDesc,
    ] {
        let mut own = query(&store, "a", None, Some(1), sort);
        let mut measured = query_with_metrics(&store, &metrics, "a", None, Some(1), sort);
        own.sort();
        measured.sort();
        assert_eq!(own, measured);
    }
    assert_eq!(
        query_with_metrics(&store, &metrics, "", None, None, SortCriteria::LatencyAsc),
        vec![1, 0, 2]
    );
}
