//! Outbounds, configurations, trials and the core's supervisor.
use yarisugi::adapter::config::{
    compile_dns, compile_full_config, first_line, parse_route_table, DnsProvider, LocalDns,
    SingboxAdapter,
};
use yarisugi::adapter::egress::{
    compile_direct_testbed_config, compile_testbed_config, egress_targets, fold_checks,
    generate_204_request, judge_generate_204, judge_target, real_sites, sample_targets,
    sample_targets_with, shuffle_indices, target_request, worker_count, xorshift64_star,
    EgressTarget, ScatterConfig, ScatterReport, TargetCheck, TargetOutcome,
};
use yarisugi::adapter::http::{
    parse_answer, split_target, HttpReader, ReadAction, ReadEvent, ReadFault, TargetError,
    MAX_RESPONSE_BYTES,
};
use yarisugi::adapter::outbound::{compile_outbound, AdapterError};
use yarisugi::adapter::socks5::{
    connect_request, socks5_start, socks5_step, SocksAction, SocksError, SocksState,
};
use yarisugi::adapter::supervisor::{Supervisor, SwapState};
use yarisugi::ip::IpAddr;
use yarisugi::ir::adapter::{CoreAdapter, CoreCapabilities, CoreCapability};
use yarisugi::ir::node::{CanonicalNode, EndpointTarget, NodeMetadata};
use yarisugi::ir::protocol::{
    Hysteria2Config, Hysteria2Obfs, ProtocolSpec, ShadowsocksCipher, ShadowsocksConfig,
    TrojanConfig, TuicConfig, TuicCongestion, TuicUdpRelay, VlessConfig, VlessFlow, VmessCipher,
    VmessConfig, WireGuardConfig,
};
use yarisugi::ir::transport::{
    GrpcConfig, RealityConfig, SecuritySpec, StandardTlsConfig, TransportSpec, UtlsFingerprint,
    WebSocketConfig,
};
use yarisugi::ir::uuid::Uuid;
use yarisugi::json::Json;
use yarisugi::time::Duration;

fn caps() -> CoreCapabilities {
    CoreCapabilities {
        core_name: "sing-box".into(),
        version: "1.12.0 (test)".into(),
        supported: vec![
            CoreCapability::Vless,
            CoreCapability::VlessReality,
            CoreCapability::Vmess,
            CoreCapability::Trojan,
            CoreCapability::Shadowsocks,
            CoreCapability::Hysteria2,
            CoreCapability::Tuic,
            CoreCapability::WireGuard,
            CoreCapability::WebSocket,
            CoreCapability::Grpc,
            CoreCapability::Multiplexing,
        ],
    }
}

fn node(protocol: ProtocolSpec, transport: TransportSpec, security: SecuritySpec) -> CanonicalNode {
    CanonicalNode::try_new(
        NodeMetadata::new(1, "edge-test", *b"DE", 1).unwrap(),
        EndpointTarget::domain("edge.example.com", 443).unwrap(),
        protocol,
        transport,
        security,
        None,
    )
    .unwrap()
}

fn egress_node() -> CanonicalNode {
    CanonicalNode::try_new(
        NodeMetadata::new(1, "egress-test", *b"US", 1).unwrap(),
        EndpointTarget::domain("egress.example.com", 443).unwrap(),
        ProtocolSpec::Shadowsocks(ShadowsocksConfig {
            method: ShadowsocksCipher::Chacha20IetfPoly1305,
            password: "pass".into(),
            plugin: None,
            plugin_opts: None,
        }),
        TransportSpec::Tcp,
        SecuritySpec::Plain,
        None,
    )
    .unwrap()
}

/// The value at a path of names and positions.
fn at<'a>(json: &'a Json, path: &[&str]) -> &'a Json {
    let mut here = json;
    for step in path {
        here = match step.parse::<usize>() {
            Ok(index) => here.at(index).unwrap(),
            Err(_) => here.get(step).unwrap(),
        };
    }
    here
}

fn text_at(json: &Json, path: &[&str]) -> String {
    at(json, path).as_text().unwrap().to_owned()
}

fn list_len(json: &Json) -> usize {
    match json {
        Json::List(items) => items.len(),
        _ => panic!("not a list"),
    }
}

#[test]
fn vless_reality_websocket_outbound_shape() {
    let node = node(
        ProtocolSpec::Vless(VlessConfig {
            uuid: Uuid::nil(),
            flow: Some(VlessFlow::XtlsRprxVision),
        }),
        TransportSpec::WebSocket(WebSocketConfig {
            path: "/proxy".into(),
            host: Some("edge.example.com".into()),
            max_early_data: 0,
            early_data_header: None,
        }),
        SecuritySpec::Reality(RealityConfig {
            server_name: "www.example.org".into(),
            public_key: "PKEY".into(),
            short_id: "deadbeef".into(),
            spider_x: None,
            fingerprint: UtlsFingerprint::Chrome,
        }),
    );
    let outbound = compile_outbound(&node).unwrap();
    assert_eq!(text_at(&outbound, &["type"]), "vless");
    assert_eq!(text_at(&outbound, &["server"]), "edge.example.com");
    assert_eq!(at(&outbound, &["server_port"]), &Json::Number(443));
    assert_eq!(text_at(&outbound, &["flow"]), "xtls-rprx-vision");
    assert_eq!(text_at(&outbound, &["transport", "type"]), "ws");
    assert_eq!(text_at(&outbound, &["transport", "headers", "Host"]), "edge.example.com");
    assert_eq!(text_at(&outbound, &["tls", "server_name"]), "www.example.org");
    assert_eq!(text_at(&outbound, &["tls", "utls", "fingerprint"]), "chrome");
    assert_eq!(text_at(&outbound, &["tls", "reality", "public_key"]), "PKEY");
    assert_eq!(text_at(&outbound, &["tls", "reality", "short_id"]), "deadbeef");
    assert_eq!(
        text_at(&outbound, &["uuid"]),
        "00000000-0000-0000-0000-000000000000"
    );
    assert_eq!(text_at(&outbound, &["tag"]), "edge-test");
}

#[test]
fn trojan_tls_outbound_shape() {
    let node = node(
        ProtocolSpec::Trojan(TrojanConfig { password: "hunter2".into() }),
        TransportSpec::Tcp,
        SecuritySpec::Tls(StandardTlsConfig {
            server_name: "edge.example.com".into(),
            alpn: vec!["h2".into(), "http/1.1".into()],
            fingerprint: UtlsFingerprint::Randomized,
            allow_insecure: false,
        }),
    );
    let outbound = compile_outbound(&node).unwrap();
    assert_eq!(text_at(&outbound, &["type"]), "trojan");
    assert_eq!(text_at(&outbound, &["password"]), "hunter2");
    assert_eq!(at(&outbound, &["tls", "enabled"]), &Json::Bool(true));
    assert_eq!(text_at(&outbound, &["tls", "utls", "fingerprint"]), "randomized");
    assert_eq!(text_at(&outbound, &["tls", "alpn", "0"]), "h2");
}

#[test]
fn shadowsocks_methods_and_plugin_preserved() {
    let node = node(
        ProtocolSpec::Shadowsocks(ShadowsocksConfig {
            method: ShadowsocksCipher::Ss2022Blake3Chacha20Poly1305,
            password: "pass".into(),
            plugin: Some("obfs-local".into()),
            plugin_opts: Some("obfs=http".into()),
        }),
        TransportSpec::Tcp,
        SecuritySpec::Plain,
    );
    let outbound = compile_outbound(&node).unwrap();
    assert_eq!(text_at(&outbound, &["method"]), "2022-blake3-chacha20-poly1305");
    assert_eq!(text_at(&outbound, &["plugin"]), "obfs-local");
    assert_eq!(text_at(&outbound, &["plugin_opts"]), "obfs=http");
    assert!(outbound.get("tls").is_none());
}

#[test]
fn hysteria2_carries_rates_and_obfs() {
    let node = node(
        ProtocolSpec::Hysteria2(Hysteria2Config {
            password: "hy".into(),
            up_mbps: Some(30),
            down_mbps: Some(100),
            obfs: Some(Hysteria2Obfs {
                obfs_type: "salamander".into(),
                password: "sop".into(),
            }),
            port_hopping: Some("443,8443".into()),
        }),
        TransportSpec::Tcp,
        SecuritySpec::Plain,
    );
    let outbound = compile_outbound(&node).unwrap();
    assert_eq!(text_at(&outbound, &["type"]), "hysteria2");
    assert_eq!(at(&outbound, &["up_mbps"]), &Json::Number(30));
    assert_eq!(text_at(&outbound, &["obfs", "type"]), "salamander");
    assert_eq!(text_at(&outbound, &["port_hopping"]), "443,8443");
}

#[test]
fn tuic_and_wireguard_map_core_fields() {
    let tuic = node(
        ProtocolSpec::Tuic(TuicConfig {
            uuid: Uuid::nil(),
            password: "tp".into(),
            congestion_control: TuicCongestion::Bbr,
            udp_relay_mode: TuicUdpRelay::Quic,
            zero_rtt_handshake: true,
        }),
        TransportSpec::Tcp,
        SecuritySpec::Plain,
    );
    let outbound = compile_outbound(&tuic).unwrap();
    assert_eq!(text_at(&outbound, &["congestion_control"]), "bbr");
    assert_eq!(text_at(&outbound, &["udp_relay_mode"]), "quic");
    assert_eq!(at(&outbound, &["zero_rtt_handshake"]), &Json::Bool(true));

    let wg = node(
        ProtocolSpec::WireGuard(WireGuardConfig {
            private_key: "PRIV".into(),
            peer_public_key: "PUB".into(),
            preshared_key: Some("PSK".into()),
            local_address: vec![IpAddr::V4([10, 0, 0, 2])],
            reserved: Some([0, 0, 0]),
            mtu: Some(1280),
        }),
        TransportSpec::Tcp,
        SecuritySpec::Plain,
    );
    let outbound = compile_outbound(&wg).unwrap();
    assert_eq!(text_at(&outbound, &["type"]), "wireguard");
    assert_eq!(text_at(&outbound, &["private_key"]), "PRIV");
    assert_eq!(text_at(&outbound, &["local_address", "0"]), "10.0.0.2");
    assert_eq!(text_at(&outbound, &["peers", "0", "public_key"]), "PUB");
    assert_eq!(text_at(&outbound, &["peers", "0", "preshared_key"]), "PSK");
    assert_eq!(at(&outbound, &["reserved", "0"]), &Json::Number(0));
    assert_eq!(at(&outbound, &["mtu"]), &Json::Number(1280));
}

#[test]
fn vmess_cipher_and_grpc_transport() {
    let node = node(
        ProtocolSpec::Vmess(VmessConfig {
            uuid: Uuid::nil(),
            alter_id: 0,
            cipher: VmessCipher::Chacha20Poly1305,
        }),
        TransportSpec::Grpc(GrpcConfig {
            service_name: "trojan.grpc".into(),
            multi_mode: true,
        }),
        SecuritySpec::Plain,
    );
    let outbound = compile_outbound(&node).unwrap();
    assert_eq!(text_at(&outbound, &["type"]), "vmess");
    assert_eq!(text_at(&outbound, &["security"]), "chacha20-poly1305");
    assert_eq!(text_at(&outbound, &["transport", "type"]), "grpc");
    assert_eq!(text_at(&outbound, &["transport", "mode"]), "multi");
    assert_eq!(text_at(&outbound, &["transport", "service_name"]), "trojan.grpc");
}

#[test]
fn full_config_assembles_tproxy_skeleton() {
    let node = node(
        ProtocolSpec::Vless(VlessConfig { uuid: Uuid::nil(), flow: None }),
        TransportSpec::Tcp,
        SecuritySpec::Plain,
    );
    let config = compile_full_config(
        &node,
        &caps(),
        12345,
        0x1,
        DnsProvider::default(),
        Some(LocalDns::new([192, 168, 1, 1], 53)),
    )
    .unwrap();
    assert_eq!(text_at(&config, &["inbounds", "0", "type"]), "tproxy");
    assert_eq!(at(&config, &["inbounds", "0", "listen_port"]), &Json::Number(12345));
    assert_eq!(text_at(&config, &["outbounds", "0", "type"]), "direct");
    assert_eq!(at(&config, &["route", "default_mark"]), &Json::Number(0x1));
    assert_eq!(at(&config, &["route", "auto_detect_interface"]), &Json::Bool(true));
    assert_eq!(text_at(&config, &["dns", "servers", "0", "tag"]), "tunnel-dns");
    assert_eq!(text_at(&config, &["dns", "servers", "0", "detour"]), "edge-test");
    assert_eq!(text_at(&config, &["dns", "servers", "0", "type"]), "https");
    assert_eq!(text_at(&config, &["dns", "servers", "0", "server"]), "1.1.1.1");
    assert_eq!(text_at(&config, &["dns", "servers", "1", "tag"]), "local-dns");
    assert_eq!(text_at(&config, &["dns", "servers", "1", "type"]), "udp");
    assert_eq!(text_at(&config, &["dns", "servers", "1", "server"]), "192.168.1.1");
    assert_eq!(text_at(&config, &["dns", "servers", "1", "detour"]), "direct");
    assert_eq!(text_at(&config, &["dns", "rules", "0", "outbound", "0"]), "direct");
    assert_eq!(text_at(&config, &["dns", "rules", "0", "server"]), "local-dns");
    assert_eq!(text_at(&config, &["dns", "rules", "1", "server"]), "tunnel-dns");
}

#[test]
fn dns_without_local_dns_keeps_single_tunnel_backbone() {
    let dns = compile_dns("proxy", DnsProvider::Cloudflare, None);
    assert_eq!(
        list_len(at(&dns, &["servers"])),
        1,
        "no local resolver configured -> single tunnel server"
    );
    assert_eq!(text_at(&dns, &["servers", "0", "tag"]), "tunnel-dns");
    assert_eq!(list_len(at(&dns, &["rules"])), 1);
    assert_eq!(text_at(&dns, &["rules", "0", "server"]), "tunnel-dns");
}

#[test]
fn gateway_route_table_is_parsed_le_endian() {
    // Destination 00000000 is the default route; gateway "0101A8C0" is
    // 192.168.1.1 in little-endian hex.
    let table = "\
Iface\tDestination\tGateway\tFlags\tRefCnt\tUse\tMetric\tMask\tMTU\tWindow\tIRTT
wlan0\t00000000\t0101A8C0\t0003\t0\t0\t0\t00000000\t0\t0\t0
wlan0\t000011AC\t00000000\t0001\t0\t0\t0\t0000FFFF\t0\t0\t0
";
    assert_eq!(parse_route_table(table), Some([192, 168, 1, 1]));
    assert_eq!(parse_route_table(table.lines().next().unwrap()), None);
    assert_eq!(parse_route_table(""), None);
    assert_eq!(
        parse_route_table("Iface\nX\t00000000\t0000A8C0\tF"),
        Some([192, 168, 0, 0]),
        "any zero destination still parses, whatever the interface name"
    );
    assert_eq!(parse_route_table("Iface\nX\t00000000\tzzzz\tF"), None);
}

#[test]
fn testbed_config_uses_mixed_listener() {
    let config = compile_testbed_config(&egress_node(), 54321).unwrap();
    assert_eq!(text_at(&config, &["inbounds", "0", "type"]), "mixed");
    assert_eq!(at(&config, &["inbounds", "0", "listen_port"]), &Json::Number(54321));
    assert_eq!(text_at(&config, &["outbounds", "0", "type"]), "direct");
    assert_eq!(text_at(&config, &["outbounds", "1", "type"]), "shadowsocks");
    assert_eq!(at(&config, &["route", "default_mark"]), &Json::Number(0));
    assert_eq!(at(&config, &["route", "auto_detect_interface"]), &Json::Bool(false));
}

#[test]
fn direct_testbed_config_routes_everything_to_direct() {
    let config = compile_direct_testbed_config(54321);
    assert_eq!(text_at(&config, &["inbounds", "0", "type"]), "mixed");
    assert_eq!(at(&config, &["inbounds", "0", "listen_port"]), &Json::Number(54321));
    assert_eq!(list_len(at(&config, &["outbounds"])), 1);
    assert_eq!(text_at(&config, &["outbounds", "0", "type"]), "direct");
    assert_eq!(at(&config, &["route", "default_mark"]), &Json::Number(0));
    assert_eq!(
        text_at(&config, &["route", "rules", "1", "outbound"]),
        "direct",
        "route rule must pin egress to the direct outbound"
    );
}

#[test]
fn invalid_targets_are_rejected() {
    assert!(split_target("nope").is_err());
    assert!(split_target(":123").is_err());
    assert_eq!(
        split_target("https://example.com:443").unwrap(),
        ("example.com".to_owned(), 443)
    );
    assert_eq!(split_target("[::1]:53").unwrap(), ("::1".to_owned(), 53));
}

#[test]
fn target_errors_name_the_target() {
    let invalid = split_target("example.com:http").unwrap_err();
    assert!(matches!(invalid, TargetError::InvalidPort(_)));
    assert_eq!(invalid.message(), "invalid target port in \"example.com:http\"");
    let bare = split_target("nope").unwrap_err();
    assert!(matches!(bare, TargetError::NotHostPort(_)));
    assert_eq!(bare.message(), "target \"nope\" must be host:port");
    let empty = split_target(":123").unwrap_err();
    assert!(matches!(empty, TargetError::EmptyHost(_)));
    assert_eq!(empty.message(), "target \":123\" has an empty host");
}

#[test]
fn sample_targets_carries_quorum_backbone_plus_noise() {
    let cfg = ScatterConfig::default();
    let sampled = sample_targets(&cfg);
    assert_eq!(
        sampled.iter().filter(|target| target.quorum).count(),
        egress_targets().len(),
        "every operator must always ride along"
    );
    assert_eq!(
        sampled.iter().filter(|target| !target.quorum).count(),
        cfg.real_count,
        "the configured number of noise sites must be sampled"
    );
    let mut tags = sampled.iter().map(|target| target.tag).collect::<Vec<_>>();
    tags.sort_unstable();
    tags.dedup();
    assert_eq!(tags.len(), sampled.len(), "no duplicate targets per trial");
}

#[test]
fn xorshift64_star_is_deterministic_and_zero_stays_a_fixed_point() {
    assert_eq!(xorshift64_star(0), 0, "star does not escape zero on its own");
    let mut state = 1u64;
    for _ in 0..1_000 {
        state = xorshift64_star(state);
        assert_ne!(state, 0, "a nonzero state never collapses to zero");
    }
    let a = (0..8).fold(0x1234_5678_9abc_def0u64, |s, _| xorshift64_star(s));
    let b = (0..8).fold(0x1234_5678_9abc_def0u64, |s, _| xorshift64_star(s));
    assert_eq!(a, b);
}

#[test]
fn shuffle_indices_permutes_when_sampling_everything() {
    // Sampling all `len` must return every index exactly once.
    let mut picked = shuffle_indices(10, 10, 0xdead_beef);
    picked.sort_unstable();
    assert_eq!(picked, (0..10).collect::<Vec<_>>());
    // A partial sample yields distinct in-range indices...
    let picked = shuffle_indices(10, 3, 0x0123_4567);
    assert_eq!(picked.len(), 3);
    let mut dedup = picked.clone();
    dedup.sort_unstable();
    dedup.dedup();
    assert_eq!(dedup.len(), 3, "no repeats in a partial sample");
    assert!(picked.iter().all(|&index| index < 10));
    // A zero seed must be guarded off the fixed point.
    let picked = shuffle_indices(10, 3, 0);
    assert_ne!(picked[0], 0, "zero seed must be shuffled, never identity");
}

#[test]
fn one_seed_gives_one_trial() {
    let cfg = ScatterConfig::default();
    assert_eq!(sample_targets_with(&cfg, 7), sample_targets_with(&cfg, 7));
    assert_eq!(
        sample_targets_with(&cfg, 7).len(),
        egress_targets().len() + cfg.real_count
    );
    // The sampled sites keep the order of their pool.
    let mut many = ScatterConfig::default();
    many.real_count = 5;
    for seed in 0..50 {
        let tail = sample_targets_with(&many, seed)[egress_targets().len()..].to_vec();
        let positions: Vec<_> = tail
            .iter()
            .map(|target| real_sites().iter().position(|site| site == target).unwrap())
            .collect();
        assert!(positions.windows(2).all(|pair| pair[0] < pair[1]));
        let mut picked = shuffle_indices(real_sites().len(), 5, seed);
        picked.sort_unstable();
        assert_eq!(positions, picked);
    }
    assert!(real_sites().iter().all(|site| !site.quorum));
    assert_eq!(worker_count(3, 8), 3);
    assert_eq!(worker_count(20, 8), 8);
}

// --- The exchange with one target, with the bytes of a scripted proxy. ---

/// Walks a handshake through a proxy that accepts everything, and gives the
/// request that the proxy saw.
fn connect(host: &str, port: u16) -> Result<Vec<u8>, SocksError> {
    let (mut state, mut action) = socks5_start();
    let mut request = Vec::new();
    loop {
        let want = match action {
            SocksAction::Connected => return Ok(request),
            SocksAction::Send(bytes, want) => {
                request = bytes;
                want
            }
            SocksAction::Receive(want) => want,
        };
        let answer: Vec<u8> = match state {
            SocksState::Greeting => vec![5, 0],
            SocksState::Reply => vec![5, 0, 0, 1],
            _ => vec![0; want],
        };
        let (next, then) = socks5_step(state, &answer, host, port)?;
        state = next;
        action = then;
    }
}

fn exchange(target: &EgressTarget, answer: &str) -> TargetCheck {
    connect(target.host, target.port).unwrap();
    let mut reader = HttpReader::new();
    let took = Duration::from_millis(5);
    let action = reader.feed(
        ReadEvent::Data(answer.as_bytes().to_vec()),
        took,
        Duration::from_secs(10),
    );
    assert_eq!(action, ReadAction::Finish);
    let got = reader.finish();
    judge_target(
        target,
        TargetOutcome::Answered { status: got.status, body: got.body },
        took,
    )
}

fn scatter(trials: &[(EgressTarget, &str)]) -> ScatterReport {
    let targets: Vec<EgressTarget> = trials.iter().map(|trial| trial.0).collect();
    let checks = trials.iter().map(|(target, answer)| exchange(target, answer)).collect();
    fold_checks(&targets, checks, 2)
}

fn target(
    tag: &'static str,
    host: &'static str,
    expect_status: u16,
    body: Option<&'static str>,
) -> EgressTarget {
    EgressTarget {
        tag,
        host,
        path: "/probe",
        port: 8080,
        tls: false,
        expect_status,
        expect_body_contains: body,
        quorum: true,
    }
}

#[test]
fn scatter_through_forwarding_stub() {
    let report = scatter(&[
        (
            target("cloudflare-stub", "127.0.0.1", 204, None),
            "HTTP/1.1 204 No Content\r\nConnection: close\r\nContent-Length: 0\r\n\r\n",
        ),
        (
            target("microsoft-stub", "127.0.0.1", 200, Some("Microsoft Connect Test")),
            "HTTP/1.1 200 OK\r\nConnection: close\r\nContent-Length: 22\r\n\r\nMicrosoft Connect Test\n",
        ),
        (
            target("apple-stub", "127.0.0.1", 200, Some("Success")),
            "HTTP/1.1 200 OK\r\nConnection: close\r\nContent-Length: 20\r\n\r\n<HTML><TITLE>Success</TITLE></HTML>",
        ),
    ]);
    assert_eq!(report.verified, 3, "all mock operators must verify");
    assert_eq!(report.total, 3);
    assert!(report.passes, "quorum of 2 must pass");
    assert!(report.checks.iter().all(|check| check.verified && check.status > 0));
}

#[test]
fn scatter_flags_hijacked_middlebox() {
    // Two honest operators plus one impostor that answers 200-with-login to
    // everything.
    let report = scatter(&[
        (
            target("cloudflare-stub", "127.0.0.1", 204, None),
            "HTTP/1.1 204 No Content\r\nContent-Length: 0\r\n\r\n",
        ),
        (
            target("microsoft-stub", "127.0.0.1", 200, Some("Microsoft Connect Test")),
            "HTTP/1.1 200 OK\r\nContent-Length: 22\r\n\r\nMicrosoft Connect Test\n",
        ),
        (
            target("impostor", "127.0.0.1", 204, None),
            "HTTP/1.1 200 OK\r\nContent-Length: 14\r\n\r\nPlease log in\n",
        ),
    ]);
    let impostor = report.checks.iter().find(|c| c.tag == "impostor").unwrap();
    assert!(!impostor.verified, "204-expected, 200-login impostor must fail");
    assert_eq!(impostor.status, 200);
    assert_eq!(report.verified, 2, "impostor must not count");
    assert!(report.passes, "2 of 3 honest operators still satisfy a quorum of 2");
}

#[test]
fn scatter_supports_domain_targets() {
    let report = scatter(&[(
        target(
            "microsoft-stub",
            "disguised.provider.invalid",
            200,
            Some("Microsoft Connect Test"),
        ),
        "HTTP/1.1 200 OK\r\nContent-Length: 22\r\n\r\nMicrosoft Connect Test\n",
    )]);
    assert_eq!(report.verified, 1, "domain-name SOCKS5 target must verify");
}

#[test]
fn scatter_quorum_is_respected() {
    let report = scatter(&[(
        target("only-one", "127.0.0.1", 204, None),
        "HTTP/1.1 204 No Content\r\nContent-Length: 0\r\n\r\n",
    )]);
    assert_eq!(report.verified, 1);
    assert!(!report.passes, "a single operator must not satisfy a quorum of 2");
}

#[test]
fn noise_sites_never_decide_a_verdict() {
    let mut noise = target("site", "127.0.0.1", 200, None);
    noise.quorum = false;
    let answer = "HTTP/1.1 200 OK\r\n\r\n";
    let report = scatter(&[(noise, answer), (noise, answer), (noise, answer)]);
    assert_eq!(report.verified, 3);
    assert_eq!(report.quorum_verified, 0);
    assert!(!report.passes);
}

#[test]
fn round_trip_succeeds_against_loopback_stub() {
    connect("127.0.0.1", 8080).unwrap();
    let got = parse_answer("HTTP/1.1 204 No Content\r\nContent-Length: 0\r\n\r\n");
    let report = judge_generate_204(got.status, &got.body, Duration::from_millis(12));
    assert!(report.verified, "stub must return a clean 204");
    assert!(report.round_trip < Duration::from_secs(5));
}

#[test]
fn stub_rejections_are_reported() {
    let (state, _) = socks5_start();
    let result = socks5_step(state, &[5, 0xff], "127.0.0.1", 1);
    assert!(result.is_err(), "a rejecting stub must surface as an error");
    let refused = socks5_step(SocksState::Reply, &[5, 5, 0, 1], "127.0.0.1", 1);
    assert_eq!(refused, Err(SocksError::ConnectFailed(5)));
    assert_eq!(
        SocksError::ConnectFailed(5).message(),
        "socks5 CONNECT failed with reply 5"
    );
    let odd = socks5_step(SocksState::Reply, &[5, 0, 0, 9], "127.0.0.1", 1);
    assert_eq!(odd, Err(SocksError::UnknownAddressType(9)));
    assert_eq!(
        SocksError::UnknownAddressType(9).message(),
        "socks5 reply with unknown address type 9"
    );
    assert_eq!(
        SocksError::GreetingRejected(5, 0xff).message(),
        "socks5 greeting rejected: [05, ff]"
    );
}

#[test]
fn requests_name_addresses_and_names() {
    assert_eq!(
        connect_request("127.0.0.1", 0x1f90),
        vec![5, 1, 0, 1, 127, 0, 0, 1, 0x1f, 0x90]
    );
    let mut named = vec![5, 1, 0, 3, 11];
    named.extend(b"example.com");
    named.extend([0, 80]);
    assert_eq!(connect_request("example.com", 80), named);
    assert_eq!(connect("example.com", 80).unwrap(), named);
}

#[test]
fn reading_ends_on_headers_limits_and_time() {
    let limit = Duration::from_secs(1);
    let mut reader = HttpReader::new();
    assert_eq!(
        reader.feed(ReadEvent::Data(b"HTTP/1.1 200 OK\r\n".to_vec()), limit, limit),
        ReadAction::Read
    );
    assert_eq!(reader.feed(ReadEvent::Blocked, limit, limit), ReadAction::PauseAndRead);
    assert_eq!(
        reader.feed(ReadEvent::Blocked, Duration::from_secs(2), limit),
        ReadAction::Fail(ReadFault::TimedOut)
    );
    assert_eq!(
        reader.feed(ReadEvent::Data(b"\r\nhello".to_vec()), limit, limit),
        ReadAction::Finish
    );
    assert_eq!(reader.finish().status, 200);
    assert_eq!(reader.finish().body, "hello");

    let mut flooded = HttpReader::new();
    assert_eq!(
        flooded.feed(ReadEvent::Data(vec![b'x'; MAX_RESPONSE_BYTES + 1]), limit, limit),
        ReadAction::Fail(ReadFault::TooLarge(MAX_RESPONSE_BYTES + 1))
    );
    let mut broken = HttpReader::new();
    assert_eq!(
        broken.feed(ReadEvent::Failed("reset".into()), limit, limit),
        ReadAction::Fail(ReadFault::Read("reset".into()))
    );
    // What is no text is read as far as it goes.
    let mut binary = HttpReader::new();
    assert_eq!(
        binary.feed(ReadEvent::Data(b"HTTP/1.1 200 OK\r\n\r\n\xff".to_vec()), limit, limit),
        ReadAction::Finish
    );
    assert_eq!(binary.finish().body, "\u{fffd}");
}

#[test]
fn failed_exchanges_have_no_status() {
    let target = target("t", "127.0.0.1", 204, None);
    let took = Duration::from_millis(1);
    for outcome in [
        TargetOutcome::Unreachable("u".to_owned()),
        TargetOutcome::ConnectFailed("c".to_owned()),
        TargetOutcome::TlsFailed("t".to_owned()),
        TargetOutcome::WriteFailed("w".to_owned()),
        TargetOutcome::ReadFailed("r".to_owned()),
    ] {
        let check = judge_target(&target, outcome, took);
        assert!(!check.verified);
        assert_eq!(check.status, 0);
        assert_eq!(check.tag, "t");
    }
}

#[test]
fn requests_are_plain_http() {
    let request = target_request(&target("t", "example.com", 200, None));
    assert!(request.starts_with("GET /probe HTTP/1.1\r\n"));
    assert!(request.contains("Host: example.com"));
    assert!(request.ends_with("\r\n\r\n"));
    assert!(generate_204_request("example.com").contains("/generate_204"));
}

// --- The adapter for the core's own program. ---

#[test]
fn versions_and_rejections_are_read_from_output() {
    let adapter = SingboxAdapter;
    let found = adapter.probe_capabilities(true, b"sing-box version 1.12.0\nmore\n").unwrap();
    assert_eq!(found.core_name, "sing-box");
    assert_eq!(found.version, "sing-box version 1.12.0");
    assert!(found.supports(CoreCapability::Tuic));
    assert_eq!(
        adapter.probe_capabilities(false, b""),
        Err(AdapterError::VersionUnavailable)
    );
    assert_eq!(
        AdapterError::VersionUnavailable.message(),
        "sing-box failed to report its version"
    );
    assert!(adapter.validate_config(true, b"noise").is_ok());
    let rejected = adapter.validate_config(false, b" bad field \n").unwrap_err();
    assert_eq!(rejected.message(), "sing-box rejected the config: bad field");
    assert_eq!(first_line(""), "unknown");
    assert_eq!(AdapterError::InvalidServer("".to_owned()).message(), "invalid server address: \"\"");
}

// --- The supervisor. ---

#[test]
fn validation_fails_loudly_when_binary_is_missing() {
    let supervisor = Supervisor::new("/nonexistent/sing-box".into(), "/tmp/config.json".into());
    assert!(supervisor.validate_config(false, b"No such file").is_err());
    assert_eq!(supervisor.check_args(), vec!["check", "-c", "/tmp/config.json"]);
    assert_eq!(supervisor.run_args(), vec!["run", "-c", "/tmp/config.json"]);
}

#[test]
fn reload_requires_a_running_child() {
    let supervisor = Supervisor::new("/nonexistent/sing-box".into(), "/tmp/config.json".into());
    assert!(!supervisor.is_running());
    assert!(!supervisor.may_reload(true));
}

#[test]
fn apply_config_rolls_back_rejected_swap_and_keeps_session() {
    let mut supervisor = Supervisor::new("/usr/bin/sing-box".into(), "/tmp/config.json".into());
    // A first start: written, checked twice, spawned.
    let mut swap = supervisor.begin_swap(false);
    for state in [
        SwapState::Writing,
        SwapState::Checking,
        SwapState::Rechecking,
        SwapState::Spawning,
    ] {
        assert_eq!(swap.state, state);
        swap.advance(true);
    }
    assert_eq!(swap.state, SwapState::Applied);
    supervisor.finish_swap(&swap);
    assert!(supervisor.is_running());

    // A swap that the core rejects: the previous file comes back and is loaded.
    let mut swap = supervisor.begin_swap(true);
    swap.advance(true);
    swap.advance(false);
    assert_eq!(swap.state, SwapState::Restoring, "config file must roll back");
    swap.advance(true);
    assert_eq!(swap.state, SwapState::RollbackChecking);
    swap.advance(true);
    assert_eq!(swap.state, SwapState::RollbackSignalling);
    swap.advance(true);
    assert_eq!(swap.state, SwapState::Rejected);
    supervisor.finish_swap(&swap);
    assert!(supervisor.is_running(), "old process must survive a rejected swap");

    // The session is still switchable.
    let mut swap = supervisor.begin_swap(true);
    swap.advance(true);
    swap.advance(true);
    swap.advance(true);
    assert_eq!(swap.state, SwapState::Signalling);
    swap.advance(true);
    assert_eq!(swap.state, SwapState::Applied);
    supervisor.finish_swap(&swap);
    supervisor.stop();
    assert!(!supervisor.is_running());
}
