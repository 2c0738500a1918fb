//! Probes, their report, and the health of connections.
use yarisugi::ip::{IpAddr, SocketAddr};
use yarisugi::ir::node::{CanonicalNode, EndpointTarget, NodeMetadata};
use yarisugi::ir::protocol::{
    Hysteria2Config, ProtocolSpec, ShadowsocksCipher, ShadowsocksConfig,
};
use yarisugi::ir::transport::{SecuritySpec, TransportSpec};
use yarisugi::probe::cli::{
    describe_failure, label_order, outcome_line, parse_args, summary_line, ArgError, NumberFlag,
};
use yarisugi::probe::engine::{
    build_outcome, depth_failure, ms_elapsed, protocol_name, tcp_reach, udp_reach, Ping,
    ProbeConfig, ProbeDepth, ProbeFailure, ProbeOutcome, Reach, TcpAttempt, UdpAttempt,
};
use yarisugi::probe::sock_diag::{
    build_request, collect_message, encode_message, nlmsg_align, read_datagram, ByteOrder,
    DatagramEnd,
};
use yarisugi::probe::socket_health::{
    health_grade, parse_tcp_info, HealthThresholds, TcpInfo, TcpStats,
};
use yarisugi::time::Duration;

fn made(label: &str, protocol: ProtocolSpec) -> CanonicalNode {
    CanonicalNode::try_new(
        NodeMetadata::new(1, label, *b"DE", 1).unwrap(),
        EndpointTarget::ip(SocketAddr { ip: IpAddr::V4([127, 0, 0, 1]), port: 9 }),
        protocol,
        TransportSpec::Tcp,
        SecuritySpec::Plain,
        None,
    )
    .unwrap()
}

fn tcp_node(label: &str) -> CanonicalNode {
    made(
        label,
        ProtocolSpec::Shadowsocks(ShadowsocksConfig {
            method: ShadowsocksCipher::Aes128Gcm,
            password: "secret".into(),
            plugin: None,
            plugin_opts: None,
        }),
    )
}

fn udp_node(label: &str) -> CanonicalNode {
    made(
        label,
        ProtocolSpec::Hysteria2(Hysteria2Config {
            password: "secret".into(),
            up_mbps: None,
            down_mbps: None,
            obfs: None,
            port_hopping: None,
        }),
    )
}

fn outcome_of(node: &CanonicalNode, results: &[Reach]) -> ProbeOutcome {
    let mut ping = Ping::new();
    for result in results {
        if ping.is_settled() {
            break;
        }
        ping.note(*result);
    }
    build_outcome(node, ping.reach.0, ping.reach.1)
}

#[test]
fn tcp_alive_on_loopback() {
    let reach = tcp_reach(TcpAttempt::Connected { after: Duration::from_millis(3) });
    let outcome = outcome_of(&tcp_node("loop"), &[reach]);
    assert!(outcome.alive);
    assert_eq!(outcome.latency_ms, Some(3));
    assert!(outcome.failure.is_none());
}

#[test]
fn tcp_refused_on_closed_loopback_port() {
    let outcome = outcome_of(&tcp_node("closed"), &[tcp_reach(TcpAttempt::Refused)]);
    assert!(!outcome.alive);
    assert_eq!(outcome.failure, Some(ProbeFailure::Refused));
}

#[test]
fn unreachable_domain_is_dead() {
    let outcome = outcome_of(&tcp_node("nowhere"), &[]);
    assert!(!outcome.alive);
    assert_eq!(outcome.failure, Some(ProbeFailure::Unresolvable));
}

#[test]
fn udp_silent_pass_counts_as_alive() {
    let outcome = outcome_of(&udp_node("hy2"), &[udp_reach(UdpAttempt::Silent)]);
    assert!(outcome.alive);
    assert!(outcome.latency_ms.is_none());
    assert!(outcome.failure.is_none());
}

#[test]
fn udp_icmp_refused_on_closed_loopback_port() {
    let outcome = outcome_of(&udp_node("hy2-dead"), &[udp_reach(UdpAttempt::Unreachable)]);
    assert!(!outcome.alive);
    assert_eq!(outcome.failure, Some(ProbeFailure::Refused));
}

#[test]
fn unimplemented_depths_report_failure() {
    let failure = depth_failure(ProbeDepth::FullEgress204);
    let outcome = build_outcome(&tcp_node("deep"), None, failure);
    assert!(!outcome.alive);
    assert_eq!(depth_failure(ProbeDepth::L4Ping), None);
}

#[test]
fn batch_preserves_individual_results() {
    let good = outcome_of(
        &tcp_node("good"),
        &[tcp_reach(TcpAttempt::Connected { after: Duration::from_millis(1) })],
    );
    let bad = outcome_of(&tcp_node("closed"), &[tcp_reach(TcpAttempt::Refused)]);
    let alive = [good, bad].iter().filter(|outcome| outcome.alive).count();
    assert_eq!(alive, 1);
}

#[test]
fn the_first_answering_address_counts() {
    let refused = tcp_reach(TcpAttempt::Refused);
    let late = tcp_reach(TcpAttempt::TimedOut);
    let fast = tcp_reach(TcpAttempt::Connected { after: Duration::from_millis(7) });
    let slow = tcp_reach(TcpAttempt::Connected { after: Duration::from_secs(3) });
    let node = tcp_node("many");
    assert_eq!(outcome_of(&node, &[refused, fast, slow]).latency_ms, Some(7));
    assert_eq!(outcome_of(&node, &[late, refused]).failure, Some(ProbeFailure::TimedOut));
    assert_eq!(udp_reach(UdpAttempt::NoSocket), (None, Some(ProbeFailure::Io)));
    assert_eq!(udp_reach(UdpAttempt::Failed), (None, None));
    assert_eq!(tcp_reach(TcpAttempt::Failed), (None, Some(ProbeFailure::Io)));
    assert_eq!(
        udp_reach(UdpAttempt::Replied { after: Duration::from_millis(4) }),
        (Some(4), None)
    );
}

#[test]
fn long_spans_are_capped() {
    assert_eq!(ms_elapsed(Duration::from_millis(65535)), 65535);
    assert_eq!(ms_elapsed(Duration::from_millis(65536)), 32767);
    assert_eq!(ProbeConfig::default().permits(), 512);
    assert_eq!(ProbeConfig { concurrency_limit: 0, ..ProbeConfig::default() }.permits(), 1);
    assert_eq!(protocol_name(&udp_node("x").protocol), "hysteria2");
}

#[test]
fn report_lines_are_aligned() {
    let live = build_outcome(&tcp_node("Berlin"), Some(42), None);
    assert_eq!(outcome_line(&live), "[ALIVE]     42ms  ss       @DE  Berlin  ok");
    let dead = build_outcome(&udp_node("Paris"), None, Some(ProbeFailure::TimedOut));
    assert_eq!(outcome_line(&dead), "[DEAD ]       --  hysteria2@DE  Paris  timed out");
    let outcomes = vec![live, dead];
    assert_eq!(
        summary_line(&outcomes, 2, 1, 3),
        "1 of 2 nodes alive (1 skipped, 3 duplicates)"
    );
    assert_eq!(describe_failure(ProbeFailure::NoReply), "no reply");
    let named = vec![
        build_outcome(&tcp_node("b"), None, None),
        build_outcome(&tcp_node("a"), None, None),
        build_outcome(&tcp_node("b"), None, None),
    ];
    assert_eq!(label_order(&named), vec![1, 0, 2]);
}

fn args(list: &[&str]) -> Vec<String> {
    list.iter().map(|arg| arg.to_string()).collect()
}

#[test]
fn arguments_are_read() {
    let read = parse_args(
        &args(&["--timeout-ms", "50", "file", "--concurrency", "3"]),
        512,
        800,
    )
    .unwrap();
    assert_eq!(read.path, "file");
    assert_eq!(read.concurrency, 3);
    assert_eq!(read.timeout_ms, 50);
    let plain = parse_args(&args(&["file"]), 512, 800).unwrap();
    assert_eq!(plain.concurrency, 512);
    assert_eq!(plain.timeout_ms, 800);
}

#[test]
fn wrong_arguments_are_named() {
    let message = |list: &[&str]| parse_args(&args(list), 1, 1).unwrap_err().message();
    assert_eq!(message(&["f", "--concurrency"]), "--concurrency needs a value");
    assert_eq!(message(&["f", "--timeout-ms", "x"]), "--timeout-ms must be a number");
    assert_eq!(message(&["--verbose", "f"]), "unknown flag --verbose");
    assert_eq!(message(&["f", "g"]), "expected a single subscription file");
    assert_eq!(
        message(&[]),
        "usage: myproxy-probe <subscription> [--concurrency N] [--timeout-ms T]"
    );
    assert_eq!(
        parse_args(&args(&["--timeout-ms"]), 1, 1),
        Err(ArgError::NeedsValue(NumberFlag::TimeoutMs))
    );
}

// --- Health. ---

fn sample(rtt: u32, retrans: u32, total: u32, unacked: u32) -> TcpStats {
    TcpStats {
        rtt_ms: rtt,
        rtt_var_ms: 0,
        retransmits: retrans,
        total_retrans: total,
        unacked,
    }
}

#[test]
fn healthy_connection_scores_full() {
    let stats = sample(40, 0, 0, 3);
    assert_eq!(health_grade(&stats, &HealthThresholds::default()), 100);
}

#[test]
fn rtt_excess_fractionally_degrades() {
    let stats = sample(2000, 0, 0, 3);
    let grade = health_grade(&stats, &HealthThresholds::default());
    assert!(grade < 100 && grade > 50);
    assert_eq!(grade, 92);
}

#[test]
fn retransmit_spike_and_backlog_push_toward_failover() {
    let thresholds = HealthThresholds::default();
    assert!(health_grade(&sample(40, 9, 3, 3), &thresholds) <= 70);
    assert!(health_grade(&sample(4000, 40, 100, 200), &thresholds) <= 20);
}

#[test]
fn score_is_clamped() {
    let stats = sample(4000, 100, 500, 500);
    assert_eq!(health_grade(&stats, &HealthThresholds::default()), 0);
}

#[test]
fn retransmissions_cost_no_more_than_their_cap() {
    let thresholds = HealthThresholds::default();
    assert_eq!(health_grade(&sample(0, 0, 13, 0), &thresholds), 95);
    assert_eq!(health_grade(&sample(0, 0, 18, 0), &thresholds), 70);
    assert_eq!(health_grade(&sample(0, 0, 858_993_472, 0), &thresholds), 70);
    assert_eq!(health_grade(&sample(0, 0, u32::MAX, 0), &thresholds), 70);
}

#[test]
fn worse_counters_never_grade_better() {
    let thresholds = HealthThresholds::default();
    let mut last = 100;
    for rtt in [0, 1200, 1299, 1300, 2500, 4200, 9000] {
        let grade = health_grade(&sample(rtt, 0, 0, 0), &thresholds);
        assert!(grade <= last);
        last = grade;
    }
    assert_eq!(last, 70);
    assert_eq!(
        parse_tcp_info(&TcpInfo {
            rtt: 40_999,
            rttvar: 1_000,
            retransmits: 2,
            total_retrans: 3,
            unacked: 4,
        }),
        TcpStats { rtt_ms: 40, rtt_var_ms: 1, retransmits: 2, total_retrans: 3, unacked: 4 }
    );
}

#[test]
fn sock_diag_requests_are_well_formed() {
    let peer = SocketAddr { ip: IpAddr::V4([192, 168, 1, 9]), port: 443 };
    let request = build_request(ByteOrder::Little, 2, &peer);
    assert_eq!(request.id.port, [0, 443u16.swap_bytes()]);
    assert_eq!(request.id.dst[3].to_le_bytes(), [192, 168, 1, 9]);
    let big = build_request(ByteOrder::Big, 2, &peer);
    assert_eq!(big.id.port, [0, 443]);
    assert_eq!(big.id.dst[3].to_be_bytes(), [192, 168, 1, 9]);
    let message = encode_message(ByteOrder::Little, 5, &request);
    assert_eq!(message.len(), 72);
    assert_eq!(&message[..8], &[72, 0, 0, 0, 20, 0, 1, 3]);
    assert_eq!(&message[16..20], &[2, 6, 2, 0]);
    assert_eq!(&message[26..28], &[1, 187]);
    assert_eq!(&message[56..60], &[192, 168, 1, 9]);
    let v6 = SocketAddr { ip: IpAddr::V6([0x2001, 0xdb8, 0, 0, 0, 0, 0, 1]), port: 443 };
    let request = build_request(ByteOrder::Little, 10, &v6);
    assert_eq!(request.id.dst[0].to_le_bytes(), [0x20, 1, 0x0d, 0xb8]);
    assert_eq!(request.id.dst[3].to_le_bytes(), [0, 0, 0, 1]);
}

/// A socket message of an established connection with the given round trip.
fn diag_message(state: u8, rtt: u32) -> Vec<u8> {
    let mut message = vec![0u8; 72];
    message[1] = state;
    // An attribute to skip, of five bytes.
    message.extend([5, 0, 9, 0, 7, 0, 0, 0]);
    let mut info = vec![0u8; 104];
    info[2] = 1;
    info[68..72].copy_from_slice(&rtt.to_le_bytes());
    info[100..104].copy_from_slice(&6u32.to_le_bytes());
    message.extend([108, 0, 2, 0]);
    message.extend(info);
    message
}

fn netlink(kind: u16, payload: &[u8]) -> Vec<u8> {
    let mut message = ((16 + payload.len()) as u32).to_le_bytes().to_vec();
    message.extend(kind.to_le_bytes());
    message.extend([0u8; 10]);
    message.extend(payload);
    while message.len() % 4 != 0 {
        message.push(0);
    }
    message
}

#[test]
fn established_connections_are_collected() {
    let mut stats = Vec::new();
    let mut datagram = netlink(20, &diag_message(1, 42_000));
    datagram.extend(netlink(20, &diag_message(10, 1_000)));
    assert_eq!(
        read_datagram(ByteOrder::Little, &datagram, &mut stats),
        DatagramEnd::More
    );
    assert_eq!(stats.len(), 1, "listening sockets do not count");
    assert_eq!(stats[0].rtt_ms, 42);
    assert_eq!(stats[0].retransmits, 1);
    assert_eq!(stats[0].total_retrans, 6);
    assert_eq!(
        read_datagram(ByteOrder::Little, &netlink(3, &[0; 4]), &mut stats),
        DatagramEnd::Done
    );
    let mut error = (-13i32).to_le_bytes().to_vec();
    error.extend([0u8; 16]);
    assert_eq!(
        read_datagram(ByteOrder::Little, &netlink(2, &error), &mut stats),
        DatagramEnd::Failed(13)
    );
    let mut cut = diag_message(1, 1);
    cut.truncate(100);
    collect_message(ByteOrder::Little, &cut, &mut stats);
    assert_eq!(stats.len(), 1);
    assert_eq!(nlmsg_align(13), 16);
    assert_eq!(nlmsg_align(16), 16);
}
