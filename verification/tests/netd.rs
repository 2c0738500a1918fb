//! The routing daemon, its rules and its client.
use yarisugi::controller::netd_client::{
    read_reply, ClientError, NetdClient, Question, RoutingSpec,
};
use yarisugi::netd::daemon::{
    authorize_uid, backend_disabled, backend_enabled, check_subnet,
    open_session, process_request, validate_config, DaemonError, DaemonState, DaemonStep, Ipv4Net,
    Ipv6Net, SessionCounter, Subnet,
};
use yarisugi::netd::netfilter::{
    cidr_set, default_bypass_v4, install_action, install_next, policy_args, removal_steps,
    render_ruleset, route_args, rule_args, rules_of, Hook, InstallAction, InstallState, Op, Rule,
    TProxySettings,
};
use yarisugi::netd::proto::{
    encode_frame, frame_length, FrameError, NetdRequest, NetdResponse, MAX_FRAME_BYTES,
    PROTOCOL_VERSION,
};
use yarisugi::netd::wire::{
    decode_request, decode_response, encode_request, encode_response,
};
use yarisugi::time::{Duration, Instant};

fn settings(tproxy_port: u16, fwmark: u32, table: u32) -> TProxySettings {
    TProxySettings {
        tproxy_port,
        proxy_fwmark: fwmark,
        table_id: table,
        dns_ipv4: None,
        bypass_subnets: vec!["192.168.0.0/16".into()],
        bypass_subnets_v6: vec!["2001:db8::/32".into()],
        core_uid: Some(1000),
    }
}

#[test]
fn ruleset_contains_dual_stack_tproxy_pipeline() {
    let rendered = render_ruleset(&settings(12345, 0x1, 100));
    assert!(rendered.contains("tproxy to :12345"));
    assert_eq!(rendered.matches("meta mark set 0x1").count(), 2);
    assert_eq!(rendered.matches("meta mark 0x1 return").count(), 2);
    assert!(rendered.contains("meta skuid 1000 return"));
    assert!(rendered.contains("ip daddr @bypass_v4 return"));
    assert!(rendered.contains("ip6 daddr @bypass_v6 return"));
    assert!(rendered.contains("::1/128"));
    assert!(rendered.contains("fc00::/7"));
    assert!(rendered.contains("192.168.0.0/16"));
    assert!(rendered.contains("2001:db8::/32"));
}

#[test]
fn ruleset_omits_uid_bypass_when_unset() {
    let mut empty = settings(12345, 0x1, 100);
    empty.core_uid = None;
    assert!(!render_ruleset(&empty).contains("skuid"));
}

#[test]
fn mark_is_formatted_as_hex() {
    assert!(render_ruleset(&settings(12345, 0xff, 100)).contains("meta mark 0xff"));
}

#[test]
fn policy_rules_use_fwmark_table_and_family() {
    let cfg = settings(12345, 0x1, 100);
    assert_eq!(
        rule_args(true, Op::Add, &cfg).join(" "),
        "ip rule add fwmark 0x1 lookup 100"
    );
    assert_eq!(
        rule_args(false, Op::Add, &cfg).join(" "),
        "ip -6 rule add fwmark 0x1 lookup 100"
    );
    assert_eq!(
        route_args(false, Op::Del, &cfg).join(" "),
        "ip -6 route flush table 100"
    );
    assert_eq!(
        route_args(true, Op::Add, &cfg).join(" "),
        "ip route add local 0.0.0.0/0 dev lo table 100"
    );
}

#[test]
fn configured_bypass_matches_local_defaults_without_duplication() {
    let mut cfg = settings(12345, 0x1, 100);
    cfg.bypass_subnets = vec!["127.0.0.0/8".into(), "10.0.0.0/8".into()];
    let cidrs = cidr_set(&cfg.bypass_subnets, &default_bypass_v4());
    assert_eq!(cidrs.matches("127.0.0.0/8").count(), 1);
    assert!(cidrs.contains("10.0.0.0/8"));
    assert_eq!(cidrs, "127.0.0.0/8, 169.254.0.0/16, 10.0.0.0/8");
}

#[test]
fn rejects_default_bypass() {
    let result = validate_config(12345, 1, 100, None, vec!["0.0.0.0/0".into()]);
    assert!(result.is_err());
    assert_eq!(result.unwrap_err(), DaemonError::DefaultRoute);
}

#[test]
fn accepts_bounded_config() {
    let result = validate_config(12345, 0x1, 100, None, vec!["192.168.0.0/16".into()]);
    assert!(result.is_ok());
    let config = result.unwrap();
    assert_eq!(config.bypass_subnets[0].addr, [192, 168, 0, 0]);
    assert_eq!(config.bypass_subnets[0].prefix_len, 16);
    let settings = TProxySettings::from_config(&config);
    assert_eq!(settings.bypass_subnets, vec!["192.168.0.0/16"]);
}

#[test]
fn configurations_out_of_bounds_are_refused() {
    let refused = |port, mark, table, dns, subnets: Vec<String>| {
        validate_config(port, mark, table, dns, subnets).unwrap_err().message()
    };
    assert_eq!(
        refused(80, 1, 100, None, vec![]),
        "tproxy port must be between 1024 and 65535"
    );
    assert_eq!(
        refused(12345, 0, 100, None, vec![]),
        "proxy firewall mark is outside the supported range"
    );
    assert_eq!(
        refused(12345, u32::MAX, 100, None, vec![]),
        "proxy firewall mark is outside the supported range"
    );
    assert_eq!(
        refused(12345, 1, 253, None, vec![]),
        "routing table must be between 1 and 252"
    );
    for dns in [[0, 0, 0, 0], [224, 0, 0, 1], [255, 255, 255, 255]] {
        assert_eq!(refused(12345, 1, 100, Some(dns), vec![]), "DNS address is not routable");
    }
    assert_eq!(
        refused(12345, 1, 100, None, vec!["10.0.0.0/8".to_owned(); 257]),
        "too many bypass subnets"
    );
    assert_eq!(
        refused(12345, 1, 100, None, vec!["10.0.0.0".into()]),
        "invalid IPv4 subnet: 10.0.0.0"
    );
}

fn enable(session_id: u64, v6: Vec<String>) -> NetdRequest {
    NetdRequest::EnableRouting {
        session_id,
        tproxy_port: 12345,
        proxy_fwmark: 1,
        table_id: 100,
        dns_ipv4: Some([1, 1, 1, 1]),
        bypass_subnets: vec!["192.168.0.0/16".into()],
        bypass_subnets_v6: v6,
        core_uid: Some(1000),
    }
}

fn moment(secs: u64) -> Instant {
    Instant { nanos: secs * 1_000_000_000 }
}

#[test]
fn routing_follows_its_controller() {
    let mut state = DaemonState::new(moment(0));
    let step = process_request(&mut state, enable(7, vec!["fd00::/8".into()]), 7, moment(1));
    let config = match step {
        DaemonStep::EnableBackend(config) => config,
        other => panic!("{other:?}"),
    };
    assert_eq!(
        TProxySettings::from_config(&config).bypass_subnets_v6,
        vec!["fd00::/8"]
    );
    let reply = backend_enabled(&mut state, 7, config, None, moment(2));
    assert_eq!(reply, NetdResponse::RoutingEnabled);
    assert!(state.routing_active);

    // Another session is kept out, and changes nothing.
    let refused = process_request(&mut state, enable(8, vec![]), 8, moment(3));
    assert_eq!(
        refused,
        DaemonStep::Reply(NetdResponse::Error(
            "another controller session is already active".into()
        ))
    );
    assert_eq!(state.active_session, Some(7));
    let foreign = process_request(
        &mut state,
        NetdRequest::DisableRouting { session_id: 7 },
        8,
        moment(3),
    );
    assert_eq!(
        foreign,
        DaemonStep::Reply(NetdResponse::Error("session does not own the controller".into()))
    );

    // Heartbeats keep the watchdog quiet, silence does not.
    assert!(!state.watchdog_expired(moment(5)));
    assert!(state.watchdog_expired(moment(6)));
    assert!(state.watchdog_expired(moment(7)));
    let beat = NetdRequest::Heartbeat { session_id: 7, sequence: 3 };
    assert_eq!(
        process_request(&mut state, beat, 7, moment(8)),
        DaemonStep::Reply(NetdResponse::HeartbeatAck { sequence: 3 })
    );
    assert!(!state.watchdog_expired(moment(11)));
    assert!(state.watchdog_expired(moment(13)));

    // A disconnect of the controller calls for a rollback.
    assert!(state.disconnect_needs_rollback(7));
    assert!(!state.disconnect_needs_rollback(8));
    assert_eq!(
        backend_disabled(&mut state, Some("nft failed".into())),
        NetdResponse::Error("nft failed".into())
    );
    assert!(state.routing_active);
    assert_eq!(backend_disabled(&mut state, None), NetdResponse::RoutingDisabled);
    assert!(!state.routing_active);
    assert_eq!(state.active_session, None);
    assert!(!state.watchdog_expired(moment(1000)));
}

#[test]
fn failed_backends_release_the_controller() {
    let mut state = DaemonState::new(moment(0));
    let step = process_request(&mut state, enable(7, vec![]), 7, moment(1));
    let config = match step {
        DaemonStep::EnableBackend(config) => config,
        other => panic!("{other:?}"),
    };
    assert_eq!(state.active_session, Some(7));
    let reply = backend_enabled(&mut state, 7, config, Some("no nft".into()), moment(2));
    assert_eq!(reply, NetdResponse::Error("no nft".into()));
    assert_eq!(state.active_session, None);
    assert!(!state.routing_active);
}

#[test]
fn bad_ipv6_subnets_are_refused() {
    let mut state = DaemonState::new(moment(0));
    let message = |step| match step {
        DaemonStep::Reply(NetdResponse::Error(message)) => message,
        other => panic!("{other:?}"),
    };
    assert_eq!(
        message(process_request(&mut state, enable(1, vec!["10.0.0.0/8".into()]), 1, moment(0))),
        "invalid IPv6 subnet: 10.0.0.0/8"
    );
    assert_eq!(
        message(process_request(&mut state, enable(1, vec!["::/0".into()]), 1, moment(0))),
        "the default route cannot be a bypass subnet"
    );
    assert_eq!(
        message(process_request(
            &mut state,
            NetdRequest::Handshake { client_version: 1 },
            1,
            moment(0)
        )),
        "handshake may only be sent once"
    );
}

#[test]
fn sessions_open_with_a_matching_handshake() {
    let mut counter = SessionCounter::new();
    assert_eq!(counter.next_session_id(), 1);
    assert_eq!(counter.next_session_id(), 2);
    let good = NetdRequest::Handshake { client_version: PROTOCOL_VERSION };
    let old = NetdRequest::Handshake { client_version: PROTOCOL_VERSION + 1 };
    assert_eq!(open_session(&old, &mut counter), Err(DaemonError::VersionMismatch));
    let early = NetdRequest::DisableRouting { session_id: 2 };
    assert_eq!(open_session(&early, &mut counter), Err(DaemonError::HandshakeRequired));
    assert_eq!(
        open_session(&good, &mut counter),
        Ok((
            3,
            NetdResponse::HandshakeOk { daemon_version: PROTOCOL_VERSION, session_id: 3 }
        ))
    );
    assert_eq!(counter.next, 4, "a refused handshake takes no number");
    counter.next = u64::MAX;
    assert_eq!(open_session(&good, &mut counter).unwrap().0, u64::MAX);
    assert_eq!(counter.next_session_id(), 0);
}

#[test]
fn a_run_of_the_watchdog_ends_silent_routing() {
    let second = |n: u64| Instant { nanos: n * 1_000_000_000 };
    let mut state = DaemonState::new(second(10));
    state.active_session = Some(3);
    state.routing_active = true;
    let mut rolled_back_at = Vec::new();
    for n in 10..30 {
        if state.watchdog_expired(second(n)) {
            assert_eq!(backend_disabled(&mut state, None), NetdResponse::RoutingDisabled);
            rolled_back_at.push(n);
        }
    }
    assert_eq!(rolled_back_at, vec![14]);
    assert!(!state.routing_active && state.routing_config.is_none());
    assert_eq!(state.active_session, None);
}

#[test]
fn only_root_and_the_configured_user_may_connect() {
    assert!(authorize_uid(0, &None).is_ok());
    assert!(authorize_uid(1000, &Some("1000".into())).is_ok());
    assert_eq!(authorize_uid(1000, &None), Err(DaemonError::AllowedUidMissing));
    assert_eq!(
        authorize_uid(1000, &Some("root".into())),
        Err(DaemonError::AllowedUidNotNumeric)
    );
    assert_eq!(
        authorize_uid(1000, &Some("1001".into())),
        Err(DaemonError::UidNotAuthorized)
    );
}

#[test]
fn installations_roll_back_after_a_failed_ruleset() {
    let cfg = settings(12345, 0x1, 100);
    let mut state = InstallState::Policy(0);
    for i in 0..4 {
        assert_eq!(
            install_action(state, &cfg),
            InstallAction::Run(policy_args(i, Op::Add, &cfg))
        );
        state = install_next(state, true);
    }
    assert_eq!(install_action(state, &cfg), InstallAction::Apply(render_ruleset(&cfg)));
    assert_eq!(install_next(state, true), InstallState::Installed);
    state = install_next(state, false);
    for i in 0..4 {
        assert_eq!(
            install_action(state, &cfg),
            InstallAction::Run(policy_args(i, Op::Del, &cfg))
        );
        state = install_next(state, i % 2 == 0);
    }
    assert_eq!(state, InstallState::RulesetFailed);
    assert_eq!(install_action(state, &cfg), InstallAction::Nothing);
}

#[test]
fn installations_roll_back_after_a_failed_policy_command() {
    let cfg = settings(12345, 0x1, 100);
    assert_eq!(install_next(InstallState::Policy(0), false), InstallState::PolicyFailed);
    for done in 1..4 {
        let mut state = install_next(InstallState::Policy(done), false);
        for i in 0..done {
            assert_eq!(
                install_action(state, &cfg),
                InstallAction::Run(policy_args(i, Op::Del, &cfg))
            );
            state = install_next(state, i % 2 == 0);
        }
        assert_eq!(state, InstallState::PolicyFailed);
        assert_eq!(install_action(state, &cfg), InstallAction::Nothing);
    }
}

#[test]
fn queries_are_captured_before_bypasses() {
    let rendered = render_ruleset(&settings(12345, 0x1, 100));
    for chain in ["chain prerouting", "chain output"] {
        let rules = &rendered[rendered.find(chain).unwrap()..];
        let bypass = rules.find("@bypass_v4 return").unwrap();
        assert!(rules.find("udp dport 53").unwrap() < bypass);
        assert!(rules.find("tcp dport 53").unwrap() < bypass);
        assert!(rules.find("meta mark 0x1 return").unwrap() < rules.find("dport 53").unwrap());
    }
    assert_eq!(
        rules_of(Hook::Output, Some(7))[..4],
        [Rule::Marked, Rule::OwnedBy(7), Rule::UdpQueries, Rule::TcpQueries]
    );
    assert_eq!(rules_of(Hook::Prerouting, Some(7))[1], Rule::UdpQueries);
}

#[test]
fn frames_read_back() {
    let payload = vec![7u8; 300];
    let frame = encode_frame(&payload).unwrap();
    assert_eq!(&frame[..4], &[0, 0, 1, 44]);
    assert_eq!(frame_length([frame[0], frame[1], frame[2], frame[3]]), Ok(300));
    assert_eq!(&frame[4..], &payload[..]);
    assert_eq!(
        encode_frame(&vec![0; MAX_FRAME_BYTES + 1]),
        Err(FrameError::TooLarge(MAX_FRAME_BYTES + 1))
    );
    assert_eq!(
        FrameError::TooLarge(65537).message(),
        "request frame too large: 65537 bytes"
    );
    assert_eq!(frame_length([0, 0, 0, 0]), Err(FrameError::InvalidLength(0)));
    assert_eq!(frame_length([0, 1, 0, 1]), Err(FrameError::InvalidLength(65537)));
    assert_eq!(FrameError::InvalidLength(0).message(), "invalid netd frame length 0");
}

// --- The client. ---

/// A daemon that answers everything as hoped.
fn answer(request: &NetdRequest) -> NetdResponse {
    match request {
        NetdRequest::Handshake { .. } => NetdResponse::HandshakeOk {
            daemon_version: PROTOCOL_VERSION,
            session_id: 42,
        },
        NetdRequest::EnableRouting { .. } => NetdResponse::RoutingEnabled,
        NetdRequest::DisableRouting { .. } => NetdResponse::RoutingDisabled,
        NetdRequest::Heartbeat { sequence, .. } => NetdResponse::HeartbeatAck {
            sequence: *sequence,
        },
    }
}

#[test]
fn client_handshakes_and_routes_with_fake_daemon() {
    let mut client = NetdClient::new();
    let handshake = NetdClient::handshake_request(PROTOCOL_VERSION);
    client.reconnect(answer(&handshake)).unwrap();
    assert_eq!(client.session_id(), 42, "session id from handshake");

    let spec = RoutingSpec {
        tproxy_port: 12345,
        fwmark: 0x1,
        table_id: 100,
        dns_ipv4: Some([1, 1, 1, 1]),
        bypass_subnets: vec!["192.168.0.0/16".into()],
        bypass_subnets_v6: vec![],
        core_uid: None,
    };
    let enabling = client.enable_routing(&spec).unwrap();
    read_reply(Question::EnableRouting, answer(&enabling)).unwrap();
    let disabling = client.disable_routing().unwrap();
    read_reply(Question::DisableRouting, answer(&disabling)).unwrap();
    let beat = client.heartbeat().unwrap();
    let acked = client.heartbeat_answered(answer(&beat)).unwrap();
    assert_eq!(acked, 0, "first heartbeat sequence");
    assert_eq!(
        client.heartbeat().unwrap(),
        NetdRequest::Heartbeat { session_id: 42, sequence: 1 }
    );

    assert!(matches!(
        &handshake,
        NetdRequest::Handshake { client_version } if *client_version == PROTOCOL_VERSION
    ));
    let NetdRequest::EnableRouting {
        session_id,
        tproxy_port,
        proxy_fwmark,
        dns_ipv4,
        bypass_subnets,
        ..
    } = &enabling
    else {
        panic!("expected EnableRouting, got {enabling:?}");
    };
    assert_eq!(*session_id, 42);
    assert_eq!(*tproxy_port, 12345);
    assert_eq!(*proxy_fwmark, 0x1);
    assert_eq!(*dns_ipv4, Some([1, 1, 1, 1]));
    assert_eq!(bypass_subnets, &vec!["192.168.0.0/16".to_string()]);
}

#[test]
fn clients_without_a_connection_ask_nothing() {
    let client = NetdClient::new();
    assert_eq!(client.heartbeat(), Err(ClientError::Closed));
    assert_eq!(client.disable_routing(), Err(ClientError::Closed));
    assert_eq!(ClientError::Closed.message(), "netd connection is closed");
    assert_eq!(NetdClient::retry_after(2), Some(Duration::from_millis(250)));
    assert_eq!(NetdClient::retry_after(3), None);
}

#[test]
fn refusals_and_odd_replies_are_told_apart() {
    let mut client = NetdClient::new();
    let refused = client.reconnect(NetdResponse::Error("no".into())).unwrap_err();
    assert_eq!(refused.message(), "netd rejected handshake: no");
    assert!(!client.connected);
    let odd = client.reconnect(NetdResponse::RoutingEnabled).unwrap_err();
    assert_eq!(
        odd,
        ClientError::Unexpected {
            question: Question::Handshake,
            reply: NetdResponse::RoutingEnabled,
        }
    );
    assert_eq!(odd.message(), "unexpected handshake reply: RoutingEnabled");
    let refused = read_reply(Question::EnableRouting, NetdResponse::Error("x".into()));
    assert_eq!(refused.unwrap_err().message(), "netd: x");
    let odd = read_reply(Question::DisableRouting, NetdResponse::State { routing_active: true });
    assert_eq!(
        odd.unwrap_err().message(),
        "unexpected netd reply to DisableRouting: State { routing_active: true }"
    );
}

#[test]
fn answers_are_shown_as_they_debug() {
    for reply in [
        NetdResponse::HandshakeOk { daemon_version: 1, session_id: 42 },
        NetdResponse::RoutingEnabled,
        NetdResponse::RoutingDisabled,
        NetdResponse::HeartbeatAck { sequence: 9 },
        NetdResponse::State { routing_active: false },
        NetdResponse::State { routing_active: true },
        NetdResponse::Error("a \"b\"\n".into()),
    ] {
        assert_eq!(reply.to_text(), format!("{reply:?}"));
    }
}

#[test]
fn rulesets_are_rendered_to_the_letter() {
    let rendered = render_ruleset(&settings(12345, 0x1, 100));
    assert_eq!(
        rendered,
        "table inet myproxy {\n\tset bypass_v4 {\n\t\ttype ipv4_addr\n\t\tflags interval\n\t\telements = \
         { 127.0.0.0/8, 169.254.0.0/16, 192.168.0.0/16 }\n\t}\n\tset bypass_v6 {\n\t\ttype ipv6_addr\n\t\t\
         flags interval\n\t\telements = { ::1/128, fe80::/10, fc00::/7, 2001:db8::/32 }\n\t}\n\tchain \
         divert {\n\t\tmeta l4proto { tcp, udp } tproxy to :12345 meta mark set 0x1 accept\n\t}\n\tchain \
         remark {\n\t\tmeta l4proto { tcp, udp } meta mark set 0x1 accept\n\t}\n\tchain \
         prerouting {\n\t\ttype filter hook prerouting priority mangle; policy accept;\n\t\tmeta mark \
         0x1 return\n\t\tudp dport 53 goto divert\n\t\ttcp dport 53 goto divert\n\t\tip daddr \
         @bypass_v4 return\n\t\tip6 daddr @bypass_v6 return\n\t\tgoto divert\n\t}\n\tchain output \
         {\n\t\ttype route hook output priority mangle; policy accept;\n\t\tmeta mark 0x1 return\n\t\t\
         meta skuid 1000 return\n\t\tudp dport 53 goto remark\n\t\ttcp dport 53 goto remark\n\t\tip \
         daddr @bypass_v4 return\n\t\tip6 daddr @bypass_v6 return\n\t\tgoto remark\n\t}\n}\n"
    );
}

#[test]
fn removal_takes_back_what_was_installed() {
    let table = InstallAction::Apply("delete table inet myproxy".to_owned());
    assert_eq!(removal_steps(&None), vec![table.clone()]);
    let cfg = settings(12345, 0x1, 100);
    let steps = removal_steps(&Some(cfg.clone()));
    assert_eq!(steps.len(), 5);
    assert_eq!(steps[0], table);
    for i in 0..4 {
        assert_eq!(steps[i + 1], InstallAction::Run(policy_args(i, Op::Del, &cfg)));
    }
}

#[test]
fn only_the_controller_takes_routing_along() {
    let now = Instant { nanos: 0 };
    let mut state = DaemonState::new(now);
    state.active_session = Some(3);
    state.routing_active = true;
    assert!(state.disconnect_needs_rollback(3));
    assert!(!state.disconnect_needs_rollback(4));
    state.release_session(4);
    assert_eq!(state.active_session, Some(3));
    assert_eq!(backend_disabled(&mut state, None), NetdResponse::RoutingDisabled);
    assert!(!state.routing_active);
    assert!(!state.disconnect_needs_rollback(3));
}

#[test]
fn read_subnets_are_checked() {
    let net = |prefix_len| Ipv4Net { addr: [10, 0, 0, 0], prefix_len };
    assert_eq!(check_subnet("10.0.0.0/8", Some(net(8))).unwrap(), net(8));
    assert_eq!(check_subnet::<Ipv4Net>("x", None).unwrap_err(), DaemonError::InvalidSubnet("x".to_owned()));
    assert_eq!(check_subnet("10.0.0.0/0", Some(net(0))).unwrap_err(), DaemonError::DefaultRoute);
    let net = |prefix_len| Ipv6Net { addr: [0xfc00, 0, 0, 0, 0, 0, 0, 0], prefix_len };
    assert_eq!(check_subnet("fc00::/7", Some(net(7))).unwrap().to_text(), "fc00::/7");
    assert_eq!(
        check_subnet::<Ipv6Net>("x", None).unwrap_err(),
        DaemonError::InvalidSubnetV6("x".to_owned())
    );
    assert_eq!(check_subnet("fc00::/0", Some(net(0))).unwrap_err(), DaemonError::DefaultRoute);
}

#[test]
fn subnet_texts_are_read() {
    let v4 = |s: &str| Ipv4Net::parse(s).map(|n| (n.addr, n.prefix_len));
    assert_eq!(v4("010.0.0.1/08"), Some(([10, 0, 0, 1], 8)));
    assert_eq!(v4("255.255.255.255/32"), Some(([255; 4], 32)));
    for bad in [
        "10.0.0.0/33", "10.0.0/8", "10.0.0.256/8", "10.0.0.0", "10.0.0.0/8/", "0010.0.0.0/8",
        "10.0.0.0/", "/8", "10.0.0.0/+8", " 10.0.0.0/8", "10..0.0/8", "10.0.0.0/008", "",
    ] {
        assert_eq!(v4(bad), None, "{bad}");
    }
    let v6 = |s: &str| Ipv6Net::parse(s).map(|n| (n.addr, n.prefix_len));
    assert_eq!(v6("1:2:3:4:5:6:7::8/64"), Some(([1, 2, 3, 4, 5, 6, 7, 8], 64)));
    assert_eq!(v6("1:2:3:4:5:6:7::/64"), Some(([1, 2, 3, 4, 5, 6, 7, 0], 64)));
    assert_eq!(v6("::ffff:192.168.001.1/96"), Some(([0, 0, 0, 0, 0, 0xffff, 0xc0a8, 0x0101], 96)));
    assert_eq!(v6("1:2:3:4:5:6:1.2.3.4/8"), Some(([1, 2, 3, 4, 5, 6, 0x0102, 0x0304], 8)));
    assert_eq!(v6("::1/007"), Some(([0, 0, 0, 0, 0, 0, 0, 1], 7)));
    assert_eq!(v6("::/0"), Some(([0; 8], 0)));
    assert_eq!(v6("2001:DB8:0042::/128"), Some(([0x2001, 0xdb8, 0x42, 0, 0, 0, 0, 0], 128)));
    for bad in [
        "1:2:3:4:5:6:7:8::/64", "1.2.3.4::/64", ":::/8", "::/129", "1::2::3/8", "12345::/8",
        "1:2:3:4:5:6:7:1.2.3.4/8", "1:2:3:4:5:6:7:8:9/8", "1:2:3:4:5:6:7/8", ":1::/8", "1:/8",
        "::1.2.3.4:5/8", "::1.2.3/8", "::g/8", "::", "::/0001", "/8", "",
        "1:2:3:4:5:6:7::8:9/8",
    ] {
        assert_eq!(v6(bad), None, "{bad}");
    }
}

fn every_request() -> Vec<NetdRequest> {
    let routing = |dns_ipv4, core_uid| NetdRequest::EnableRouting {
        session_id: 0x0102_0304_0506_0708,
        tproxy_port: 7893,
        proxy_fwmark: 0xff,
        table_id: 100,
        dns_ipv4,
        bypass_subnets: vec!["10.0.0.0/8".into(), String::new()],
        bypass_subnets_v6: Vec::new(),
        core_uid,
    };
    vec![
        NetdRequest::Handshake { client_version: PROTOCOL_VERSION },
        routing(None, None),
        routing(Some([1, 1, 1, 1]), Some(1000)),
        NetdRequest::DisableRouting { session_id: 9 },
        NetdRequest::Heartbeat { session_id: 9, sequence: u64::MAX },
    ]
}

fn every_response() -> Vec<NetdResponse> {
    vec![
        NetdResponse::HandshakeOk { daemon_version: 1, session_id: 2 },
        NetdResponse::RoutingEnabled,
        NetdResponse::RoutingDisabled,
        NetdResponse::HeartbeatAck { sequence: 3 },
        NetdResponse::State { routing_active: true },
        NetdResponse::Error("h\u{f6}r auf".into()),
    ]
}

#[test]
fn messages_are_read_as_sent() {
    for request in every_request() {
        let mut sent = encode_request(&request);
        for n in 0..sent.len() {
            assert_eq!(decode_request(&sent[..n]), None);
        }
        assert_eq!(decode_request(&sent), Some(request.clone()));
        sent.push(7);
        assert_eq!(decode_request(&sent), Some(request));
    }
    for response in every_response() {
        let sent = encode_response(&response);
        for n in 0..sent.len() {
            assert_eq!(decode_response(&sent[..n]), None);
        }
        assert_eq!(decode_response(&sent), Some(response));
    }
    assert_eq!(decode_request(&[4, 0, 0, 0]), None);
    assert_eq!(decode_response(&[6, 0, 0, 0]), None);
    assert_eq!(decode_response(&[4, 0, 0, 0, 2]), None);
}

#[test]
fn messages_have_the_form_of_their_fields() {
    assert_eq!(
        encode_request(&every_request()[2]),
        bincode::serialize(&(
            1u32,
            0x0102_0304_0506_0708u64,
            7893u16,
            0xffu32,
            100u32,
            Some([1u8, 1, 1, 1]),
            vec!["10.0.0.0/8", ""],
            Vec::<String>::new(),
            Some(1000u32),
        ))
        .unwrap()
    );
    assert_eq!(
        encode_response(&every_response()[5]),
        bincode::serialize(&(5u32, "h\u{f6}r auf")).unwrap()
    );
}
