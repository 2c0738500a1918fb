//! Subscriptions in all their formats.
use base64::engine::general_purpose::{STANDARD, STANDARD_NO_PAD, URL_SAFE, URL_SAFE_NO_PAD};
use base64::Engine;
use yarisugi::ir::node::EndpointTarget;
use yarisugi::ir::protocol::{
    Hysteria2Config, ProtocolSpec, ShadowsocksCipher, ShadowsocksConfig, TuicConfig,
    TuicCongestion, TuicUdpRelay, VmessCipher, VmessConfig,
};
use yarisugi::ir::transport::{
    RealityConfig, SecuritySpec, StandardTlsConfig, TransportSpec, UtlsFingerprint,
    WebSocketConfig,
};
use yarisugi::parser::clash::ingest_clash_yaml;
use yarisugi::parser::error::ParseError;
use yarisugi::parser::format::{
    decode_bundle, detect_container, is_supported_scheme, looks_like_supported_entry, scheme_of,
    within_limit, ContainerKind,
};
use yarisugi::parser::ingest::{
    collect_entries, ingest_subscription, ingest_with_timestamp, safe_snippet,
};
use yarisugi::parser::metadata::{extract_country_code, make_metadata};
use yarisugi::parser::uri::{parse_entry, parse_ss_method, parse_vmess_document};
use yarisugi::parser::wire::JsonNode;
use yarisugi::parser::yaml::{read_yaml, Yaml};

const SAMPLE: &str = r#"
proxies:
  - name: "SS JP 🇯🇵"
    type: ss
    server: 1.2.3.4
    port: 8388
    cipher: aes-128-gcm
    password: secret
  - name: "VMess - Tokyo [JP]"
    type: vmess
    server: example.com
    port: 443
    uuid: 00000000-0000-0000-0000-000000000000
    alterId: 0
    cipher: auto
    tls: true
    servername: host.example.com
    network: ws
    ws-opts:
      path: /ws?ed=2048
      headers:
        Host: host.example.com
  - name: "Trojan Deutschland"
    type: trojan
    server: t.example.net
    port: 443
    password: hunter2
    sni: t.example.net
  - name: "VLESS Reality"
    type: vless
    server: r.example.org
    port: 443
    uuid: 11111111-1111-1111-1111-111111111111
    tls: true
    servername: www.example.org
    reality-opts:
      public-key: AABBCCDD
      short-id: 1234
  - name: "Hy2 SG"
    type: hysteria2
    server: 2001:db8::1
    port: 443
    password: hy
    up: "30"
    down: "100"
    obfs: salamander
    obfs-password: sop
    ports: "443,8443"
  - name: "TUIC - San Jose"
    type: tuic
    server: t.example.com
    port: 7788
    uuid: 22222222-2222-2222-2222-222222222222
    password: tpass
    congestion-controller: bbr
    udp-relay-mode: quic
  - name: "Old SSR"
    type: ssr
    server: x.example.com
    port: 8443
"#;

#[test]
fn parses_supported_clash_proxy_types() {
    let results = ingest_clash_yaml(SAMPLE, 7, 42).expect("yaml parses");
    let nodes: Vec<_> = results.iter().filter_map(|result| result.as_ref().ok()).collect();
    assert_eq!(nodes.len(), 6);

    assert!(matches!(
        &nodes[0].protocol,
        ProtocolSpec::Shadowsocks(ShadowsocksConfig { method: ShadowsocksCipher::Aes128Gcm, .. })
    ));
    assert_eq!(nodes[0].meta.country_code, *b"JP"); // emoji wins

    assert!(matches!(
        &nodes[1].protocol,
        ProtocolSpec::Vmess(VmessConfig { alter_id: 0, .. })
    ));
    assert!(matches!(
        &nodes[1].transport,
        TransportSpec::WebSocket(WebSocketConfig { path, host, .. })
            if path == "/ws?ed=2048" && host.as_deref() == Some("host.example.com")
    ));
    assert!(matches!(
        &nodes[1].security,
        SecuritySpec::Tls(StandardTlsConfig { server_name, .. })
            if server_name == "host.example.com"
    ));
    assert_eq!(nodes[1].meta.country_code, *b"JP"); // bracket tag

    assert!(matches!(&nodes[2].protocol, ProtocolSpec::Trojan(_)));
    assert!(matches!(&nodes[2].security, SecuritySpec::Tls(_))); // trojan defaults to tls
    assert_eq!(nodes[2].meta.country_code, *b"DE"); // dictionary

    assert!(matches!(
        &nodes[3].security,
        SecuritySpec::Reality(RealityConfig { public_key, short_id, server_name, .. })
            if public_key == "AABBCCDD" && short_id == "1234" && server_name == "www.example.org"
    ));
    assert!(matches!(
        &nodes[3].endpoint,
        EndpointTarget::Domain { host, .. } if host == "r.example.org"
    ));

    assert!(matches!(
        &nodes[4].protocol,
        ProtocolSpec::Hysteria2(Hysteria2Config {
            up_mbps: Some(30),
            down_mbps: Some(100),
            obfs: Some(_),
            ..
        })
    ));
    assert!(matches!(&nodes[4].endpoint, EndpointTarget::Ip(_)));

    assert!(matches!(
        &nodes[5].protocol,
        ProtocolSpec::Tuic(TuicConfig {
            congestion_control: TuicCongestion::Bbr,
            udp_relay_mode: TuicUdpRelay::Quic,
            ..
        })
    ));
    assert_eq!(nodes[5].meta.country_code, *b"US");
}

#[test]
fn unsupported_proxy_types_are_per_item_failures() {
    let results = ingest_clash_yaml(SAMPLE, 7, 42).unwrap();
    let failures: Vec<_> = results.iter().filter_map(|result| result.as_ref().err()).collect();
    assert_eq!(failures.len(), 1);
    assert!(matches!(
        failures[0],
        ParseError::UnsupportedFormat(reason) if reason.contains("ssr")
    ));
}

#[test]
fn missing_proxies_section_is_an_error() {
    let result = ingest_clash_yaml("proxy-groups: []", 1, 1);
    assert!(matches!(result, Err(ParseError::MissingField("proxies"))));
}

#[test]
fn accepts_unpadded_url_safe_payloads() {
    let encoded =
        STANDARD_NO_PAD.encode(b"vless://example.com:443");
    assert!(looks_like_supported_entry(&decode_bundle(encoded.as_bytes()).unwrap()));
}

#[test]
fn rejects_random_decodable_text_at_dispatch_boundary() {
    let decoded = decode_bundle(b"Zm9v").unwrap();
    assert!(!looks_like_supported_entry(&decoded));
}

#[test]
fn every_base64_alphabet_is_decoded() {
    // The payload needs the two characters in which the alphabets differ.
    let payload = b"vless://\xfb\xef\xbe\xff\xff".to_vec();
    let standard = STANDARD.encode(&payload);
    let url_safe = URL_SAFE.encode(&payload);
    let bare = URL_SAFE_NO_PAD.encode(&payload);
    assert_ne!(standard, url_safe);
    for encoded in [standard, url_safe, bare] {
        assert_eq!(decode_bundle(encoded.as_bytes()).unwrap(), payload);
    }
    assert!(decode_bundle(b"!!!").is_err());
}

#[test]
fn oversized_payloads_are_dropped() {
    let limit = 8 * 1024 * 1024;
    assert_eq!(within_limit(Some(vec![0; limit])).unwrap().len(), limit);
    assert_eq!(within_limit(Some(vec![0; limit + 1])), None);
    assert_eq!(within_limit(None), None);
    assert_eq!(decode_bundle(b" \n").unwrap_err(), "empty or oversized Base64 input");
}

#[test]
fn detects_clash_yaml_containers() {
    let yaml = "proxies:\n  - name: edge-01\n    type: ss\n    server: 1.2.3.4\n";
    assert_eq!(detect_container(yaml), Some(ContainerKind::ClashYaml));
}

#[test]
fn detects_singbox_json_containers() {
    let json = r#"{"log":{},"outbounds":[{"type":"direct"}]}"#;
    assert_eq!(detect_container(json), Some(ContainerKind::SingBoxJson));
}

#[test]
fn leaves_supported_uri_entries_alone() {
    assert!(detect_container("vless://a@example.com:443#DE").is_none());
}

#[test]
fn schemes_are_known_in_any_case() {
    assert_eq!(scheme_of("VLESS://x").as_deref(), Some("VLESS"));
    assert_eq!(scheme_of("no scheme"), None);
    assert!(is_supported_scheme("hy2://x"));
    assert!(is_supported_scheme("VLESS://x"));
    assert!(!is_supported_scheme("ftp://x"));
    assert!(detect_container("{\"log\":{}}").is_none());
}

#[test]
fn malformed_entry_does_not_abort_valid_entries() {
    let input = b"vless://00000000-0000-0000-0000-000000000000@example.com:443#DE\nvless://not-a-uuid@example.com:443";
    let report = ingest_with_timestamp(input, 1, 10);
    assert_eq!(report.successful_nodes.len(), 1);
    assert_eq!(report.failed_entries.len(), 1);
}

#[test]
fn multi_line_base64_payload_is_decoded_as_one_bundle() {
    let payload =
        "vless://00000000-0000-0000-0000-000000000000@example.com:443#DE\nvless://11111111-1111-1111-1111-111111111111@example.org:443#US";
    let encoded = STANDARD.encode(payload);
    let wrapped = encoded
        .as_bytes()
        .chunks(48)
        .map(|chunk| std::str::from_utf8(chunk).unwrap())
        .collect::<Vec<_>>()
        .join("\n");
    let report = ingest_with_timestamp(wrapped.as_bytes(), 1, 10);
    assert_eq!(report.successful_nodes.len(), 2);
}

#[test]
fn clash_yaml_is_ingested() {
    let input = b"proxies:\n  - name: edge\n    type: ss\n    server: 1.2.3.4\n    port: 8388\n    cipher: aes-128-gcm\n    password: secret\n";
    let report = ingest_with_timestamp(input, 1, 10);
    assert_eq!(report.successful_nodes.len(), 1);
    assert_eq!(report.failed_entries.len(), 0);
    assert_eq!(report.successful_nodes[0].meta.country_code, *b"UN");
}

#[test]
fn shadowsocks_plugin_opts_are_preserved() {
    let link = "ss://YWVzLTEyOC1nY206cGFzcw@example.com:8388?plugin=obfs-local%3Bobfs%3Dhttp%3Bobfs-host%3Dsecret.example#SSE";
    let report = ingest_with_timestamp(link.as_bytes(), 1, 10);
    assert_eq!(report.successful_nodes.len(), 1);
    match &report.successful_nodes[0].protocol {
        ProtocolSpec::Shadowsocks(config) => {
            assert_eq!(config.plugin.as_deref(), Some("obfs-local"));
            assert_eq!(
                config.plugin_opts.as_deref(),
                Some("obfs=http;obfs-host=secret.example")
            );
        }
        _ => panic!("expected shadowsocks node"),
    }
}

#[test]
fn repeated_entries_are_counted_as_duplicates() {
    let line = "trojan://secret@example.com:443#One\n";
    let input = format!("{line}# a comment\n\n{line}");
    let report = ingest_with_timestamp(input.as_bytes(), 3, 10);
    assert_eq!(report.total_entries_scanned, 2);
    assert_eq!(report.successful_nodes.len(), 1);
    assert_eq!(report.duplicates_omitted, 1);
    assert_eq!(report.successful_nodes[0].meta.sub_id, 3);
    assert_eq!(report.successful_nodes[0].meta.import_timestamp, 10);
    assert_eq!(
        ingest_subscription(line.as_bytes(), 3).successful_nodes.len(),
        1
    );
}

#[test]
fn failures_carry_their_line_and_no_secrets() {
    let input = "trojan://secret@example.com:443#One\nvless://user:pw@example.com:443#Two";
    let report = ingest_with_timestamp(input.as_bytes(), 1, 10);
    assert_eq!(report.failed_entries.len(), 1);
    let failure = &report.failed_entries[0];
    assert_eq!(failure.entry_index, 1);
    assert_eq!(failure.line_number, 2);
    assert!(!failure.raw_snippet.contains("pw"), "{}", failure.raw_snippet);
    assert!(matches!(failure.reason, ParseError::InvalidUuid(_)));
    assert!(!safe_snippet(b"vless://secret@example.com").contains("secret"));
    assert_eq!(collect_entries(" a \n#b\n\nc"), vec![(1, "a".to_owned()), (4, "c".to_owned())]);
}

#[test]
fn vmess_links_are_read_from_their_payload() {
    let payload = "{\"add\":\"example.com\",\"port\":\"443\",\"id\":\"11111111-1111-1111-1111-111111111111\",\"aid\":0,\"net\":\"ws\",\"path\":\"/ws\",\"host\":\"h.example\",\"tls\":\"tls\",\"ps\":\"Tokyo\",\"scy\":\"aes-128-gcm\"}";
    let link = format!(
        "vmess://{}",
        STANDARD.encode(payload)
    );
    let node = parse_entry(&link, 1, 10).unwrap();
    assert_eq!(node.meta.label, "Tokyo");
    assert_eq!(node.meta.country_code, *b"JP");
    assert!(matches!(
        node.protocol,
        ProtocolSpec::Vmess(VmessConfig { alter_id: 0, cipher: VmessCipher::Aes128Gcm, .. })
    ));
    assert!(matches!(
        &node.transport,
        TransportSpec::WebSocket(WebSocketConfig { path, host, .. })
            if path == "/ws" && host.as_deref() == Some("h.example")
    ));
    assert!(matches!(&node.security, SecuritySpec::Tls(_)));
    let broken = format!(
        "vmess://{}",
        STANDARD.encode("{not json")
    );
    assert!(matches!(parse_entry(&broken, 1, 10), Err(ParseError::Json(_))));
}

#[test]
fn reality_links_carry_their_keys() {
    let link = "vless://11111111-1111-1111-1111-111111111111@example.com:443?security=reality&pbk=KEY&sid=ab&sni=www.example.org&fp=firefox&type=grpc&serviceName=svc#%5BFR%5D%20Edge";
    let node = parse_entry(link, 1, 10).unwrap();
    assert_eq!(node.meta.label, "[FR] Edge");
    assert!(matches!(
        &node.security,
        SecuritySpec::Reality(RealityConfig { public_key, short_id, server_name, fingerprint, .. })
            if public_key == "KEY" && short_id == "ab" && server_name == "www.example.org"
                && *fingerprint == UtlsFingerprint::Firefox
    ));
    assert!(matches!(
        &node.transport,
        TransportSpec::Grpc(config) if config.service_name == "svc"
    ));
}

#[test]
fn errors_say_what_is_wrong() {
    assert_eq!(
        parse_entry("ftp://example.com", 1, 1).unwrap_err().message(),
        "unsupported format or scheme: ftp"
    );
    assert!(matches!(
        parse_entry("vless://11111111-1111-1111-1111-111111111111@:443", 1, 1),
        Err(ParseError::InvalidUri(_)) | Err(ParseError::InvalidEndpoint(_))
            | Err(ParseError::MissingField(_))
    ));
    assert!(matches!(
        parse_ss_method("rot13"),
        Err(ParseError::InvalidValue { field: "method", .. })
    ));
    assert_eq!(parse_ss_method("AES-256-GCM"), Ok(ShadowsocksCipher::Aes256Gcm));
    assert_eq!(
        ParseError::MissingField("proxies").message(),
        "missing mandatory field: proxies"
    );
    assert_eq!(
        ParseError::InvalidValue { field: "method", value: "x".to_owned() }.message(),
        "invalid value for method: x"
    );
    let report = ingest_with_timestamp(b"not a subscription!", 1, 1);
    assert!(report.successful_nodes.is_empty());
    // The document as a whole is no bundle, and its one line is no entry.
    assert_eq!(report.failed_entries.len(), 2);
    assert!(matches!(report.failed_entries[0].reason, ParseError::Base64Decode(_)));
}

#[test]
fn yaml_documents_become_plain_values() {
    let yaml = read_yaml("a: [1, x, true, null]\nb: 1.5").unwrap();
    let list = yaml.get("a").unwrap();
    assert_eq!(list.items().unwrap().len(), 4);
    assert_eq!(list.items().unwrap()[0].number(), Some(1));
    assert_eq!(list.items().unwrap()[1], Yaml::Text("x".to_owned()));
    assert_eq!(yaml.string_at("b").as_deref(), Some("1.5"));
    assert!(read_yaml("a: [").is_err());
}

#[test]
fn emoji_pair_wins_over_everything() {
    assert_eq!(extract_country_code("🇭🇰 Tokyo [DE]"), *b"HK");
    assert_eq!(extract_country_code("abc"), *b"UN");
}

#[test]
fn explicit_bracket_tag_beats_dictionary() {
    assert_eq!(extract_country_code("Osaka [FR]"), *b"FR");
    assert_eq!(extract_country_code("tokyo (US)"), *b"US");
}

#[test]
fn bracket_tags_count_wherever_they_stand() {
    assert_eq!(extract_country_code("[DE] Tokyo"), *b"DE");
    assert_eq!(extract_country_code("node (US) in Frankfurt, fast [FR]"), *b"US");
    assert_eq!(extract_country_code("[USA] Tokyo"), *b"JP");
    assert_eq!(extract_country_code("[de] Tokyo"), *b"JP");
    assert_eq!(extract_country_code("(DE] Tokyo"), *b"JP");
}

#[test]
fn dictionary_lookup_for_common_cities() {
    assert_eq!(extract_country_code("Tokyo - 日本"), *b"JP");
    assert_eq!(extract_country_code("Hotspot Singapore 01"), *b"SG");
    assert_eq!(extract_country_code("Frankfurt 1"), *b"DE");
    assert_eq!(extract_country_code("Hong Kong V2"), *b"HK");
    assert_eq!(extract_country_code("Los Angeles 03"), *b"US");
    assert_eq!(extract_country_code("anything"), *b"UN");
}

#[test]
fn non_ascii_bracket_tags_are_ignored() {
    assert_eq!(extract_country_code("Node (東京)"), *b"UN");
}

#[test]
fn short_lowercase_tags_are_ignored() {
    assert_eq!(extract_country_code("wireguard de"), *b"UN");
}

#[test]
fn metadata_carries_label_and_code() {
    let meta = make_metadata(9, "FRANKFURT", 5).unwrap();
    assert_eq!(meta.sub_id, 9);
    assert_eq!(meta.label, "FRANKFURT");
    assert_eq!(meta.country_code, *b"DE");
    assert_eq!(meta.import_timestamp, 5);
}

#[test]
fn what_the_reader_says_of_a_document_is_handed_on() {
    let refused = parse_vmess_document(&Err("no document".to_owned()), 1, 10);
    assert_eq!(refused, Err(ParseError::Json("no document".to_owned())));
    let odd = parse_vmess_document(&Ok(vec![JsonNode::Null]), 1, 10);
    assert!(matches!(odd, Err(ParseError::Json(_))));
    // One document that cannot be read leaves the entries around it alone.
    let broken = STANDARD.encode("{\"a\":1,\"b\":\"\\q\"}");
    let text = format!(
        "vmess://{broken}\ntrojan://secret@example.com:443#One\nvmess://{broken}"
    );
    let report = ingest_with_timestamp(text.as_bytes(), 1, 10);
    assert_eq!(report.successful_nodes.len(), 1);
    assert_eq!(report.failed_entries.len(), 2);
    assert!(report
        .failed_entries
        .iter()
        .all(|failure| matches!(failure.reason, ParseError::Json(_))));
}

#[test]
fn white_space_in_bundles_does_not_matter() {
    let encoded = URL_SAFE_NO_PAD.encode(b"\xff\xfe some bytes");
    let spaced: String = encoded.chars().flat_map(|c| [c, '\n', ' ']).collect();
    assert_eq!(decode_bundle(spaced.as_bytes()), Ok(b"\xff\xfe some bytes".to_vec()));
    assert_eq!(decode_bundle(b" \t\r\n"), Err("empty or oversized Base64 input".to_owned()));
}

#[test]
fn encoded_bundles_read_back() {
    for len in 1..40usize {
        let bytes: Vec<u8> = (0..len).map(|i| (i * 151 + len * 37) as u8).collect();
        for text in [
            STANDARD.encode(&bytes),
            STANDARD_NO_PAD.encode(&bytes),
            URL_SAFE.encode(&bytes),
            URL_SAFE_NO_PAD.encode(&bytes),
        ] {
            assert_eq!(decode_bundle(text.as_bytes()).unwrap(), bytes);
            let spaced = text.replacen(&text[1..2], &format!("{}\r\n\t ", &text[1..2]), 1);
            assert_eq!(decode_bundle(spaced.as_bytes()).unwrap(), bytes);
        }
    }
}

#[test]
fn texts_that_encode_nothing_are_refused() {
    let refused = Err("unsupported alphabet, padding, or input length".to_owned());
    // A symbol too few, bits left over, padding that is not due or comes too early,
    // both alphabets at once.
    for text in ["Z", "Zh", "Zg=", "Zg===", "Z===", "====", "Zm9v=", "=Zm9v", "+_+_", "Zm9vZh=="] {
        assert_eq!(decode_bundle(text.as_bytes()), refused, "{text}");
    }
    assert_eq!(decode_bundle(b"Zg=="), Ok(b"f".to_vec()));
    assert_eq!(decode_bundle(b"Zg"), Ok(b"f".to_vec()));
}

#[test]
fn texts_decode_exactly_to_what_they_encode() {
    let symbols = b"AQgw+/-_=";
    let mut texts: Vec<Vec<u8>> = vec![Vec::new()];
    let mut read = 0;
    for _ in 0..5 {
        texts = texts
            .iter()
            .flat_map(|text| {
                symbols.iter().map(move |&symbol| {
                    let mut longer = text.clone();
                    longer.push(symbol);
                    longer
                })
            })
            .collect();
        for text in &texts {
            if let Ok(bytes) = decode_bundle(text) {
                read += 1;
                let forms = [
                    STANDARD.encode(&bytes),
                    STANDARD_NO_PAD.encode(&bytes),
                    URL_SAFE.encode(&bytes),
                    URL_SAFE_NO_PAD.encode(&bytes),
                ];
                assert!(forms.iter().any(|form| form.as_bytes() == &text[..]));
            }
        }
    }
    assert!(read > 1000);
}
