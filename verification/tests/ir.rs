//! Canonical nodes, their hashes, addresses and identifiers.
use sha2::Digest;
use yarisugi::ip::{read_ip, IpAddr, SocketAddr};
use yarisugi::ir::node::{
    normalize_host, CanonicalNode, EndpointTarget, NodeError, NodeMetadata, SubId,
};
use yarisugi::ir::protocol::{ProtocolSpec, VlessConfig, VlessFlow};
use yarisugi::ir::transport::{MuxProtocol, MuxSpec, SecuritySpec, TransportSpec};
use yarisugi::ir::uuid::Uuid;
use yarisugi::storage::repository::node_hash;

fn node(label: &'static str, sub_id: SubId) -> CanonicalNode {
    let metadata = NodeMetadata::new(sub_id, label, *b"DE", 1).unwrap();
    CanonicalNode::try_new(
        metadata,
        EndpointTarget::domain("Example.COM.", 443).unwrap(),
        ProtocolSpec::Vless(VlessConfig {
            uuid: Uuid::nil(),
            flow: Some(VlessFlow::XtlsRprxVision),
        }),
        TransportSpec::Tcp,
        SecuritySpec::Plain,
        None,
    )
    .unwrap()
}

#[test]
fn metadata_does_not_change_functional_hash() {
    assert_eq!(node("Frankfurt", 1).hash, node("VIP Frankfurt", 2).hash);
}

#[test]
fn hostnames_are_normalized_before_hashing() {
    let first = node("one", 1);
    let metadata = NodeMetadata::new(1, "two", *b"DE", 2).unwrap();
    let second = CanonicalNode::try_new(
        metadata,
        EndpointTarget::domain("example.com", 443).unwrap(),
        first.protocol.clone(),
        first.transport.clone(),
        first.security.clone(),
        None,
    )
    .unwrap();
    assert_eq!(first.hash, second.hash);
}

#[test]
fn disabled_mux_is_not_a_distinct_identity() {
    let plain = node("plain", 1);
    let metadata = NodeMetadata::new(1, "mux", *b"DE", 2).unwrap();
    let disabled = CanonicalNode::try_new(
        metadata,
        plain.endpoint.clone(),
        plain.protocol.clone(),
        plain.transport.clone(),
        plain.security.clone(),
        Some(MuxSpec { enabled: false, concurrency: 32, protocol: MuxProtocol::Smux }),
    )
    .unwrap();
    assert_eq!(plain.hash, disabled.hash);
    assert!(disabled.mux.is_none());
}

#[test]
fn other_identities_have_other_hashes() {
    let plain = node("plain", 1);
    let moved = CanonicalNode::try_new(
        plain.meta.clone(),
        EndpointTarget::domain("example.com", 444).unwrap(),
        plain.protocol.clone(),
        plain.transport.clone(),
        plain.security.clone(),
        None,
    )
    .unwrap();
    assert_ne!(plain.hash, moved.hash);
    let muxed = CanonicalNode::try_new(
        plain.meta.clone(),
        plain.endpoint.clone(),
        plain.protocol.clone(),
        plain.transport.clone(),
        plain.security.clone(),
        Some(MuxSpec { enabled: true, concurrency: 32, protocol: MuxProtocol::Smux }),
    )
    .unwrap();
    assert_ne!(plain.hash, muxed.hash);
}

#[test]
fn hashes_are_digests_of_the_identity() {
    let node = node("plain", 1);
    let digest: [u8; 32] = sha2::Sha256::digest(node.functional_identity_bytes()).into();
    assert_eq!(node.hash, digest);
    assert_eq!(node_hash(&node), digest);
    let shown = node.hash_hex();
    assert_eq!(shown.len(), 64);
    assert_eq!(&shown[..2], format!("{:02x}", digest[0]));
}

#[test]
fn identities_are_encoded_field_by_field() {
    // The version, the endpoint, the protocol, the transport, the security and
    // the absence of a multiplexer; numbers have the least significant byte first.
    let mut want: Vec<u8> = vec![1];
    want.extend([1, 0, 0, 0]);
    want.extend(bincode::serialize("example.com").unwrap());
    want.extend(bincode::serialize(&443u16).unwrap());
    want.extend([0, 0, 0, 0]);
    want.extend(bincode::serialize(&uuid::Uuid::nil()).unwrap());
    want.extend([1, 0, 0, 0, 0]);
    want.extend([0, 0, 0, 0]);
    want.extend([0, 0, 0, 0]);
    want.push(0);
    assert_eq!(node("plain", 1).functional_identity_bytes(), want);
}

#[test]
fn endpoints_and_codes_are_checked() {
    assert_eq!(
        NodeMetadata::new(1, "x", *b"de", 1).unwrap_err(),
        NodeError::CountryCode
    );
    assert_eq!(EndpointTarget::domain("example.com", 0).unwrap_err(), NodeError::ZeroPort);
    assert_eq!(EndpointTarget::domain("a b", 1).unwrap_err(), NodeError::InvalidHostname);
    assert_eq!(EndpointTarget::domain("", 1).unwrap_err(), NodeError::InvalidHostname);
    assert_eq!(EndpointTarget::domain("a/b", 1).unwrap_err(), NodeError::InvalidHostname);
    assert_eq!(
        EndpointTarget::domain("10.0.0.1", 1).unwrap_err(),
        NodeError::AddressAsHostname
    );
    assert_eq!(
        EndpointTarget::domain("::1", 1).unwrap_err(),
        NodeError::AddressAsHostname
    );
    assert_eq!(NodeError::ZeroPort.message(), "endpoint port cannot be zero");
    assert_eq!(normalize_host("  EXAMPLE.com.. ").unwrap(), "example.com");
    assert!(normalize_host(&"a".repeat(253)).is_ok());
    assert!(normalize_host(&"a".repeat(254)).is_err());
}

#[test]
fn addresses_are_read_and_written() {
    for text in ["10.0.0.1", "255.255.255.255", "::", "::1", "2001:db8::1", "fe80::1:0:0:1"] {
        assert_eq!(read_ip(text).unwrap().to_text(), text);
    }
    for text in ["10.0.0", "10.0.0.256", "01.2.3.4", ":::", "1::2::3", "12345::", "a.b", ""] {
        assert_eq!(read_ip(text), None, "{text}");
    }
    assert_eq!(read_ip("::ffff:1.2.3.4"), Some(IpAddr::V6([0, 0, 0, 0, 0, 0xffff, 0x102, 0x304])));
    let v6 = SocketAddr { ip: IpAddr::V6([0, 0, 0, 0, 0, 0, 0, 1]), port: 53 };
    assert_eq!(v6.to_text(), "[::1]:53");
    let v4 = SocketAddr { ip: IpAddr::V4([1, 2, 3, 4]), port: 80 };
    assert_eq!(v4.to_text(), "1.2.3.4:80");
}

#[test]
fn identifiers_are_read_and_written() {
    let text = "11111111-2222-3333-4444-555555555555";
    assert_eq!(Uuid::parse_str(text).unwrap().to_text(), text);
    assert_eq!(
        Uuid::parse_str("11111111222233334444555555555555").unwrap().to_text(),
        text
    );
    assert_eq!(Uuid::parse_str("not-a-uuid"), None);
    assert_eq!(Uuid::nil().to_text(), "00000000-0000-0000-0000-000000000000");
}

#[test]
fn identifiers_are_read_in_every_form() {
    let id = Uuid(0x936d_a01f_9abd_4d9d_80c7_02af_85c8_22a8);
    assert_eq!(id.to_text(), "936da01f-9abd-4d9d-80c7-02af85c822a8");
    for text in [
        "936da01f-9abd-4d9d-80c7-02af85c822a8",
        "936DA01F-9ABD-4D9D-80C7-02AF85C822A8",
        "936da01f9abd4d9d80c702af85c822a8",
        "{936da01f-9abd-4d9d-80c7-02af85c822a8}",
        "urn:uuid:936da01f-9abd-4d9d-80c7-02af85c822a8",
        "URN:UUID:936da01f-9abd-4d9d-80c7-02af85c822a8",
    ] {
        assert_eq!(Uuid::parse_str(text), Some(id), "{text}");
    }
    for text in [
        "",
        "936da01f9abd4d9d80c702af85c822a",
        "936da01f9abd4d9d80c702af85c822ag",
        "936da01f9-abd-4d9d-80c7-02af85c822a8",
        "{936da01f9abd4d9d80c702af85c822a8}",
        "(936da01f-9abd-4d9d-80c7-02af85c822a8)",
        "urn_uuid:936da01f-9abd-4d9d-80c7-02af85c822a8",
        " 936da01f-9abd-4d9d-80c7-02af85c822a8",
        "936da01f-9abd-4d9d-80c7-02af85c822\u{e4}",
    ] {
        assert_eq!(Uuid::parse_str(text), None, "{text}");
    }
    assert_eq!(Uuid::parse_str(&Uuid::nil().to_text()), Some(Uuid::nil()));
}
