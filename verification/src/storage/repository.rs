//! What is persisted of nodes and subscriptions, and which refreshes are refused.
use crate::ir::binary::Binary;
use crate::ir::decoding;
use crate::ir::encoding;
use crate::ir::node;
use crate::ir::node::{CanonicalHash, CanonicalNode, NodeView, SubId};
use crate::parser::error;
use crate::parser::error::{IngestionReport, ReportView};
use crate::parser::ingest;
use crate::text;
use vstd::prelude::*;
use vstd::string::*;

verus! {

/// A subscription as it is persisted.
#[derive(Clone, Debug)]
pub struct SubscriptionRecord<'a> {
    pub id: SubId,
    pub uuid: &'a str,
    pub name: &'a str,
    pub url: &'a str,
    pub last_updated: u64,
    pub auto_update_interval: u64,
    pub etag: Option<&'a str>,
}

/// What a refresh changed.
#[derive(Clone, Copy, Debug, PartialEq, Eq, Structural)]
pub struct SyncResult {
    pub inserted_nodes: usize,
    pub linked_nodes: usize,
    pub removed_orphans: usize,
}

/// Why something is not persisted or not read back.
#[derive(Clone, Copy, Debug, PartialEq, Eq, Structural)]
pub enum RepositoryError {
    /// The refresh would leave the subscription without nodes.
    EmptySnapshot,
    /// A stored hash has the given number of bytes.
    HashLength(usize),
    /// A stored payload is not that of a node.
    Undecodable,
    /// A stored node does not have the hash of its identity.
    HashMismatch,
}

impl RepositoryError {
    pub open spec fn text(self) -> Seq<char> {
        match self {
            RepositoryError::EmptySnapshot =>
                "refusing to replace subscription with an empty or entirely invalid snapshot"@,
            RepositoryError::HashLength(n) => "database contains hash with "@ + text::decimal(
                n as nat,
            ) + " bytes"@,
            RepositoryError::Undecodable => "stored node payload cannot be decoded"@,
            RepositoryError::HashMismatch => "stored node hash does not match its payload"@,
        }
    }

    /// The message for a user.
    pub fn message(self) -> (r: String)
        ensures
            r@ == self.text(),
    {
        match self {
            RepositoryError::EmptySnapshot =>
                "refusing to replace subscription with an empty or entirely invalid snapshot".to_owned(),
            RepositoryError::HashLength(n) => {
                let mut r = "database contains hash with ".to_owned();
                r.append(text::decimal_text(n as u64).as_str());
                r.append(" bytes");
                r
            },
            RepositoryError::Undecodable => "stored node payload cannot be decoded".to_owned(),
            RepositoryError::HashMismatch =>
                "stored node hash does not match its payload".to_owned(),
        }
    }
}

/// The columns of a node's row besides its payload.
#[derive(Clone, Debug, PartialEq, Eq)]
pub struct NodeRow {
    pub hash: CanonicalHash,
    pub name: String,
    pub country_code: String,
}

// ---------------------------------------------------------------------------
// Model
// ---------------------------------------------------------------------------

/// The text of a country code; one that is no text is `UN`.
pub open spec fn country_text(code: [u8; 2]) -> Seq<char> {
    if vstd::utf8::valid_utf8(code@) {
        vstd::utf8::decode_utf8(code@)
    } else {
        "UN"@
    }
}

/// No node before position `i` has the hash of the node at `i`.
pub open spec fn is_first(nodes: Seq<NodeView>, i: int) -> bool {
    forall|j: int| 0 <= j < i ==> (#[trigger] nodes[j]).hash != nodes[i].hash
}

pub open spec fn node_views(nodes: Seq<CanonicalNode>) -> Seq<NodeView> {
    nodes.map_values(|n: CanonicalNode| n@)
}

/// The bytes of a node's functional identity.
pub open spec fn identity(n: NodeView) -> Seq<u8> {
    encoding::identity_bytes(
        node::CANONICAL_HASH_VERSION,
        n.endpoint,
        n.protocol,
        n.transport,
        n.security,
        n.mux,
    )
}

/// The nodes are reached in the same way.
pub open spec fn same_link(n: NodeView, other: NodeView) -> bool {
    &&& n.endpoint == other.endpoint
    &&& n.protocol == other.protocol
    &&& n.transport == other.transport
    &&& n.security == other.security
    &&& n.mux == other.mux
}

/// The hash is that of the node's functional identity.
pub open spec fn hash_fits(n: NodeView) -> bool {
    n.hash == node::identity_hash(n.endpoint, n.protocol, n.transport, n.security, n.mux)
}

/// What was persisted of a node reads back: its payload, whatever follows it, is that
/// of the node and of no other, and a node that was made by this library has the hash
/// that is asked of it.
pub proof fn law_persisted_nodes_are_read_back(n: NodeView, rest: Seq<u8>)
    requires
        CanonicalNode::fits(n),
    ensures
        decoding::is_payload_of(n, encoding::node_bytes(n) + rest),
        forall|other: NodeView|
            decoding::is_payload_of(other, encoding::node_bytes(n) + rest) ==> other == n,
        node::is_canonical(n) ==> hash_fits(n),
{
    let form = encoding::node_bytes(n);
    assert((form + rest).subrange(0, form.len() as int) =~= form);
    assert forall|other: NodeView| decoding::is_payload_of(other, form + rest) implies other
        == n by {
        decoding::law_payloads_are_of_one_node(n, other, form + rest);
    }
}

/// An altered payload is refused. Where the hash was changed and nothing else that the
/// hash is made of, it does not fit. Where any of that was changed under the old hash,
/// it fits only if two different identities have one SHA-256 digest.
pub proof fn law_altered_payloads_are_refused(n: NodeView, other: NodeView, bytes: Seq<u8>)
    requires
        CanonicalNode::fits(n),
        hash_fits(n),
        decoding::is_payload_of(other, bytes),
    ensures
        same_link(n, other) && other.hash != n.hash ==> !hash_fits(other),
        !same_link(n, other) ==> identity(n) != identity(other),
        !same_link(n, other) && other.hash == n.hash && hash_fits(other) ==> encoding::sha256_of(
            identity(n),
        ) == encoding::sha256_of(identity(other)),
{
    if identity(n) == identity(other) {
        decoding::law_identities_are_told_apart(n, other, node::CANONICAL_HASH_VERSION);
    }
}

/// The nodes of one ingestion report are all persisted: none of them is passed
/// over for having the hash of an earlier one.
pub proof fn law_reported_nodes_are_all_kept(
    raw: Seq<u8>,
    sub_id: SubId,
    timestamp: u64,
    r: ReportView,
    i: int,
)
    requires
        ingest::is_report(raw, sub_id, timestamp, r),
        0 <= i < r.nodes.len(),
    ensures
        is_first(r.nodes, i),
{
    let faults = choose|faults: Seq<Seq<char>>|
        r == #[trigger] ingest::report(raw, sub_id, timestamp, faults);
    ingest::law_reports_are_sound(raw, sub_id, timestamp, faults);
}

// ---------------------------------------------------------------------------
// Executable forms
// ---------------------------------------------------------------------------

/// Decisions about persistence.
pub struct NodeRepository;

impl NodeRepository {
    /// Refuses to replace a subscription by nothing, unless that is allowed.
    pub fn check_replacement(report: &IngestionReport, allow_empty: bool) -> (r: Result<
        (),
        RepositoryError,
    >)
        ensures
            (match r {
                Ok(_) => report@.nodes.len() > 0 || allow_empty,
                Err(e) => report@.nodes.len() == 0 && !allow_empty && e
                    == RepositoryError::EmptySnapshot,
            }),
    {
        assert(report@.nodes.len() == report.successful_nodes@.len());
        if report.successful_nodes.len() == 0 && !allow_empty {
            return Err(RepositoryError::EmptySnapshot);
        }
        Ok(())
    }

    /// The columns of a node's row.
    pub fn node_row(node: &CanonicalNode) -> (r: NodeRow)
        ensures
            r.hash@ == node@.hash,
            r.name@ == node@.meta.label,
            r.country_code@ == country_text(node@.meta.country_code),
    {
        let country_code = match text::from_utf8(&node.meta.country_code) {
            Ok(s) => s,
            Err(_) => "UN".to_owned(),
        };
        NodeRow { hash: node.hash, name: node.meta.label.clone(), country_code }
    }

    /// A stored hash; anything but thirty-two bytes is refused.
    pub fn stored_hash(bytes: &[u8]) -> (r: Result<CanonicalHash, RepositoryError>)
        ensures
            (match r {
                Ok(h) => bytes@.len() == 32 && h@ == bytes@,
                Err(e) => bytes@.len() != 32 && e == RepositoryError::HashLength(
                    bytes@.len() as usize,
                ),
            }),
    {
        if bytes.len() != 32 {
            return Err(RepositoryError::HashLength(bytes.len()));
        }
        let mut hash: CanonicalHash = [0;32];
        let mut i: usize = 0;
        while i < 32
            invariant
                i <= 32,
                bytes@.len() == 32,
                hash@.len() == 32,
                forall|k: int| 0 <= k < i ==> hash@[k] == bytes@[k],
            decreases 32 - i,
        {
            hash[i] = bytes[i];
            i += 1;
        }
        assert(hash@ =~= bytes@);
        Ok(hash)
    }

    /// The payload in which a node is persisted.
    pub fn node_payload(node: &CanonicalNode) -> (r: Vec<u8>)
        ensures
            r@ == encoding::node_bytes(node@),
            decoding::is_payload_of(node@, r@),
    {
        let r = encoding::encode_node(node);
        assert(r@.subrange(0, r@.len() as int) =~= r@);
        r
    }

    /// Reads a node from its payload, and accepts it if it has the hash of its
    /// functional identity.
    pub fn decode_node_payload(bytes: &[u8]) -> (r: Result<CanonicalNode, RepositoryError>)
        ensures
            (match r {
                Ok(n) => decoding::is_payload_of(n@, bytes@) && hash_fits(n@),
                Err(RepositoryError::HashMismatch) => exists|n: NodeView|
                    decoding::is_payload_of(n, bytes@) && !hash_fits(n),
                Err(RepositoryError::Undecodable) => forall|n: NodeView|
                    !decoding::is_payload_of(n, bytes@),
                Err(_) => false,
            }),
    {
        let node = match decoding::decode_node(bytes) {
            Some(node) => node,
            None => return Err(RepositoryError::Undecodable),
        };
        let hash = node_hash(&node);
        assert(node@.hash == node.hash@);
        if text::same_bytes(&node.hash, &hash) {
            Ok(node)
        } else {
            assert(decoding::is_payload_of(node@, bytes@) && !hash_fits(node@));
            Err(RepositoryError::HashMismatch)
        }
    }
}

/// The hash of a node's functional identity.
pub fn node_hash(node: &CanonicalNode) -> (r: CanonicalHash)
    ensures
        r@ == node::identity_hash(
            node@.endpoint,
            node@.protocol,
            node@.transport,
            node@.security,
            node@.mux,
        ),
{
    encoding::sha256(&node.functional_identity_bytes())
}

/// What a refresh of a subscription reads, and whether it may be persisted.
pub struct SubscriptionService;

impl SubscriptionService {
    /// Reads a subscription's payload at the time of the record, and refuses the
    /// refresh where it would leave the subscription without nodes. Failures of
    /// single entries are in the report and refuse nothing.
    pub fn refresh(record: &SubscriptionRecord, raw_payload: &[u8], allow_empty: bool) -> (r: Result<
        IngestionReport,
        RepositoryError,
    >)
        ensures
            (match r {
                Ok(report) => ingest::is_report(
                    raw_payload@,
                    record.id,
                    record.last_updated,
                    report@,
                ) && report@.nodes == ingest::reported_nodes(
                    raw_payload@,
                    record.id,
                    record.last_updated,
                ) && (report@.nodes.len() > 0 || allow_empty),
                Err(e) => ingest::reported_nodes(
                    raw_payload@,
                    record.id,
                    record.last_updated,
                ).len() == 0 && !allow_empty && e == RepositoryError::EmptySnapshot,
            }),
    {
        let report = ingest::ingest_with_timestamp(raw_payload, record.id, record.last_updated);
        match NodeRepository::check_replacement(&report, allow_empty) {
            Ok(_) => Ok(report),
            Err(e) => Err(e),
        }
    }
}

} // verus!
