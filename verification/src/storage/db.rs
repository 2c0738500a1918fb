//! What a database needs that was made before protocol kinds had a column.
use crate::ir::decoding;
use crate::ir::node::NodeView;
use crate::storage::soa_store;
use crate::storage::soa_store::ProtocolKind;
use crate::text;
use vstd::prelude::*;

verus! {

// ---------------------------------------------------------------------------
// Model
// ---------------------------------------------------------------------------

/// The protocol kind of the node in a payload, if it is the payload of one.
pub open spec fn stored_kind(payload: Seq<u8>) -> Option<ProtocolKind> {
    if exists|n: NodeView| decoding::is_payload_of(n, payload) {
        let n = choose|n: NodeView| decoding::is_payload_of(n, payload);
        Some(soa_store::kind_of(n.protocol))
    } else {
        None
    }
}

/// The kinds to fill in for the first `n` rows: rows whose payload cannot be decoded
/// are passed over.
pub open spec fn backfill(rows: Seq<(i64, Vec<u8>)>, n: nat) -> Seq<(i64, u8)>
    decreases n,
{
    if n == 0 {
        Seq::empty()
    } else {
        let before = backfill(rows, (n - 1) as nat);
        match stored_kind(rows[n - 1].1@) {
            Some(kind) => before.push((rows[n - 1].0, kind.number())),
            None => before,
        }
    }
}

// ---------------------------------------------------------------------------
// Laws
// ---------------------------------------------------------------------------

/// Every row with a node in its payload gets the kind of that node, and every kind that
/// is filled in comes from such a row.
pub proof fn law_backfill_gives_each_node_its_kind(rows: Seq<(i64, Vec<u8>)>, i: int, n: NodeView)
    requires
        0 <= i < rows.len(),
        decoding::is_payload_of(n, rows[i].1@),
    ensures
        backfill(rows, rows.len()).contains((rows[i].0, soa_store::kind_of(n.protocol).number())),
{
    lemma_kind(n, rows[i].1@);
    lemma_filled(rows, i, rows.len());
}

proof fn lemma_kind(n: NodeView, payload: Seq<u8>)
    requires
        decoding::is_payload_of(n, payload),
    ensures
        stored_kind(payload) == Some(soa_store::kind_of(n.protocol)),
{
    let found = choose|n: NodeView| decoding::is_payload_of(n, payload);
    decoding::law_payloads_are_of_one_node(n, found, payload);
}

proof fn lemma_filled(rows: Seq<(i64, Vec<u8>)>, i: int, n: nat)
    requires
        0 <= i < n <= rows.len(),
        stored_kind(rows[i].1@) is Some,
    ensures
        backfill(rows, n).contains((rows[i].0, stored_kind(rows[i].1@)->0.number())),
    decreases n,
{
    let before = backfill(rows, (n - 1) as nat);
    let wanted = (rows[i].0, stored_kind(rows[i].1@)->0.number());
    if i == n - 1 {
        assert(backfill(rows, n)[before.len() as int] == wanted);
    } else {
        lemma_filled(rows, i, (n - 1) as nat);
        let at = choose|at: int| 0 <= at < before.len() && before[at] == wanted;
        assert(backfill(rows, n)[at] == wanted);
    }
}

// ---------------------------------------------------------------------------
// Executable forms
// ---------------------------------------------------------------------------

/// Whether the columns of a table are those of a database without protocol kinds.
pub fn lacks_protocol_kind(columns: &Vec<String>) -> (r: bool)
    ensures
        r == !text::texts_of(columns@).contains("protocol_kind"@),
{
    let ghost names = text::texts_of(columns@);
    let mut i: usize = 0;
    while i < columns.len()
        invariant
            i <= columns@.len(),
            names == text::texts_of(columns@),
            forall|k: int| 0 <= k < i ==> names[k] != "protocol_kind"@,
        decreases columns@.len() - i,
    {
        assert(names[i as int] == columns@[i as int]@);
        if text::same(columns[i].as_str(), "protocol_kind") {
            assert(names.contains(names[i as int]));
            return false;
        }
        i += 1;
    }
    true
}

/// The protocol kind of the node in a payload.
pub fn payload_kind(payload: &[u8]) -> (r: Option<ProtocolKind>)
    ensures
        r == stored_kind(payload@),
{
    match decoding::decode_node(payload) {
        Some(node) => {
            proof {
                lemma_kind(node@, payload@);
            }
            Some(ProtocolKind::of(&node.protocol))
        },
        None => None,
    }
}

/// The numbers of rows and the kinds to fill in for them, from the numbers and the
/// payloads of all rows.
pub fn backfill_kinds(rows: &Vec<(i64, Vec<u8>)>) -> (r: Vec<(i64, u8)>)
    ensures
        r@ == backfill(rows@, rows@.len()),
{
    let mut r: Vec<(i64, u8)> = Vec::new();
    let mut i: usize = 0;
    while i < rows.len()
        invariant
            i <= rows@.len(),
            r@ == backfill(rows@, i as nat),
        decreases rows@.len() - i,
    {
        if let Some(kind) = payload_kind(rows[i].1.as_slice()) {
            r.push((rows[i].0, kind.discriminant()));
        }
        i += 1;
    }
    r
}

} // verus!
