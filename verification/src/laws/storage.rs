//! What the store and the catalog promise.
use crate::ir::node::{NodeView, SubId};
use crate::ir::protocol::ProtocolSpec;
use crate::storage::snapshot;
use crate::storage::snapshot::MetricUpdate;
use crate::storage::soa_store;
use crate::storage::soa_store::{HotNodeRow, ProtocolKind, RowView, StoredRow};
use crate::storage::sync;
use crate::storage::sync::CatalogView;
use vstd::prelude::*;

verus! {

/// The row at `i` is the last with the identifier.
pub open spec fn is_last(rows: Seq<RowView>, id: u32, i: int) -> bool {
    &&& 0 <= i < rows.len()
    &&& rows[i].id == id
    &&& forall|j: int| i < j < rows.len() ==> (#[trigger] rows[j]).id != id
}

proof fn lemma_position(rows: Seq<RowView>, id: u32, i: int)
    ensures
        is_last(rows, id, i) <==> soa_store::last_position(soa_store::row_ids(rows), id) == Some(i),
{
    let ids = soa_store::row_ids(rows);
    soa_store::lemma_last_position(ids, id);
    if is_last(rows, id, i) {
        assert(ids[i] == id);
        assert(ids.contains(id));
        let at = soa_store::last_position(ids, id)->0;
        if at < i {
            assert(ids[i] != id);
        }
        if i < at {
            assert(rows[at].id == ids[at]);
        }
    }
    if soa_store::last_position(ids, id) == Some(i) {
        assert forall|j: int| i < j < rows.len() implies (#[trigger] rows[j]).id != id by {
            assert(ids[j] != id);
        }
    }
}

/// A measurement of a node changes the latency and the health of its row, the health to
/// a hundred at most, and no other row; one of an unknown node changes nothing.
pub proof fn law_measurements_change_the_measured_row(
    rows: Seq<RowView>,
    id: u32,
    latency: u16,
    health: u8,
    i: int,
)
    requires
        0 <= i < rows.len(),
    ensures
        ({
            let after = soa_store::measured(rows, id, latency, health);
            &&& after.len() == rows.len()
            &&& is_last(rows, id, i) ==> {
                &&& after[i].latency_ms == latency
                &&& health <= 100 ==> after[i].health_score == health
                &&& health > 100 ==> after[i].health_score == 100
                &&& after[i].id == id && after[i].name == rows[i].name
                &&& after[i].country_code == rows[i].country_code
                &&& after[i].protocol == rows[i].protocol && after[i].sources == rows[i].sources
            }
            &&& !is_last(rows, id, i) ==> after[i] == rows[i]
            &&& (forall|j: int| 0 <= j < rows.len() ==> (#[trigger] rows[j]).id != id) ==> after
                == rows
        }),
{
    let ids = soa_store::row_ids(rows);
    soa_store::lemma_last_position(ids, id);
    lemma_position(rows, id, i);
    if forall|j: int| 0 <= j < rows.len() ==> (#[trigger] rows[j]).id != id {
        if let Some(at) = soa_store::last_position(ids, id) {
            assert(rows[at].id == ids[at]);
        }
    }
}

/// The last measurement of a node is the one that stands; a row that is not measured
/// stays as it was.
pub proof fn law_the_last_measurement_stands(
    rows: Seq<RowView>,
    latencies: Seq<u16>,
    healths: Seq<u8>,
    updates: Seq<MetricUpdate>,
    n: nat,
    i: int,
    k: int,
)
    requires
        n <= updates.len(),
        latencies.len() == rows.len(),
        healths.len() == rows.len(),
        0 <= i < rows.len(),
    ensures
        ({
            let a = snapshot::latencies_after(rows, latencies, updates, n);
            let b = snapshot::healths_after(rows, healths, updates, n);
            &&& a.len() == rows.len() && b.len() == rows.len()
            &&& 0 <= k < n && is_last(rows, updates[k].node_id, i) && (forall|j: int|
                k < j < n ==> (#[trigger] updates[j]).node_id != updates[k].node_id) ==> {
                &&& a[i] == updates[k].latency_ms
                &&& updates[k].health_score <= 100 ==> b[i] == updates[k].health_score
                &&& updates[k].health_score > 100 ==> b[i] == 100
            }
            &&& (forall|j: int| 0 <= j < n ==> (#[trigger] updates[j]).node_id != rows[i].id) ==> {
                &&& a[i] == latencies[i]
                &&& b[i] == healths[i]
            }
        }),
    decreases n,
{
    if n > 0 {
        let m = (n - 1) as nat;
        law_the_last_measurement_stands(rows, latencies, healths, updates, m, i, k);
        lemma_position(rows, updates[m as int].node_id, i);
        soa_store::lemma_last_position(soa_store::row_ids(rows), updates[m as int].node_id);
        if forall|j: int| 0 <= j < n ==> (#[trigger] updates[j]).node_id != rows[i].id {
            assert(updates[m as int].node_id != rows[i].id);
        }
        if 0 <= k < m && is_last(rows, updates[k].node_id, i) && forall|j: int|
            k < j < n ==> (#[trigger] updates[j]).node_id != updates[k].node_id {
            assert(updates[m as int].node_id != updates[k].node_id);
        }
    }
}

/// A store takes rows over as they are, the health to a hundred at most.
pub proof fn law_rows_are_taken_over(row: HotNodeRow)
    ensures
        ({
            let r = soa_store::hot_row(row);
            &&& r.id == row.id && r.name == row.name@ && r.country_code == row.country_code
            &&& r.latency_ms == row.latency_ms && r.protocol == row.protocol
            &&& r.sources == row.source_sub_ids@
            &&& row.health_score <= 100 ==> r.health_score == row.health_score
            &&& row.health_score > 100 ==> r.health_score == 100
        }),
{
}

/// A store that is filled from the database has each node with what is stored of it, and
/// with the subscriptions that it is linked to, in the order of the links. A country
/// that is not two upper-case letters is unknown.
pub proof fn law_stored_rows_are_read_back(rows: Seq<StoredRow>, links: Seq<(u32, u16)>, i: int)
    requires
        0 <= i < rows.len(),
        forall|a: int, b: int|
            0 <= a < b < rows.len() ==> (#[trigger] rows[a]).id != (#[trigger] rows[b]).id,
    ensures
        ({
            let r = soa_store::hydrated(rows, links);
            let bytes = vstd::utf8::encode_utf8(rows[i].country_code@);
            &&& r.len() == rows.len()
            &&& r[i].id == rows[i].id && r[i].name == rows[i].name@
            &&& r[i].protocol == rows[i].protocol
            &&& r[i].latency_ms == rows[i].latency_ms && r[i].health_score == rows[i].health_score
            &&& r[i].sources == links.filter(
                |l: (u32, u16)| l.0 == rows[i].id,
            ).map_values(|l: (u32, u16)| l.1)
            &&& bytes.len() == 2 && 'A' as u8 <= bytes[0] <= 'Z' as u8 && 'A' as u8 <= bytes[1]
                <= 'Z' as u8 ==> r[i].country_code[0] == bytes[0] && r[i].country_code[1]
                == bytes[1]
            &&& bytes.len() != 2 || !('A' as u8 <= bytes[0] <= 'Z' as u8) || !('A' as u8 <= bytes[1]
                <= 'Z' as u8) ==> r[i].country_code[0] == 'U' as u8 && r[i].country_code[1]
                == 'N' as u8
        }),
{
    lemma_linked(rows, links, i);
}

proof fn lemma_linked(rows: Seq<StoredRow>, links: Seq<(u32, u16)>, i: int)
    requires
        0 <= i < rows.len(),
        forall|a: int, b: int|
            0 <= a < b < rows.len() ==> (#[trigger] rows[a]).id != (#[trigger] rows[b]).id,
    ensures
        soa_store::linked_sources(links, soa_store::stored_ids(rows), i) == links.filter(
            |l: (u32, u16)| l.0 == rows[i].id,
        ).map_values(|l: (u32, u16)| l.1),
    decreases links.len(),
{
    reveal(Seq::filter);
    let keep = |l: (u32, u16)| l.0 == rows[i].id;
    let pick = |l: (u32, u16)| l.1;
    let ids = soa_store::stored_ids(rows);
    if links.len() == 0 {
        assert(links.filter(keep).map_values(pick) =~= Seq::empty());
    } else {
        let rest = links.drop_last();
        lemma_linked(rows, rest, i);
        let id = links.last().0;
        soa_store::lemma_last_position(ids, id);
        if keep(links.last()) {
            assert(ids[i] == id);
            assert(ids.contains(id));
            let at = soa_store::last_position(ids, id)->0;
            assert(rows[at].id == ids[at]);
            assert(at == i);
            assert(rest.filter(keep).push(links.last()).map_values(pick) =~= rest.filter(
                keep,
            ).map_values(pick).push(links.last().1));
        } else if let Some(at) = soa_store::last_position(ids, id) {
            assert(rows[at].id == ids[at]);
        }
    }
}

/// A kind is that of the protocol, and is shown and stored under its own name and
/// number.
pub proof fn law_kinds_are_those_of_protocols<T, A>(p: ProtocolSpec<T, A>)
    ensures
        ({
            let k = soa_store::kind_of(p);
            &&& p is Vless ==> k is Vless && k.name() == "VLESS"@ && k.number() == 0
            &&& p is Vmess ==> k is Vmess && k.name() == "VMess"@ && k.number() == 1
            &&& p is Trojan ==> k is Trojan && k.name() == "Trojan"@ && k.number() == 2
            &&& p is Shadowsocks ==> k is Shadowsocks && k.name() == "SS"@ && k.number() == 3
            &&& p is Hysteria2 ==> k is Hysteria2 && k.name() == "HY2"@ && k.number() == 4
            &&& p is Tuic ==> k is Tuic && k.name() == "TUIC"@ && k.number() == 5
            &&& p is WireGuard ==> k is WireGuard && k.name() == "WireGuard"@ && k.number() == 6
        }),
{
}

/// After a replacement the catalog has exactly the nodes that were reported, and of those
/// that it had the ones that another subscription has.
pub proof fn law_catalogs_hold_what_is_linked(
    v: CatalogView,
    sub: SubId,
    reported: Set<Seq<u8>>,
    h: Seq<u8>,
)
    ensures
        sync::synced(v, sub, reported).nodes.contains(h) <==> reported.contains(h) || (
        v.nodes.contains(h) && exists|other: SubId|
            other != sub && #[trigger] v.sources.contains((h, other))),
{
    let after = sync::synced(v, sub, reported);
    if reported.contains(h) {
        assert(after.sources.contains((h, sub)));
    }
    if exists|other: SubId| other != sub && #[trigger] v.sources.contains((h, other)) {
        let other = choose|other: SubId| other != sub && #[trigger] v.sources.contains((h, other));
        assert(after.sources.contains((h, other)));
    }
    if after.nodes.contains(h) && !reported.contains(h) {
        let s = choose|s: SubId| after.sources.contains((h, s));
        assert(s != sub);
        assert(v.sources.contains((h, s)));
    }
}

} // verus!
