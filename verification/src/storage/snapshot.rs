//! What readers see: a store of nodes and, apart from it, their measurements.
use crate::storage::soa_store;
use crate::storage::soa_store::{DenseNodeStore, MetricsArena, RowView};
use std::sync::Arc;
use vstd::prelude::*;

verus! {

/// A measurement of one node.
#[derive(Clone, Copy, Debug)]
pub struct MetricUpdate {
    pub node_id: u32,
    pub latency_ms: u16,
    pub health_score: u8,
}

/// The latencies after the first `n` measurements.
pub open spec fn latencies_after(
    rows: Seq<RowView>,
    latencies: Seq<u16>,
    updates: Seq<MetricUpdate>,
    n: nat,
) -> Seq<u16>
    decreases n,
{
    if n == 0 {
        latencies
    } else {
        let before = latencies_after(rows, latencies, updates, (n - 1) as nat);
        match soa_store::last_position(soa_store::row_ids(rows), updates[n - 1].node_id) {
            Some(i) if i < before.len() => before.update(i, updates[n - 1].latency_ms),
            _ => before,
        }
    }
}

/// The health scores after the first `n` measurements.
pub open spec fn healths_after(
    rows: Seq<RowView>,
    healths: Seq<u8>,
    updates: Seq<MetricUpdate>,
    n: nat,
) -> Seq<u8>
    decreases n,
{
    if n == 0 {
        healths
    } else {
        let before = healths_after(rows, healths, updates, (n - 1) as nat);
        match soa_store::last_position(soa_store::row_ids(rows), updates[n - 1].node_id) {
            Some(i) if i < before.len() => before.update(
                i,
                soa_store::capped_health(updates[n - 1].health_score),
            ),
            _ => before,
        }
    }
}

/// The rows after the first `n` measurements.
pub open spec fn rows_after(rows: Seq<RowView>, updates: Seq<MetricUpdate>, n: nat) -> Seq<RowView>
    decreases n,
{
    if n == 0 {
        rows
    } else {
        soa_store::measured(
            rows_after(rows, updates, (n - 1) as nat),
            updates[n - 1].node_id,
            updates[n - 1].latency_ms,
            updates[n - 1].health_score,
        )
    }
}

/// Measurements change latency and health and nothing else: the nodes, their
/// number, names, countries, protocols and sources stay.
pub proof fn law_measurements_keep_the_nodes(rows: Seq<RowView>, updates: Seq<MetricUpdate>, n: nat)
    requires
        n <= updates.len(),
    ensures
        rows_after(rows, updates, n).len() == rows.len(),
        forall|i: int|
            0 <= i < rows.len() ==> (#[trigger] rows_after(rows, updates, n)[i]).id == rows[i].id
                && rows_after(rows, updates, n)[i].name == rows[i].name && rows_after(
                rows,
                updates,
                n,
            )[i].country_code == rows[i].country_code && rows_after(rows, updates, n)[i].protocol
                == rows[i].protocol && rows_after(rows, updates, n)[i].sources == rows[i].sources,
    decreases n,
{
    if n > 0 {
        let before = rows_after(rows, updates, (n - 1) as nat);
        law_measurements_keep_the_nodes(rows, updates, (n - 1) as nat);
        soa_store::lemma_last_position(soa_store::row_ids(before), updates[n - 1].node_id);
    }
}

/// The measurement is the one of the node that stands at position `i`.
pub open spec fn is_at(rows: Seq<RowView>, update: MetricUpdate, i: int) -> bool {
    soa_store::last_position(soa_store::row_ids(rows), update.node_id) == Some(i)
}

/// No two measurements are of one node.
pub open spec fn are_distinct(updates: Seq<MetricUpdate>) -> bool {
    forall|i: int, j: int|
        0 <= i < j < updates.len() ==> (#[trigger] updates[i]).node_id != (#[trigger]
        updates[j]).node_id
}

/// Where measurements are of different nodes, each position has the one of its
/// node, if there is one.
proof fn lemma_measured_at(
    rows: Seq<RowView>,
    latencies: Seq<u16>,
    healths: Seq<u8>,
    updates: Seq<MetricUpdate>,
    n: nat,
    i: int,
)
    requires
        n <= updates.len(),
        are_distinct(updates),
        0 <= i,
    ensures
        latencies_after(rows, latencies, updates, n).len() == latencies.len(),
        healths_after(rows, healths, updates, n).len() == healths.len(),
        forall|k: int|
            0 <= k < n && is_at(rows, #[trigger] updates[k], i) && i < latencies.len()
                ==> latencies_after(rows, latencies, updates, n)[i] == updates[k].latency_ms,
        forall|k: int|
            0 <= k < n && is_at(rows, #[trigger] updates[k], i) && i < healths.len()
                ==> healths_after(rows, healths, updates, n)[i] == soa_store::capped_health(
                updates[k].health_score,
            ),
        (forall|k: int| 0 <= k < n ==> !is_at(rows, #[trigger] updates[k], i)) ==> (i
            < latencies.len() ==> latencies_after(rows, latencies, updates, n)[i] == latencies[i])
            && (i < healths.len() ==> healths_after(rows, healths, updates, n)[i] == healths[i]),
    decreases n,
{
    if n > 0 {
        lemma_measured_at(rows, latencies, healths, updates, (n - 1) as nat, i);
        let last = updates[n - 1];
        assert forall|k: int| 0 <= k < n - 1 && is_at(rows, #[trigger] updates[k], i) implies !is_at(
            rows,
            last,
            i,
        ) by {
            soa_store::lemma_last_position(soa_store::row_ids(rows), updates[k].node_id);
            soa_store::lemma_last_position(soa_store::row_ids(rows), last.node_id);
        }
        soa_store::lemma_last_position(soa_store::row_ids(rows), last.node_id);
    }
}

/// Measurements of different nodes may be published in any order.
pub proof fn law_publication_order_does_not_matter(
    rows: Seq<RowView>,
    latencies: Seq<u16>,
    healths: Seq<u8>,
    a: Seq<MetricUpdate>,
    b: Seq<MetricUpdate>,
)
    requires
        are_distinct(a),
        are_distinct(b),
        forall|u: MetricUpdate| #[trigger] a.contains(u) == b.contains(u),
    ensures
        latencies_after(rows, latencies, a, a.len()) == latencies_after(
            rows,
            latencies,
            b,
            b.len(),
        ),
        healths_after(rows, healths, a, a.len()) == healths_after(rows, healths, b, b.len()),
{
    let la = latencies_after(rows, latencies, a, a.len());
    let lb = latencies_after(rows, latencies, b, b.len());
    let ha = healths_after(rows, healths, a, a.len());
    let hb = healths_after(rows, healths, b, b.len());
    lemma_measured_at(rows, latencies, healths, a, a.len(), 0);
    lemma_measured_at(rows, latencies, healths, b, b.len(), 0);
    assert forall|i: int|
        #![trigger la[i]]
        #![trigger ha[i]]
        0 <= i implies (i < latencies.len() ==> la[i] == lb[i]) && (i < healths.len() ==> ha[i]
        == hb[i]) by {
        lemma_measured_at(rows, latencies, healths, a, a.len(), i);
        lemma_measured_at(rows, latencies, healths, b, b.len(), i);
        if exists|k: int| 0 <= k < a.len() && is_at(rows, #[trigger] a[k], i) {
            let k = choose|k: int| 0 <= k < a.len() && is_at(rows, #[trigger] a[k], i);
            assert(a.contains(a[k]));
            assert(b.contains(a[k]));
            let m = choose|m: int| 0 <= m < b.len() && b[m] == a[k];
            assert(is_at(rows, b[m], i));
        } else {
            assert forall|m: int| 0 <= m < b.len() implies !is_at(rows, #[trigger] b[m], i) by {
                if is_at(rows, b[m], i) {
                    assert(b.contains(b[m]));
                    assert(a.contains(b[m]));
                    let k = choose|k: int| 0 <= k < a.len() && a[k] == b[m];
                    assert(is_at(rows, a[k], i));
                }
            }
        }
    }
    assert(la =~= lb);
    assert(ha =~= hb);
}

/// The measurements of a store after more of them came in.
pub fn published(store: &DenseNodeStore, metrics: &MetricsArena, updates: &[MetricUpdate]) -> (r:
    MetricsArena)
    requires
        store.wf(),
    ensures
        r.latencies_ms@ == latencies_after(
            store@,
            metrics.latencies_ms@,
            updates@,
            updates@.len(),
        ),
        r.health_scores@ == healths_after(
            store@,
            metrics.health_scores@,
            updates@,
            updates@.len(),
        ),
        r.latencies_ms@.len() == metrics.latencies_ms@.len(),
        r.health_scores@.len() == metrics.health_scores@.len(),
{
    let latencies_ms = metrics.latencies_ms.clone();
    let health_scores = metrics.health_scores.clone();
    assert(latencies_ms@ =~= metrics.latencies_ms@);
    assert(health_scores@ =~= metrics.health_scores@);
    let mut replacement = MetricsArena { latencies_ms, health_scores };
    let mut i: usize = 0;
    while i < updates.len()
        invariant
            i <= updates@.len(),
            store.wf(),
            replacement.latencies_ms@ == latencies_after(
                store@,
                metrics.latencies_ms@,
                updates@,
                i as nat,
            ),
            replacement.health_scores@ == healths_after(
                store@,
                metrics.health_scores@,
                updates@,
                i as nat,
            ),
            replacement.latencies_ms@.len() == metrics.latencies_ms@.len(),
            replacement.health_scores@.len() == metrics.health_scores@.len(),
        decreases updates@.len() - i,
    {
        let update = updates[i];
        match store.index_of(update.node_id) {
            Some(index) => {
                replacement.apply_update(index, update.latency_ms, update.health_score);
            },
            None => {},
        }
        i += 1;
    }
    replacement
}

/// A copy of a store with measurements recorded in it.
pub fn measured_copy(store: &DenseNodeStore, updates: &[MetricUpdate]) -> (r: DenseNodeStore)
    requires
        store.wf(),
    ensures
        r.wf(),
        r@ == rows_after(store@, updates@, updates@.len()),
{
    let mut replacement = store.copy();
    let mut i: usize = 0;
    while i < updates.len()
        invariant
            i <= updates@.len(),
            replacement.wf(),
            replacement@ == rows_after(store@, updates@, i as nat),
        decreases updates@.len() - i,
    {
        replacement.update_metrics(
            updates[i].node_id,
            updates[i].latency_ms,
            updates[i].health_score,
        );
        i += 1;
    }
    replacement
}

/// Two layers that are published on their own: the nodes, and their measurements
/// position by position. A reader that holds one keeps it unchanged while another
/// is published.
pub struct StoreSnapshot {
    store: Arc<DenseNodeStore>,
    metrics: Arc<MetricsArena>,
}

impl StoreSnapshot {
    pub closed spec fn rows(self) -> Seq<RowView> {
        self.store@
    }

    pub closed spec fn latencies(self) -> Seq<u16> {
        self.metrics.latencies_ms@
    }

    pub closed spec fn healths(self) -> Seq<u8> {
        self.metrics.health_scores@
    }

    /// The store is well formed and every node has its measurements.
    pub closed spec fn wf(self) -> bool {
        &&& self.store.wf()
        &&& self.metrics.latencies_ms@.len() == self.store@.len()
        &&& self.metrics.health_scores@.len() == self.store@.len()
    }

    /// The measurements are those of the rows.
    pub open spec fn is_aligned(self) -> bool {
        &&& self.latencies() == self.rows().map_values(|r: RowView| r.latency_ms)
        &&& self.healths() == self.rows().map_values(|r: RowView| r.health_score)
    }

    pub fn new(store: DenseNodeStore) -> (r: StoreSnapshot)
        requires
            store.wf(),
        ensures
            r.wf(),
            r.rows() == store@,
            r.is_aligned(),
    {
        let metrics = MetricsArena::from_store(&store);
        let r = StoreSnapshot { store: Arc::new(store), metrics: Arc::new(metrics) };
        assert(r.latencies() =~= r.rows().map_values(|r: RowView| r.latency_ms));
        assert(r.healths() =~= r.rows().map_values(|r: RowView| r.health_score));
        r
    }

    /// The store that is published now.
    pub fn load(&self) -> (r: &DenseNodeStore)
        requires
            self.wf(),
        ensures
            r.wf(),
            r@ == self.rows(),
    {
        &self.store
    }

    /// The store that is published now, to be held.
    pub fn load_full(&self) -> (r: Arc<DenseNodeStore>)
        requires
            self.wf(),
        ensures
            r.wf(),
            r@ == self.rows(),
    {
        Arc::clone(&self.store)
    }

    /// The measurements that are published now.
    pub fn load_metrics(&self) -> (r: &MetricsArena)
        ensures
            r.latencies_ms@ == self.latencies(),
            r.health_scores@ == self.healths(),
    {
        &self.metrics
    }

    /// The measurements that are published now, to be held.
    pub fn load_metrics_full(&self) -> (r: Arc<MetricsArena>)
        ensures
            r.latencies_ms@ == self.latencies(),
            r.health_scores@ == self.healths(),
    {
        Arc::clone(&self.metrics)
    }

    /// Publishes another store with the measurements that it holds.
    pub fn replace(&mut self, store: DenseNodeStore) -> (r: Arc<DenseNodeStore>)
        requires
            store.wf(),
        ensures
            final(self).wf(),
            final(self).rows() == store@,
            final(self).is_aligned(),
            r.wf(),
            r@ == store@,
    {
        let replacement = StoreSnapshot::new(store);
        let published = Arc::clone(&replacement.store);
        *self = replacement;
        published
    }

    /// Publishes measurements; the store stays.
    pub fn publish_metrics(&mut self, updates: &[MetricUpdate]) -> (r: Arc<MetricsArena>)
        requires
            old(self).wf(),
        ensures
            final(self).wf(),
            final(self).rows() == old(self).rows(),
            final(self).latencies() == latencies_after(
                old(self).rows(),
                old(self).latencies(),
                updates@,
                updates@.len(),
            ),
            final(self).healths() == healths_after(
                old(self).rows(),
                old(self).healths(),
                updates@,
                updates@.len(),
            ),
            r.latencies_ms@ == final(self).latencies(),
            r.health_scores@ == final(self).healths(),
    {
        let replacement = Arc::new(published(&self.store, &self.metrics, updates));
        self.metrics = Arc::clone(&replacement);
        replacement
    }

    /// Publishes a store in which measurements are recorded, and the measurements
    /// that it then holds.
    pub fn update_metrics_batch(&mut self, updates: &[MetricUpdate]) -> (r: Arc<DenseNodeStore>)
        requires
            old(self).wf(),
        ensures
            final(self).wf(),
            final(self).rows() == rows_after(old(self).rows(), updates@, updates@.len()),
            final(self).is_aligned(),
            r.wf(),
            r@ == final(self).rows(),
    {
        let replacement = measured_copy(&self.store, updates);
        self.replace(replacement)
    }
}

} // verus!
