//! Probe results on their way from the probes to the list.
use crate::storage::snapshot::MetricUpdate;
use crate::text;
use crate::time;
use crate::time::{Duration, Instant};
use std::collections::HashMap;
use vstd::prelude::*;
use vstd::string::*;

verus! {

broadcast use vstd::std_specs::hash::group_hash_axioms;

/// How often the list takes in what changed, in milliseconds.
pub const DISPATCH_INTERVAL_MS: u64 = 33;

/// How often measurements are published, in milliseconds.
pub const METRIC_PUBLISH_INTERVAL_MS: u64 = 150;

/// How often a list that is sorted by measurements is sorted anew, in
/// milliseconds.
pub const RESORT_INTERVAL_MS: u64 = 1000;

/// A result of a probe.
#[derive(Clone, Copy, Debug, PartialEq, Eq, Structural)]
pub struct ProbeResult {
    pub node_id: u32,
    pub latency_ms: u16,
    pub health_score: u8,
}

/// A result as the queue holds it: identifier, latency and health.
pub type Item = (u32, u16, u8);

// ---------------------------------------------------------------------------
// The queue
// ---------------------------------------------------------------------------

/// The bounded queue of `crossbeam_queue`.
#[verifier::external_type_specification]
#[verifier::external_body]
#[verifier::reject_recursive_types(T)]
pub struct ExArrayQueue<T>(crossbeam_queue::ArrayQueue<T>);

/// What a `crossbeam_queue::ArrayQueue` holds, the oldest first.
pub uninterp spec fn queue_contents(q: crossbeam_queue::ArrayQueue<(u32, u16, u8)>) -> Seq<
    (u32, u16, u8),
>;

/// How many items a `crossbeam_queue::ArrayQueue` was made to hold.
pub uninterp spec fn queue_capacity(q: crossbeam_queue::ArrayQueue<(u32, u16, u8)>) -> nat;

/// `crossbeam_queue::ArrayQueue::new`: an empty queue for the given number of
/// items. It panics on zero, and on more items than can be allocated.
#[verifier::external_body]
fn new_queue(capacity: usize) -> (r: crossbeam_queue::ArrayQueue<(u32, u16, u8)>)
    requires
        capacity > 0,
        capacity * 16 <= isize::MAX,
    ensures
        queue_contents(r) == Seq::<(u32, u16, u8)>::empty(),
        queue_capacity(r) == capacity,
{
    crossbeam_queue::ArrayQueue::new(capacity)
}

/// `crossbeam_queue::ArrayQueue::push` on a queue that nobody else holds: the item
/// is appended if there is room for it, and otherwise refused. Says whether it was
/// appended.
#[verifier::external_body]
fn push_item(queue: &mut crossbeam_queue::ArrayQueue<(u32, u16, u8)>, item: (u32, u16, u8)) -> (r:
    bool)
    ensures
        r == (queue_contents(*old(queue)).len() < queue_capacity(*old(queue))),
        queue_contents(*final(queue)) == (if r {
            queue_contents(*old(queue)).push(item)
        } else {
            queue_contents(*old(queue))
        }),
        queue_capacity(*final(queue)) == queue_capacity(*old(queue)),
{
    queue.push(item).is_ok()
}

/// `crossbeam_queue::ArrayQueue::pop` on a queue that nobody else holds: the oldest
/// item is taken out, if there is one.
#[verifier::external_body]
fn pop_item(queue: &mut crossbeam_queue::ArrayQueue<(u32, u16, u8)>) -> (r: Option<(u32, u16, u8)>)
    ensures
        (match r {
            Some(item) => queue_contents(*old(queue)).len() > 0 && item == queue_contents(
                *old(queue),
            )[0] && queue_contents(*final(queue)) == queue_contents(*old(queue)).drop_first(),
            None => queue_contents(*old(queue)).len() == 0 && queue_contents(*final(queue))
                == queue_contents(*old(queue)),
        }),
        queue_capacity(*final(queue)) == queue_capacity(*old(queue)),
{
    queue.pop()
}

// ---------------------------------------------------------------------------
// The dispatcher
// ---------------------------------------------------------------------------

/// A bounded stream of results. What does not fit is counted and dropped.
pub struct UiDispatcher {
    pub queue: crossbeam_queue::ArrayQueue<(u32, u16, u8)>,
    pub dropped: u64,
}

pub open spec fn item_of(r: ProbeResult) -> Item {
    (r.node_id, r.latency_ms, r.health_score)
}

impl UiDispatcher {
    /// The results that wait, the oldest first.
    pub open spec fn waiting(self) -> Seq<Item> {
        queue_contents(self.queue)
    }

    pub open spec fn capacity(self) -> nat {
        queue_capacity(self.queue)
    }

    /// A stream for a number of results.
    pub fn new(capacity: usize) -> (r: UiDispatcher)
        requires
            capacity > 0,
            capacity * 16 <= isize::MAX,
        ensures
            r.waiting() == Seq::<Item>::empty(),
            r.capacity() == capacity,
            r.dropped == 0,
    {
        UiDispatcher { queue: new_queue(capacity), dropped: 0 }
    }

    /// Appends a result, or counts it as dropped. The count starts over after the
    /// largest number.
    pub fn enqueue(&mut self, result: ProbeResult)
        ensures
            final(self).capacity() == old(self).capacity(),
            old(self).waiting().len() < old(self).capacity() ==> final(self).waiting() == old(self).waiting().push(item_of(result)) && final(self).dropped == old(self).dropped,
            old(self).waiting().len() >= old(self).capacity() ==> final(self).waiting() == old(self).waiting() && final(self).dropped == (if old(self).dropped == u64::MAX {
                0
            } else {
                (old(self).dropped + 1) as u64
            }),
    {
        if !push_item(&mut self.queue, (result.node_id, result.latency_ms, result.health_score)) {
            self.dropped = if self.dropped == u64::MAX {
                0
            } else {
                self.dropped + 1
            };
        }
    }

    /// How many results were dropped.
    pub fn dropped_results(&self) -> (r: u64)
        ensures
            r == self.dropped,
    {
        self.dropped
    }

    /// Takes all waiting results in.
    pub fn drain_into(&mut self, accumulation: &mut Accumulation)
        requires
            old(accumulation).wf(),
        ensures
            final(accumulation).wf(),
            final(accumulation)@ == noted(old(accumulation)@, old(self).waiting()),
            final(self).waiting() == Seq::<Item>::empty(),
            final(self).capacity() == old(self).capacity(),
            final(self).dropped == old(self).dropped,
    {
        let ghost all = self.waiting();
        let ghost base = accumulation@;
        let mut taken: Ghost<int> = Ghost(0);
        assert(all.skip(0) =~= all);
        assert(all.take(0) =~= Seq::empty());
        loop
            invariant
                0 <= taken@ <= all.len(),
                accumulation.wf(),
                self.waiting() == all.skip(taken@),
                accumulation@ == noted(base, all.take(taken@)),
                self.capacity() == old(self).capacity(),
                self.dropped == old(self).dropped,
            ensures
                taken@ == all.len(),
            decreases all.len() - taken@,
        {
            match pop_item(&mut self.queue) {
                Some(item) => {
                    accumulation.note(
                        ProbeResult {
                            node_id: item.0,
                            latency_ms: item.1,
                            health_score: item.2,
                        },
                    );
                    proof {
                        assert(all.skip(taken@).drop_first() =~= all.skip(taken@ + 1));
                        assert(all.take(taken@ + 1).drop_last() =~= all.take(taken@));
                        assert(all.take(taken@ + 1).last() == all[taken@]);
                        taken@ = taken@ + 1;
                    }
                },
                None => {
                    break;
                },
            }
        }
        assert(all.take(all.len() as int) =~= all);
        assert(self.waiting() =~= Seq::empty());
    }
}

// ---------------------------------------------------------------------------
// Accumulation
// ---------------------------------------------------------------------------

/// The latest result of each node since measurements were published last.
pub struct Accumulation {
    pub updates: Vec<MetricUpdate>,
    pub positions: HashMap<u32, usize>,
}

/// Latency and health by identifier.
pub type Latest = Map<u32, (u16, u8)>;

/// The latest results after more came in.
pub open spec fn noted(latest: Latest, items: Seq<Item>) -> Latest
    decreases items.len(),
{
    if items.len() == 0 {
        latest
    } else {
        noted(latest, items.drop_last()).insert(items.last().0, (items.last().1, items.last().2))
    }
}

/// The list names each of the latest results once, and nothing else.
pub open spec fn lists(updates: Seq<MetricUpdate>, latest: Latest) -> bool {
    &&& forall|i: int, j: int|
        0 <= i < j < updates.len() ==> (#[trigger] updates[i]).node_id != (#[trigger]
        updates[j]).node_id
    &&& forall|i: int|
        0 <= i < updates.len() ==> latest.contains_key((#[trigger] updates[i]).node_id)
            && latest[updates[i].node_id] == (updates[i].latency_ms, updates[i].health_score)
    &&& forall|id: u32| #[trigger]
        latest.contains_key(id) ==> exists|i: int|
            0 <= i < updates.len() && (#[trigger] updates[i]).node_id == id
}

impl View for Accumulation {
    type V = Latest;

    open spec fn view(&self) -> Latest {
        Map::new(
            |id: u32| self.positions@.contains_key(id),
            |id: u32|
                (
                    self.updates@[self.positions@[id] as int].latency_ms,
                    self.updates@[self.positions@[id] as int].health_score,
                ),
        )
    }
}

impl Accumulation {
    /// Every identifier stands at its position, and at no other.
    pub open spec fn wf(self) -> bool {
        &&& forall|i: int|
            0 <= i < self.updates@.len() ==> self.positions@.contains_key(
                (#[trigger] self.updates@[i]).node_id,
            ) && self.positions@[self.updates@[i].node_id] == i
        &&& forall|id: u32| #[trigger]
            self.positions@.contains_key(id) ==> self.positions@[id] < self.updates@.len()
                && self.updates@[self.positions@[id] as int].node_id == id
    }

    pub fn new() -> (r: Accumulation)
        ensures
            r.wf(),
            r@ == Latest::empty(),
    {
        let r = Accumulation { updates: Vec::new(), positions: HashMap::new() };
        assert(r@ =~= Latest::empty());
        r
    }

    /// Takes a result in; it takes the place of an earlier one of the node.
    pub fn note(&mut self, result: ProbeResult)
        requires
            old(self).wf(),
        ensures
            final(self).wf(),
            final(self)@ == old(self)@.insert(
                result.node_id,
                (result.latency_ms, result.health_score),
            ),
    {
        let ghost before = *self;
        let update = MetricUpdate {
            node_id: result.node_id,
            latency_ms: result.latency_ms,
            health_score: result.health_score,
        };
        let known = match self.positions.get(&result.node_id) {
            Some(position) => Some(*position),
            None => None,
        };
        match known {
            Some(position) => {
                self.updates.set(position, update);
            },
            None => {
                let position: usize = self.updates.len();
                self.updates.push(update);
                self.positions.insert(result.node_id, position);
            },
        }
        proof {
            let want = before@.insert(result.node_id, (result.latency_ms, result.health_score));
            assert forall|id: u32| #[trigger] want.contains_key(id) implies self@.contains_key(id)
                && self@[id] == want[id] by {
                if id != result.node_id {
                    assert(before.positions@.contains_key(id));
                }
            }
            assert(self@ =~= want);
        }
    }

    pub fn is_empty(&self) -> (r: bool)
        requires
            self.wf(),
        ensures
            r == (self@ == Latest::empty()),
    {
        let r = self.updates.len() == 0;
        proof {
            if r {
                assert(self@ =~= Latest::empty());
            } else {
                assert(self@.contains_key(self.updates@[0].node_id));
            }
        }
        r
    }

    /// Takes the latest results out.
    pub fn take(&mut self) -> (r: Vec<MetricUpdate>)
        requires
            old(self).wf(),
        ensures
            final(self).wf(),
            final(self)@ == Latest::empty(),
            lists(r@, old(self)@),
    {
        let ghost before = *self;
        let mut r: Vec<MetricUpdate> = Vec::new();
        std::mem::swap(&mut r, &mut self.updates);
        self.positions = HashMap::new();
        proof {
            assert(self@ =~= Latest::empty());
            assert forall|id: u32| #[trigger] before@.contains_key(id) implies exists|i: int|
                0 <= i < r@.len() && (#[trigger] r@[i]).node_id == id by {
                let i = before.positions@[id] as int;
                assert(r@[i].node_id == id);
            }
        }
        r
    }
}

/// Publishes what accumulated at a steady pace.
pub struct MetricWorker {
    pub accumulation: Accumulation,
    pub next_publish: Instant,
}

impl MetricWorker {
    pub fn new(now: Instant) -> (r: MetricWorker)
        ensures
            r.accumulation.wf(),
            r.accumulation@ == Latest::empty(),
            r.next_publish == time::later(now, time::millis(METRIC_PUBLISH_INTERVAL_MS as nat)),
    {
        MetricWorker {
            accumulation: Accumulation::new(),
            next_publish: now.plus(Duration::from_millis(METRIC_PUBLISH_INTERVAL_MS)),
        }
    }

    /// What is to be published now: everything that accumulated, if it is time.
    pub fn publish(&mut self, now: Instant) -> (r: Option<Vec<MetricUpdate>>)
        requires
            old(self).accumulation.wf(),
        ensures
            final(self).accumulation.wf(),
            (match r {
                Some(updates) => old(self).accumulation@ != Latest::empty() && now.nanos >= old(self).next_publish.nanos && lists(updates@, old(self).accumulation@) && final(self).accumulation@ == Latest::empty() && final(self).next_publish == time::later(
                    now,
                    time::millis(METRIC_PUBLISH_INTERVAL_MS as nat),
                ),
                None => (old(self).accumulation@ == Latest::empty() || now.nanos < old(self).next_publish.nanos) && *final(self) == *old(self),
            }),
    {
        if self.accumulation.is_empty() || now.nanos < self.next_publish.nanos {
            return None;
        }
        let updates = self.accumulation.take();
        self.next_publish = now.plus(Duration::from_millis(METRIC_PUBLISH_INTERVAL_MS));
        Some(updates)
    }
}

/// The identifiers of measurements.
pub fn changed_ids(updates: &Vec<MetricUpdate>) -> (r: Vec<u32>)
    ensures
        r@ == updates@.map_values(|u: MetricUpdate| u.node_id),
{
    let mut r: Vec<u32> = Vec::new();
    let mut i: usize = 0;
    while i < updates.len()
        invariant
            i <= updates@.len(),
            r@.len() == i,
            forall|k: int| 0 <= k < i ==> #[trigger] r@[k] == updates@[k].node_id,
        decreases updates@.len() - i,
    {
        r.push(updates[i].node_id);
        i += 1;
    }
    assert(r@ =~= updates@.map_values(|u: MetricUpdate| u.node_id));
    r
}

/// Whether a list that is sorted by measurements is due to be sorted anew; the
/// moment is kept if it is.
pub fn resort_due(last_resort: &mut Instant, now: Instant) -> (r: bool)
    ensures
        r == (time::since(now, *old(last_resort)).nanos >= time::millis(
            RESORT_INTERVAL_MS as nat,
        ).nanos),
        *final(last_resort) == (if r {
            now
        } else {
            *old(last_resort)
        }),
{
    if now.duration_since(*last_resort).nanos >= Duration::from_millis(RESORT_INTERVAL_MS).nanos {
        *last_resort = now;
        true
    } else {
        false
    }
}

/// The line about dropped results, if there are any.
pub fn dropped_text(dropped: u64) -> (r: Option<String>)
    ensures
        (match r {
            Some(s) => dropped != 0 && s@ == text::decimal(dropped as nat)
                + " demo updates dropped"@,
            None => dropped == 0,
        }),
{
    if dropped == 0 {
        return None;
    }
    let mut r = text::decimal_text(dropped);
    r.append(" demo updates dropped");
    Some(r)
}

// ---------------------------------------------------------------------------
// Laws
// ---------------------------------------------------------------------------

/// Of the results of a node, the last one counts, whatever came for others after
/// it.
pub proof fn law_the_last_result_counts(latest: Latest, items: Seq<Item>, k: int)
    requires
        0 <= k < items.len(),
        forall|j: int| k < j < items.len() ==> (#[trigger] items[j]).0 != items[k].0,
    ensures
        noted(latest, items).contains_key(items[k].0),
        noted(latest, items)[items[k].0] == (items[k].1, items[k].2),
    decreases items.len(),
{
    if k < items.len() - 1 {
        let rest = items.drop_last();
        assert(forall|j: int| k < j < rest.len() ==> rest[j] == items[j]);
        law_the_last_result_counts(latest, rest, k);
    }
}

} // verus!
