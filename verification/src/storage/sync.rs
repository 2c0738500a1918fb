//! What replacing the nodes of one subscription changes in the catalog.
use crate::ir::hash_index::{HashIndex, Hashed};
use crate::ir::node::{CanonicalHash, CanonicalNode, NodeView, SubId};
use crate::storage::repository;
use crate::storage::repository::SyncResult;
use std::collections::HashMap;
use vstd::prelude::*;

verus! {

broadcast use vstd::std_specs::hash::group_hash_axioms;

/// A persisted node: its number and its hash.
#[derive(Clone, Copy, Debug, PartialEq, Eq)]
pub struct StoredNode {
    pub id: u32,
    pub hash: CanonicalHash,
}

impl Hashed for StoredNode {
    open spec fn digest(&self) -> Seq<u8> {
        self.hash@
    }

    fn hash(&self) -> (r: &CanonicalHash) {
        &self.hash
    }
}

/// The persisted nodes, and which subscriptions they come from.
#[derive(Clone, Debug)]
pub struct Catalog {
    pub nodes: Vec<StoredNode>,
    /// Numbers of nodes, each with a subscription that has the node.
    pub links: Vec<(u32, u16)>,
}

/// A node that is to be linked to a subscription.
#[derive(Clone, Copy, Debug, PartialEq, Eq, Structural)]
pub enum LinkTarget {
    /// A persisted node, by its number.
    Stored(u32),
    /// A node that is to be inserted, by its position.
    New(usize),
}

/// What a replacement changes: the nodes to insert, by position, the nodes that
/// the subscription has from now on, and the numbers of the nodes to remove.
#[derive(Clone, Debug)]
pub struct SyncPlan {
    pub insert: Vec<usize>,
    pub link: Vec<LinkTarget>,
    pub orphans: Vec<u32>,
}

/// The model of a catalog: hashes, and hashes with subscriptions.
pub struct CatalogView {
    pub nodes: Set<Seq<u8>>,
    pub sources: Set<(Seq<u8>, SubId)>,
}

// ---------------------------------------------------------------------------
// Model
// ---------------------------------------------------------------------------

/// The catalog after the nodes of a subscription were replaced: the subscription
/// has exactly the reported nodes, others keep theirs, and nodes that none has are
/// gone.
pub open spec fn synced(v: CatalogView, sub: SubId, reported: Set<Seq<u8>>) -> CatalogView {
    let sources = Set::new(
        |p: (Seq<u8>, SubId)|
            if p.1 == sub {
                reported.contains(p.0)
            } else {
                v.sources.contains(p)
            },
    );
    CatalogView {
        nodes: Set::new(
            |h: Seq<u8>|
                (v.nodes.contains(h) || reported.contains(h)) && (exists|s: SubId|
                    sources.contains((h, s))),
        ),
        sources,
    }
}

pub open spec fn is_stored(stored: Seq<StoredNode>, h: Seq<u8>) -> bool {
    exists|i: int| 0 <= i < stored.len() && (#[trigger] stored[i]).hash@ == h
}

/// The number of the persisted node with a hash.
pub open spec fn stored_id(stored: Seq<StoredNode>, h: Seq<u8>) -> u32 {
    stored[choose|i: int| 0 <= i < stored.len() && (#[trigger] stored[i]).hash@ == h].id
}

pub open spec fn is_reported(nodes: Seq<NodeView>, h: Seq<u8>) -> bool {
    exists|i: int| 0 <= i < nodes.len() && (#[trigger] nodes[i]).hash == h
}

/// Another subscription has the node.
pub open spec fn is_linked_elsewhere(links: Seq<(u32, u16)>, id: u32, sub: SubId) -> bool {
    exists|k: int| 0 <= k < links.len() && (#[trigger] links[k]).0 == id && links[k].1 != sub
}

pub open spec fn target_of(stored: Seq<StoredNode>, nodes: Seq<NodeView>, p: int) -> LinkTarget {
    if is_stored(stored, nodes[p].hash) {
        LinkTarget::Stored(stored_id(stored, nodes[p].hash))
    } else {
        LinkTarget::New(p as usize)
    }
}

/// The nodes that the subscription has from now on: of nodes with one hash the
/// first.
pub open spec fn targets(stored: Seq<StoredNode>, nodes: Seq<NodeView>, n: nat) -> Seq<LinkTarget>
    decreases n,
{
    if n == 0 {
        Seq::empty()
    } else {
        let before = targets(stored, nodes, (n - 1) as nat);
        if repository::is_first(nodes, n - 1) {
            before.push(target_of(stored, nodes, n - 1))
        } else {
            before
        }
    }
}

/// The positions of the nodes that are not persisted yet.
pub open spec fn fresh(stored: Seq<StoredNode>, nodes: Seq<NodeView>, n: nat) -> Seq<usize>
    decreases n,
{
    if n == 0 {
        Seq::empty()
    } else {
        let before = fresh(stored, nodes, (n - 1) as nat);
        if repository::is_first(nodes, n - 1) && !is_stored(stored, nodes[n - 1].hash) {
            before.push((n - 1) as usize)
        } else {
            before
        }
    }
}

/// The numbers of the persisted nodes that no subscription has from now on.
pub open spec fn orphan_ids(
    stored: Seq<StoredNode>,
    links: Seq<(u32, u16)>,
    sub: SubId,
    nodes: Seq<NodeView>,
    n: nat,
) -> Seq<u32>
    decreases n,
{
    if n == 0 {
        Seq::empty()
    } else {
        let before = orphan_ids(stored, links, sub, nodes, (n - 1) as nat);
        if !is_reported(nodes, stored[n - 1].hash@) && !is_linked_elsewhere(
            links,
            stored[n - 1].id,
            sub,
        ) {
            before.push(stored[n - 1].id)
        } else {
            before
        }
    }
}

/// The hashes of nodes.
pub open spec fn reported_hashes(nodes: Seq<NodeView>) -> Set<Seq<u8>> {
    Set::new(|h: Seq<u8>| is_reported(nodes, h))
}

impl View for Catalog {
    type V = CatalogView;

    open spec fn view(&self) -> CatalogView {
        CatalogView {
            nodes: Set::new(|h: Seq<u8>| is_stored(self.nodes@, h)),
            sources: Set::new(
                |p: (Seq<u8>, SubId)|
                    exists|i: int, k: int|
                        0 <= i < self.nodes@.len() && 0 <= k < self.links@.len() && (
                        #[trigger] self.nodes@[i]).hash@ == p.0 && #[trigger] self.links@[k] == (
                            self.nodes@[i].id,
                            p.1,
                        ),
            ),
        }
    }
}

impl Catalog {
    /// Neither numbers nor hashes of nodes repeat.
    pub open spec fn wf(self) -> bool {
        &&& forall|i: int, j: int|
            0 <= i < j < self.nodes@.len() ==> (#[trigger] self.nodes@[i]).id != (
            #[trigger] self.nodes@[j]).id
        &&& forall|i: int, j: int|
            0 <= i < j < self.nodes@.len() ==> (#[trigger] self.nodes@[i]).hash@ != (
            #[trigger] self.nodes@[j]).hash@
    }
}

/// The link target is a node with the hash: a persisted one that stays, or one that
/// is inserted.
pub open spec fn is_target(
    stored: Seq<StoredNode>,
    nodes: Seq<NodeView>,
    insert: Seq<usize>,
    orphans: Seq<u32>,
    target: LinkTarget,
    h: Seq<u8>,
) -> bool {
    match target {
        LinkTarget::Stored(id) => !orphans.contains(id) && exists|i: int|
            0 <= i < stored.len() && (#[trigger] stored[i]).id == id && stored[i].hash@ == h,
        LinkTarget::New(p) => insert.contains(p) && p < nodes.len() && nodes[p as int].hash == h,
    }
}

/// The catalog after a plan was carried out: the nodes to insert are there and the
/// nodes to remove are gone, with their links; the subscription has the link targets
/// and nothing else, and the others have what they had.
pub open spec fn carried_out(
    c: Catalog,
    sub: SubId,
    nodes: Seq<NodeView>,
    insert: Seq<usize>,
    link: Seq<LinkTarget>,
    orphans: Seq<u32>,
) -> CatalogView {
    CatalogView {
        nodes: Set::new(
            |h: Seq<u8>|
                (exists|i: int|
                    0 <= i < c.nodes@.len() && (#[trigger] c.nodes@[i]).hash@ == h
                        && !orphans.contains(c.nodes@[i].id)) || (exists|k: int|
                    0 <= k < insert.len() && nodes[#[trigger] insert[k] as int].hash == h),
        ),
        sources: Set::new(
            |p: (Seq<u8>, SubId)|
                if p.1 == sub {
                    exists|k: int|
                        0 <= k < link.len() && is_target(
                            c.nodes@,
                            nodes,
                            insert,
                            orphans,
                            #[trigger] link[k],
                            p.0,
                        )
                } else {
                    exists|i: int, k: int|
                        0 <= i < c.nodes@.len() && 0 <= k < c.links@.len() && (
                        #[trigger] c.nodes@[i]).hash@ == p.0 && #[trigger] c.links@[k] == (
                            c.nodes@[i].id,
                            p.1,
                        ) && !orphans.contains(c.nodes@[i].id)
                },
        ),
    }
}

// ---------------------------------------------------------------------------
// Laws
// ---------------------------------------------------------------------------

/// A replacement gives the subscription exactly the reported nodes, and leaves the
/// nodes of every other subscription as they are.
pub proof fn law_sync_replaces_sources(
    v: CatalogView,
    sub: SubId,
    reported: Set<Seq<u8>>,
    h: Seq<u8>,
    other: SubId,
)
    requires
        other != sub,
    ensures
        synced(v, sub, reported).sources.contains((h, sub)) == reported.contains(h),
        synced(v, sub, reported).sources.contains((h, other)) == v.sources.contains((h, other)),
{
}

/// Only orphans are collected: a node that goes was not reported, and no other
/// subscription had it.
pub proof fn law_sync_collects_only_orphans(
    v: CatalogView,
    sub: SubId,
    reported: Set<Seq<u8>>,
    h: Seq<u8>,
)
    requires
        v.nodes.contains(h),
        !synced(v, sub, reported).nodes.contains(h),
    ensures
        !reported.contains(h),
        forall|other: SubId| other != sub ==> !v.sources.contains((h, other)),
{
    let after = synced(v, sub, reported);
    if reported.contains(h) {
        assert(after.sources.contains((h, sub)));
    }
    assert forall|other: SubId| other != sub implies !v.sources.contains((h, other)) by {
        if v.sources.contains((h, other)) {
            assert(after.sources.contains((h, other)));
        }
    }
}

/// A node that two subscriptions report is kept once, with both as its sources.
pub proof fn law_shared_nodes_keep_both_sources(
    v: CatalogView,
    first: SubId,
    second: SubId,
    a: Set<Seq<u8>>,
    b: Set<Seq<u8>>,
    h: Seq<u8>,
)
    requires
        first != second,
        a.contains(h),
        b.contains(h),
    ensures
        ({
            let after = synced(synced(v, first, a), second, b);
            &&& after.nodes.contains(h)
            &&& after.sources.contains((h, first))
            &&& after.sources.contains((h, second))
        }),
{
    let after = synced(synced(v, first, a), second, b);
    assert(after.sources.contains((h, second)));
}

/// The same report again changes nothing.
pub proof fn law_repeated_syncs_change_nothing(
    v: CatalogView,
    sub: SubId,
    reported: Set<Seq<u8>>,
)
    ensures
        synced(synced(v, sub, reported), sub, reported) == synced(v, sub, reported),
{
    let once = synced(v, sub, reported);
    let twice = synced(once, sub, reported);
    assert(twice.sources =~= once.sources);
    assert forall|h: Seq<u8>| once.nodes.contains(h) == twice.nodes.contains(h) by {
        if once.nodes.contains(h) {
            let s = choose|s: SubId| once.sources.contains((h, s));
            assert(twice.sources.contains((h, s)));
        }
        if twice.nodes.contains(h) {
            let s = choose|s: SubId| twice.sources.contains((h, s));
            assert(once.sources.contains((h, s)));
            if reported.contains(h) {
                assert(once.sources.contains((h, sub)));
            }
        }
    }
    assert(twice.nodes =~= once.nodes);
}

proof fn lemma_fresh(stored: Seq<StoredNode>, nodes: Seq<NodeView>, n: nat)
    requires
        n <= nodes.len() <= usize::MAX,
    ensures
        forall|k: int|
            0 <= k < fresh(stored, nodes, n).len() ==> (#[trigger] fresh(stored, nodes, n)[k]) < n
                && !is_stored(stored, nodes[fresh(stored, nodes, n)[k] as int].hash),
        forall|p: int|
            0 <= p < n && #[trigger] repository::is_first(nodes, p) && !is_stored(
                stored,
                nodes[p].hash,
            ) ==> fresh(stored, nodes, n).contains(p as usize),
    decreases n,
{
    if n > 0 {
        lemma_fresh(stored, nodes, (n - 1) as nat);
        let before = fresh(stored, nodes, (n - 1) as nat);
        let all = fresh(stored, nodes, n);
        assert forall|p: int|
            0 <= p < n && #[trigger] repository::is_first(nodes, p) && !is_stored(
                stored,
                nodes[p].hash,
            ) implies all.contains(p as usize) by {
            if p < n - 1 {
                assert(before.contains(p as usize));
                let k = choose|k: int| 0 <= k < before.len() && before[k] == p as usize;
                assert(all[k] == p as usize);
            } else {
                assert(all[before.len() as int] == p as usize);
            }
        }
    }
}

proof fn lemma_first_of(nodes: Seq<NodeView>, j: int) -> (p: int)
    requires
        0 <= j < nodes.len(),
    ensures
        0 <= p <= j,
        repository::is_first(nodes, p),
        nodes[p].hash == nodes[j].hash,
    decreases j,
{
    if repository::is_first(nodes, j) {
        j
    } else {
        let i = choose|i: int| 0 <= i < j && (#[trigger] nodes[i]).hash == nodes[j].hash;
        lemma_first_of(nodes, i)
    }
}

proof fn lemma_orphans(c: Catalog, sub: SubId, nodes: Seq<NodeView>, n: nat)
    requires
        c.wf(),
        n <= c.nodes@.len(),
    ensures
        forall|k: int|
            0 <= k < orphan_ids(c.nodes@, c.links@, sub, nodes, n).len() ==> exists|i: int|
                0 <= i < n && (#[trigger] c.nodes@[i]).id == #[trigger] orphan_ids(
                    c.nodes@,
                    c.links@,
                    sub,
                    nodes,
                    n,
                )[k],
        forall|i: int|
            0 <= i < n ==> (orphan_ids(c.nodes@, c.links@, sub, nodes, n).contains(
                (#[trigger] c.nodes@[i]).id,
            ) == (!is_reported(nodes, c.nodes@[i].hash@) && !is_linked_elsewhere(
                c.links@,
                c.nodes@[i].id,
                sub,
            ))),
    decreases n,
{
    if n > 0 {
        lemma_orphans(c, sub, nodes, (n - 1) as nat);
        let before = orphan_ids(c.nodes@, c.links@, sub, nodes, (n - 1) as nat);
        let all = orphan_ids(c.nodes@, c.links@, sub, nodes, n);
        let last = c.nodes@[n - 1];
        assert forall|k: int| 0 <= k < all.len() implies exists|i: int|
            0 <= i < n && (#[trigger] c.nodes@[i]).id == #[trigger] all[k] by {
            if k < before.len() {
                assert(all[k] == before[k]);
                let i = choose|i: int| 0 <= i < n - 1 && (#[trigger] c.nodes@[i]).id == before[k];
                assert(c.nodes@[i].id == all[k]);
            } else {
                assert(c.nodes@[n - 1].id == all[k]);
            }
        }
        assert forall|i: int| 0 <= i < n implies (all.contains((#[trigger] c.nodes@[i]).id) == (
        !is_reported(nodes, c.nodes@[i].hash@) && !is_linked_elsewhere(
            c.links@,
            c.nodes@[i].id,
            sub,
        ))) by {
            let id = c.nodes@[i].id;
            if i < n - 1 {
                assert(id != last.id);
                if before.contains(id) {
                    let k = choose|k: int| 0 <= k < before.len() && before[k] == id;
                    assert(all[k] == id);
                }
                if all.contains(id) {
                    let k = choose|k: int| 0 <= k < all.len() && all[k] == id;
                    assert(k < before.len());
                    assert(before[k] == id);
                }
            } else {
                if before.contains(id) {
                    let k = choose|k: int| 0 <= k < before.len() && before[k] == id;
                    let j = choose|j: int| 0 <= j < n - 1 && (#[trigger] c.nodes@[j]).id == before[k];
                    assert(c.nodes@[j].id != c.nodes@[n - 1].id);
                }
                if all.len() > before.len() {
                    assert(all[before.len() as int] == id);
                }
            }
        }
    }
}

/// A plan reaches the replaced catalog: once it is carried out, the nodes and the
/// sources of nodes are those of the replaced catalog.
pub proof fn law_plans_reach_the_synced_catalog(c: Catalog, sub: SubId, nodes: Seq<NodeView>)
    requires
        c.wf(),
        nodes.len() <= usize::MAX,
    ensures
        carried_out(
            c,
            sub,
            nodes,
            fresh(c.nodes@, nodes, nodes.len()),
            targets(c.nodes@, nodes, nodes.len()),
            orphan_ids(c.nodes@, c.links@, sub, nodes, c.nodes@.len()),
        ) == synced(c@, sub, reported_hashes(nodes)),
{
    let insert = fresh(c.nodes@, nodes, nodes.len());
    let link = targets(c.nodes@, nodes, nodes.len());
    let orphans = orphan_ids(c.nodes@, c.links@, sub, nodes, c.nodes@.len());
    let done = carried_out(c, sub, nodes, insert, link, orphans);
    let want = synced(c@, sub, reported_hashes(nodes));
    assert forall|h: Seq<u8>| done.nodes.contains(h) == want.nodes.contains(h) by {
        lemma_plans_reach_the_nodes(c, sub, nodes, h);
    }
    assert(done.nodes =~= want.nodes);
    assert forall|p: (Seq<u8>, SubId)| done.sources.contains(p) == want.sources.contains(p) by {
        if p.1 == sub {
            lemma_plans_reach_the_own_sources(c, sub, nodes, p.0);
        } else {
            lemma_plans_keep_other_sources(c, sub, nodes, p.0, p.1);
        }
    }
    assert(done.sources =~= want.sources);
}

proof fn lemma_targets(stored: Seq<StoredNode>, nodes: Seq<NodeView>, n: nat)
    requires
        n <= nodes.len(),
    ensures
        forall|k: int|
            0 <= k < targets(stored, nodes, n).len() ==> exists|p: int|
                0 <= p < n && #[trigger] repository::is_first(nodes, p) && #[trigger] targets(
                    stored,
                    nodes,
                    n,
                )[k] == target_of(stored, nodes, p),
        forall|p: int|
            0 <= p < n && #[trigger] repository::is_first(nodes, p) ==> targets(
                stored,
                nodes,
                n,
            ).contains(target_of(stored, nodes, p)),
    decreases n,
{
    if n > 0 {
        lemma_targets(stored, nodes, (n - 1) as nat);
        let before = targets(stored, nodes, (n - 1) as nat);
        let all = targets(stored, nodes, n);
        assert forall|k: int| 0 <= k < all.len() implies exists|p: int|
            0 <= p < n && #[trigger] repository::is_first(nodes, p) && #[trigger] all[k]
                == target_of(stored, nodes, p) by {
            if k < before.len() {
                assert(all[k] == before[k]);
                let p = choose|p: int|
                    0 <= p < n - 1 && #[trigger] repository::is_first(nodes, p) && before[k]
                        == target_of(stored, nodes, p);
                assert(repository::is_first(nodes, p));
            } else {
                assert(repository::is_first(nodes, n - 1));
            }
        }
        assert forall|p: int|
            0 <= p < n && #[trigger] repository::is_first(nodes, p) implies all.contains(
            target_of(stored, nodes, p),
        ) by {
            let want = target_of(stored, nodes, p);
            if p < n - 1 {
                assert(before.contains(want));
                let k = choose|k: int| 0 <= k < before.len() && before[k] == want;
                assert(all[k] == want);
            } else {
                assert(all[before.len() as int] == want);
            }
        }
    }
}

/// The target of a reported node is a node with its hash.
proof fn lemma_target_of(c: Catalog, sub: SubId, nodes: Seq<NodeView>, p: int)
    requires
        c.wf(),
        nodes.len() <= usize::MAX,
        0 <= p < nodes.len(),
        repository::is_first(nodes, p),
    ensures
        forall|h: Seq<u8>| #[trigger]
            is_target(
                c.nodes@,
                nodes,
                fresh(c.nodes@, nodes, nodes.len()),
                orphan_ids(c.nodes@, c.links@, sub, nodes, c.nodes@.len()),
                target_of(c.nodes@, nodes, p),
                h,
            ) == (h == nodes[p].hash),
{
    lemma_orphans(c, sub, nodes, c.nodes@.len());
    lemma_fresh(c.nodes@, nodes, nodes.len());
    let hash = nodes[p].hash;
    if is_stored(c.nodes@, hash) {
        let i = choose|i: int| 0 <= i < c.nodes@.len() && (#[trigger] c.nodes@[i]).hash@ == hash;
        assert(stored_id(c.nodes@, hash) == c.nodes@[i].id);
        assert(is_reported(nodes, c.nodes@[i].hash@));
    }
}

proof fn lemma_plans_reach_the_own_sources(
    c: Catalog,
    sub: SubId,
    nodes: Seq<NodeView>,
    h: Seq<u8>,
)
    requires
        c.wf(),
        nodes.len() <= usize::MAX,
    ensures
        is_reported(nodes, h) == (exists|k: int|
            0 <= k < targets(c.nodes@, nodes, nodes.len()).len() && is_target(
                c.nodes@,
                nodes,
                fresh(c.nodes@, nodes, nodes.len()),
                orphan_ids(c.nodes@, c.links@, sub, nodes, c.nodes@.len()),
                #[trigger] targets(c.nodes@, nodes, nodes.len())[k],
                h,
            )),
{
    let insert = fresh(c.nodes@, nodes, nodes.len());
    let link = targets(c.nodes@, nodes, nodes.len());
    let orphans = orphan_ids(c.nodes@, c.links@, sub, nodes, c.nodes@.len());
    lemma_targets(c.nodes@, nodes, nodes.len());
    if is_reported(nodes, h) {
        let j = choose|j: int| 0 <= j < nodes.len() && (#[trigger] nodes[j]).hash == h;
        let p = lemma_first_of(nodes, j);
        lemma_target_of(c, sub, nodes, p);
        let k = choose|k: int| 0 <= k < link.len() && link[k] == target_of(c.nodes@, nodes, p);
        assert(is_target(c.nodes@, nodes, insert, orphans, link[k], h));
    }
    if exists|k: int|
        0 <= k < link.len() && is_target(c.nodes@, nodes, insert, orphans, #[trigger] link[k], h) {
        let k = choose|k: int|
            0 <= k < link.len() && is_target(
                c.nodes@,
                nodes,
                insert,
                orphans,
                #[trigger] link[k],
                h,
            );
        let p = choose|p: int|
            0 <= p < nodes.len() && #[trigger] repository::is_first(nodes, p) && link[k]
                == target_of(c.nodes@, nodes, p);
        lemma_target_of(c, sub, nodes, p);
        assert(nodes[p].hash == h);
    }
}

proof fn lemma_plans_keep_other_sources(
    c: Catalog,
    sub: SubId,
    nodes: Seq<NodeView>,
    h: Seq<u8>,
    other: SubId,
)
    requires
        c.wf(),
        other != sub,
    ensures
        c@.sources.contains((h, other)) == (exists|i: int, k: int|
            0 <= i < c.nodes@.len() && 0 <= k < c.links@.len() && (
            #[trigger] c.nodes@[i]).hash@ == h && #[trigger] c.links@[k] == (c.nodes@[i].id, other)
                && !orphan_ids(c.nodes@, c.links@, sub, nodes, c.nodes@.len()).contains(
                c.nodes@[i].id,
            )),
{
    lemma_orphans(c, sub, nodes, c.nodes@.len());
    if c@.sources.contains((h, other)) {
        let (i, k) = choose|i: int, k: int|
            0 <= i < c.nodes@.len() && 0 <= k < c.links@.len() && (
            #[trigger] c.nodes@[i]).hash@ == h && #[trigger] c.links@[k] == (
                c.nodes@[i].id,
                other,
            );
        assert(is_linked_elsewhere(c.links@, c.nodes@[i].id, sub));
        assert(c.nodes@[i].hash@ == h && c.links@[k] == (c.nodes@[i].id, other));
    }
}

/// What remains of the persisted nodes, together with the inserted ones, are the
/// nodes of the replaced catalog.
proof fn lemma_plans_reach_the_nodes(c: Catalog, sub: SubId, nodes: Seq<NodeView>, h: Seq<u8>)
    requires
        c.wf(),
        nodes.len() <= usize::MAX,
    ensures
        synced(c@, sub, reported_hashes(nodes)).nodes.contains(h) == ((exists|i: int|
            0 <= i < c.nodes@.len() && (#[trigger] c.nodes@[i]).hash@ == h && !orphan_ids(
                c.nodes@,
                c.links@,
                sub,
                nodes,
                c.nodes@.len(),
            ).contains(c.nodes@[i].id)) || (exists|k: int|
            0 <= k < fresh(c.nodes@, nodes, nodes.len()).len() && nodes[#[trigger] fresh(
                c.nodes@,
                nodes,
                nodes.len(),
            )[k] as int].hash == h)),
{
    let reported = reported_hashes(nodes);
    let after = synced(c@, sub, reported);
    let gone = orphan_ids(c.nodes@, c.links@, sub, nodes, c.nodes@.len());
    let added = fresh(c.nodes@, nodes, nodes.len());
    lemma_orphans(c, sub, nodes, c.nodes@.len());
    lemma_fresh(c.nodes@, nodes, nodes.len());
    if after.nodes.contains(h) {
        let s = choose|s: SubId| after.sources.contains((h, s));
        if is_stored(c.nodes@, h) {
            let i = choose|i: int| 0 <= i < c.nodes@.len() && (#[trigger] c.nodes@[i]).hash@ == h;
            if s == sub {
                assert(is_reported(nodes, c.nodes@[i].hash@));
            } else {
                let (x, k) = choose|x: int, k: int|
                    0 <= x < c.nodes@.len() && 0 <= k < c.links@.len() && (
                    #[trigger] c.nodes@[x]).hash@ == h && #[trigger] c.links@[k] == (
                        c.nodes@[x].id,
                        s,
                    );
                assert(x == i);
                assert(is_linked_elsewhere(c.links@, c.nodes@[i].id, sub));
            }
            assert(!gone.contains(c.nodes@[i].id));
        } else {
            let j = choose|j: int| 0 <= j < nodes.len() && (#[trigger] nodes[j]).hash == h;
            let p = lemma_first_of(nodes, j);
            assert(added.contains(p as usize));
            let k = choose|k: int| 0 <= k < added.len() && added[k] == p as usize;
            assert(nodes[added[k] as int].hash == h);
        }
    }
    if exists|i: int|
        0 <= i < c.nodes@.len() && (#[trigger] c.nodes@[i]).hash@ == h && !gone.contains(
            c.nodes@[i].id,
        ) {
        let i = choose|i: int|
            0 <= i < c.nodes@.len() && (#[trigger] c.nodes@[i]).hash@ == h && !gone.contains(
                c.nodes@[i].id,
            );
        assert(c@.nodes.contains(h));
        if is_reported(nodes, h) {
            assert(after.sources.contains((h, sub)));
        } else {
            let k = choose|k: int|
                0 <= k < c.links@.len() && (#[trigger] c.links@[k]).0 == c.nodes@[i].id
                    && c.links@[k].1 != sub;
            let s = c.links@[k].1;
            assert(c.nodes@[i].hash@ == h && c.links@[k] == (c.nodes@[i].id, s));
            assert(c@.sources.contains((h, s)));
            assert(after.sources.contains((h, s)));
        }
    }
    if exists|k: int| 0 <= k < added.len() && nodes[#[trigger] added[k] as int].hash == h {
        let k = choose|k: int| 0 <= k < added.len() && nodes[#[trigger] added[k] as int].hash == h;
        assert(nodes[added[k] as int].hash == h);
        assert(reported.contains(h));
        assert(after.sources.contains((h, sub)));
    }
}

// ---------------------------------------------------------------------------
// Executable forms
// ---------------------------------------------------------------------------

/// The numbers of the nodes that another subscription has.
fn linked_elsewhere(links: &Vec<(u32, u16)>, sub_id: SubId) -> (r: HashMap<u32, bool>)
    ensures
        forall|id: u32| #[trigger] r@.contains_key(id) == is_linked_elsewhere(links@, id, sub_id),
{
    let mut r: HashMap<u32, bool> = HashMap::new();
    let mut i: usize = 0;
    while i < links.len()
        invariant
            i <= links@.len(),
            forall|id: u32| #[trigger]
                r@.contains_key(id) == is_linked_elsewhere(links@.take(i as int), id, sub_id),
        decreases links@.len() - i,
    {
        let ghost before = r@;
        let (id, sub) = links[i];
        if sub != sub_id {
            r.insert(id, true);
        }
        proof {
            let shorter = links@.take(i as int);
            let longer = links@.take(i + 1);
            assert forall|x: u32| #[trigger] r@.contains_key(x) == is_linked_elsewhere(
                longer,
                x,
                sub_id,
            ) by {
                if is_linked_elsewhere(shorter, x, sub_id) {
                    let k = choose|k: int|
                        0 <= k < shorter.len() && (#[trigger] shorter[k]).0 == x && shorter[k].1
                            != sub_id;
                    assert(longer[k] == shorter[k]);
                }
                if is_linked_elsewhere(longer, x, sub_id) {
                    let k = choose|k: int|
                        0 <= k < longer.len() && (#[trigger] longer[k]).0 == x && longer[k].1
                            != sub_id;
                    if k < i {
                        assert(shorter[k] == longer[k]);
                    }
                }
                if sub != sub_id && x == id {
                    assert(longer[i as int] == (id, sub));
                }
            }
        }
        i += 1;
    }
    assert(links@.take(links@.len() as int) =~= links@);
    r
}

impl Catalog {
    /// What replacing the nodes of a subscription changes.
    pub fn plan_sync(&self, sub_id: SubId, nodes: &Vec<CanonicalNode>) -> (r: SyncPlan)
        requires
            self.wf(),
        ensures
            r.insert@ == fresh(self.nodes@, repository::node_views(nodes@), nodes@.len()),
            r.link@ == targets(self.nodes@, repository::node_views(nodes@), nodes@.len()),
            r.orphans@ == orphan_ids(
                self.nodes@,
                self.links@,
                sub_id,
                repository::node_views(nodes@),
                self.nodes@.len(),
            ),
    {
        let (insert, link) = self.plan_nodes(nodes);
        let orphans = self.plan_orphans(sub_id, nodes);
        SyncPlan { insert, link, orphans }
    }

    fn plan_nodes(&self, nodes: &Vec<CanonicalNode>) -> (r: (Vec<usize>, Vec<LinkTarget>))
        requires
            self.wf(),
        ensures
            r.0@ == fresh(self.nodes@, repository::node_views(nodes@), nodes@.len()),
            r.1@ == targets(self.nodes@, repository::node_views(nodes@), nodes@.len()),
    {
        let ghost views = repository::node_views(nodes@);
        let ghost stored = self.nodes@;
        let index = HashIndex::of(&self.nodes);
        let mut seen = HashIndex::new::<CanonicalNode>();
        let mut insert: Vec<usize> = Vec::new();
        let mut link: Vec<LinkTarget> = Vec::new();
        let mut i: usize = 0;
        while i < nodes.len()
            invariant
                i <= nodes@.len(),
                self.wf(),
                stored == self.nodes@,
                views == repository::node_views(nodes@),
                index.covers(self.nodes@, self.nodes@.len() as int),
                seen.covers(nodes@, i as int),
                insert@ == fresh(stored, views, i as nat),
                link@ == targets(stored, views, i as nat),
            decreases nodes@.len() - i,
        {
            let known = seen.holds(nodes, i, &nodes[i].hash);
            proof {
                if known {
                    let k = choose|k: int|
                        0 <= k < i && (#[trigger] nodes@[k]).digest() == nodes@[i as int].hash@;
                    assert(views[k].hash == views[i as int].hash);
                } else {
                    assert forall|k: int| 0 <= k < i implies (#[trigger] views[k]).hash
                        != views[i as int].hash by {
                        assert(nodes@[k].digest() != nodes@[i as int].hash@);
                    }
                }
            }
            seen.note(nodes, i);
            if !known {
                assert(repository::is_first(views, i as int));
                match index.find(&self.nodes, self.nodes.len(), &nodes[i].hash) {
                    Some(at) => {
                        proof {
                            let h = views[i as int].hash;
                            assert(stored[at as int].hash@ == h);
                            let other = choose|x: int|
                                0 <= x < stored.len() && (#[trigger] stored[x]).hash@ == h;
                            assert(other == at);
                        }
                        link.push(LinkTarget::Stored(self.nodes[at].id));
                    },
                    None => {
                        proof {
                            if is_stored(stored, views[i as int].hash) {
                                let x = choose|x: int|
                                    0 <= x < stored.len() && (#[trigger] stored[x]).hash@
                                        == views[i as int].hash;
                                assert(stored[x].digest() != nodes@[i as int].hash@);
                            }
                        }
                        link.push(LinkTarget::New(i));
                        insert.push(i);
                    },
                }
            }
            i += 1;
        }
        (insert, link)
    }

    fn plan_orphans(&self, sub_id: SubId, nodes: &Vec<CanonicalNode>) -> (r: Vec<u32>)
        ensures
            r@ == orphan_ids(
                self.nodes@,
                self.links@,
                sub_id,
                repository::node_views(nodes@),
                self.nodes@.len(),
            ),
    {
        let ghost views = repository::node_views(nodes@);
        let index = HashIndex::of(nodes);
        let elsewhere = linked_elsewhere(&self.links, sub_id);
        let mut r: Vec<u32> = Vec::new();
        let mut i: usize = 0;
        while i < self.nodes.len()
            invariant
                i <= self.nodes@.len(),
                views == repository::node_views(nodes@),
                index.covers(nodes@, nodes@.len() as int),
                forall|id: u32| #[trigger]
                    elsewhere@.contains_key(id) == is_linked_elsewhere(self.links@, id, sub_id),
                r@ == orphan_ids(self.nodes@, self.links@, sub_id, views, i as nat),
            decreases self.nodes@.len() - i,
        {
            let reported = index.holds(nodes, nodes.len(), &self.nodes[i].hash);
            proof {
                let h = self.nodes@[i as int].hash@;
                if reported {
                    let k = choose|k: int|
                        0 <= k < nodes@.len() && (#[trigger] nodes@[k]).digest() == h;
                    assert(views[k].hash == h);
                }
                if is_reported(views, h) {
                    let k = choose|k: int| 0 <= k < views.len() && (#[trigger] views[k]).hash == h;
                    assert(nodes@[k].digest() == h);
                }
            }
            if !reported && !elsewhere.contains_key(&self.nodes[i].id) {
                r.push(self.nodes[i].id);
            }
            i += 1;
        }
        r
    }
}

impl SyncPlan {
    /// What carrying the plan out changes.
    pub fn result(&self) -> (r: SyncResult)
        ensures
            r == (SyncResult {
                inserted_nodes: self.insert@.len() as usize,
                linked_nodes: self.link@.len() as usize,
                removed_orphans: self.orphans@.len() as usize,
            }),
    {
        SyncResult {
            inserted_nodes: self.insert.len(),
            linked_nodes: self.link.len(),
            removed_orphans: self.orphans.len(),
        }
    }
}

} // verus!
