//! Nodes as parallel columns.
use crate::ir::protocol::ProtocolSpec;
use crate::text;
use std::collections::HashMap;
use vstd::prelude::*;
use vstd::string::*;

verus! {

broadcast use vstd::std_specs::hash::group_hash_axioms;

/// The latency of a node that was not tested.
pub const UNTESTED_LATENCY: u16 = 65535;

/// A compact protocol label suitable for the hot query and rendering path.
#[derive(Clone, Copy, Debug, PartialEq, Eq, Structural)]
pub enum ProtocolKind {
    Vless,
    Vmess,
    Trojan,
    Shadowsocks,
    Hysteria2,
    Tuic,
    WireGuard,
}

impl ProtocolKind {
    pub open spec fn name(self) -> Seq<char> {
        match self {
            ProtocolKind::Vless => "VLESS"@,
            ProtocolKind::Vmess => "VMess"@,
            ProtocolKind::Trojan => "Trojan"@,
            ProtocolKind::Shadowsocks => "SS"@,
            ProtocolKind::Hysteria2 => "HY2"@,
            ProtocolKind::Tuic => "TUIC"@,
            ProtocolKind::WireGuard => "WireGuard"@,
        }
    }

    pub open spec fn number(self) -> u8 {
        match self {
            ProtocolKind::Vless => 0,
            ProtocolKind::Vmess => 1,
            ProtocolKind::Trojan => 2,
            ProtocolKind::Shadowsocks => 3,
            ProtocolKind::Hysteria2 => 4,
            ProtocolKind::Tuic => 5,
            ProtocolKind::WireGuard => 6,
        }
    }

    pub fn label(self) -> (r: &'static str)
        ensures
            r@ == self.name(),
    {
        match self {
            ProtocolKind::Vless => "VLESS",
            ProtocolKind::Vmess => "VMess",
            ProtocolKind::Trojan => "Trojan",
            ProtocolKind::Shadowsocks => "SS",
            ProtocolKind::Hysteria2 => "HY2",
            ProtocolKind::Tuic => "TUIC",
            ProtocolKind::WireGuard => "WireGuard",
        }
    }

    /// The number under which the kind is persisted.
    pub fn discriminant(self) -> (r: u8)
        ensures
            r == self.number(),
    {
        match self {
            ProtocolKind::Vless => 0,
            ProtocolKind::Vmess => 1,
            ProtocolKind::Trojan => 2,
            ProtocolKind::Shadowsocks => 3,
            ProtocolKind::Hysteria2 => 4,
            ProtocolKind::Tuic => 5,
            ProtocolKind::WireGuard => 6,
        }
    }

    /// The kind of a protocol.
    pub fn of(value: &ProtocolSpec) -> (r: ProtocolKind)
        ensures
            r == kind_of(*value),
    {
        match value {
            ProtocolSpec::Vless(_) => ProtocolKind::Vless,
            ProtocolSpec::Vmess(_) => ProtocolKind::Vmess,
            ProtocolSpec::Trojan(_) => ProtocolKind::Trojan,
            ProtocolSpec::Shadowsocks(_) => ProtocolKind::Shadowsocks,
            ProtocolSpec::Hysteria2(_) => ProtocolKind::Hysteria2,
            ProtocolSpec::Tuic(_) => ProtocolKind::Tuic,
            ProtocolSpec::WireGuard(_) => ProtocolKind::WireGuard,
        }
    }
}

pub open spec fn kind_of<T, A>(p: ProtocolSpec<T, A>) -> ProtocolKind {
    match p {
        ProtocolSpec::Vless(_) => ProtocolKind::Vless,
        ProtocolSpec::Vmess(_) => ProtocolKind::Vmess,
        ProtocolSpec::Trojan(_) => ProtocolKind::Trojan,
        ProtocolSpec::Shadowsocks(_) => ProtocolKind::Shadowsocks,
        ProtocolSpec::Hysteria2(_) => ProtocolKind::Hysteria2,
        ProtocolSpec::Tuic(_) => ProtocolKind::Tuic,
        ProtocolSpec::WireGuard(_) => ProtocolKind::WireGuard,
    }
}

impl From<&ProtocolSpec> for ProtocolKind {
    fn from(value: &ProtocolSpec) -> (r: ProtocolKind) {
        ProtocolKind::of(value)
    }
}

impl vstd::std_specs::convert::FromSpecImpl<&ProtocolSpec> for ProtocolKind {
    open spec fn obeys_from_spec() -> bool {
        true
    }

    open spec fn from_spec(value: &ProtocolSpec) -> ProtocolKind {
        kind_of(*value)
    }
}

/// One node with everything that the store holds of it.
#[derive(Clone, Debug)]
pub struct HotNodeRow {
    pub id: u32,
    pub country_code: [u8; 2],
    pub latency_ms: u16,
    pub health_score: u8,
    pub name: String,
    pub protocol: ProtocolKind,
    pub source_sub_ids: Vec<u16>,
}

/// One node as it comes from the database.
#[derive(Clone, Debug)]
pub struct StoredRow {
    pub id: u32,
    pub country_code: String,
    pub name: String,
    pub protocol: ProtocolKind,
    pub latency_ms: u16,
    pub health_score: u8,
}

/// The model of one node in the store.
pub struct RowView {
    pub id: u32,
    pub country_code: [u8; 2],
    pub latency_ms: u16,
    pub health_score: u8,
    pub name: Seq<char>,
    pub protocol: ProtocolKind,
    pub sources: Seq<u16>,
}

/// The nodes as parallel columns. The sources of node `i` are the elements
/// `source_offsets[i]..source_offsets[i + 1]` of `source_sub_ids`.
#[derive(Debug)]
pub struct DenseNodeStore {
    pub node_ids: Vec<u32>,
    pub country_codes: Vec<[u8; 2]>,
    pub latencies_ms: Vec<u16>,
    pub health_scores: Vec<u8>,
    pub protocol_kinds: Vec<ProtocolKind>,
    pub names: Vec<String>,
    pub name_lower: Vec<String>,
    pub source_offsets: Vec<u32>,
    pub source_sub_ids: Vec<u16>,
    pub id_to_index: NodeIndex,
}

/// Positions by identifier.
#[derive(Debug)]
pub struct NodeIndex {
    positions: HashMap<u32, usize>,
}

impl NodeIndex {
    pub closed spec fn map(self) -> Map<u32, usize> {
        self.positions@
    }

    fn new() -> (r: NodeIndex)
        ensures
            r.map() == Map::<u32, usize>::empty(),
    {
        NodeIndex { positions: HashMap::new() }
    }

    fn with_capacity(capacity: usize) -> (r: NodeIndex)
        ensures
            r.map() == Map::<u32, usize>::empty(),
    {
        NodeIndex { positions: HashMap::with_capacity(capacity) }
    }

    fn insert(&mut self, id: u32, position: usize)
        ensures
            final(self).map() == old(self).map().insert(id, position),
    {
        self.positions.insert(id, position);
    }

    fn get(&self, id: u32) -> (r: Option<usize>)
        ensures
            r == (if self.map().contains_key(id) {
                Some(self.map()[id])
            } else {
                None
            }),
    {
        match self.positions.get(&id) {
            Some(position) => Some(*position),
            None => None,
        }
    }
}

// ---------------------------------------------------------------------------
// Model
// ---------------------------------------------------------------------------

/// The last position of an identifier.
pub open spec fn last_position(ids: Seq<u32>, id: u32) -> Option<int>
    decreases ids.len(),
{
    if ids.len() == 0 {
        None
    } else if ids.last() == id {
        Some(ids.len() - 1)
    } else {
        last_position(ids.drop_last(), id)
    }
}

pub open spec fn row_ids(rows: Seq<RowView>) -> Seq<u32> {
    rows.map_values(|r: RowView| r.id)
}

pub open spec fn capped_health(h: u8) -> u8 {
    if h > 100 {
        100
    } else {
        h
    }
}

/// The row for a node that is given whole; its health is at most one hundred.
pub open spec fn hot_row(r: HotNodeRow) -> RowView {
    RowView {
        id: r.id,
        country_code: r.country_code,
        latency_ms: r.latency_ms,
        health_score: capped_health(r.health_score),
        name: r.name@,
        protocol: r.protocol,
        sources: r.source_sub_ids@,
    }
}

/// The number of sources of the first `n` rows.
pub open spec fn source_count(rows: Seq<HotNodeRow>, n: nat) -> nat
    decreases n,
{
    if n == 0 {
        0
    } else {
        source_count(rows, (n - 1) as nat) + rows[n - 1].source_sub_ids@.len()
    }
}

/// A country code from text: two upper-case letters, or `UN`.
pub open spec fn stored_country(s: Seq<u8>) -> [u8; 2] {
    if s.len() == 2 && 65 <= s[0] <= 90 && 65 <= s[1] <= 90 {
        [s[0], s[1]]
    } else {
        [85u8, 78u8]
    }
}

/// The subscriptions that are linked to the node at position `i`.
pub open spec fn linked_sources(links: Seq<(u32, u16)>, ids: Seq<u32>, i: int) -> Seq<u16>
    decreases links.len(),
{
    if links.len() == 0 {
        Seq::empty()
    } else {
        let before = linked_sources(links.drop_last(), ids, i);
        if last_position(ids, links.last().0) == Some(i) {
            before.push(links.last().1)
        } else {
            before
        }
    }
}

pub open spec fn stored_ids(rows: Seq<StoredRow>) -> Seq<u32> {
    rows.map_values(|r: StoredRow| r.id)
}

/// The rows of a database: what is stored of each node and its links.
pub open spec fn hydrated(rows: Seq<StoredRow>, links: Seq<(u32, u16)>) -> Seq<RowView> {
    Seq::new(
        rows.len(),
        |i: int|
            RowView {
                id: rows[i].id,
                country_code: stored_country(vstd::utf8::encode_utf8(rows[i].country_code@)),
                latency_ms: rows[i].latency_ms,
                health_score: rows[i].health_score,
                name: rows[i].name@,
                protocol: rows[i].protocol,
                sources: linked_sources(links, stored_ids(rows), i),
            },
    )
}

/// The rows after a measurement of the node with an identifier.
pub open spec fn measured(
    rows: Seq<RowView>,
    id: u32,
    latency_ms: u16,
    health_score: u8,
) -> Seq<RowView> {
    match last_position(row_ids(rows), id) {
        Some(i) => rows.update(
            i,
            RowView { latency_ms, health_score: capped_health(health_score), ..rows[i] },
        ),
        None => rows,
    }
}

pub proof fn lemma_last_position(ids: Seq<u32>, id: u32)
    ensures
        (match last_position(ids, id) {
            Some(i) => 0 <= i < ids.len() && ids[i] == id && forall|j: int|
                i < j < ids.len() ==> ids[j] != id,
            None => !ids.contains(id),
        }),
    decreases ids.len(),
{
    if ids.len() > 0 && ids.last() != id {
        lemma_last_position(ids.drop_last(), id);
        if let Some(i) = last_position(ids.drop_last(), id) {
            assert forall|j: int| i < j < ids.len() implies ids[j] != id by {
                if j < ids.len() - 1 {
                    assert(ids.drop_last()[j] == ids[j]);
                }
            }
        } else {
            assert forall|i: int| 0 <= i < ids.len() implies ids[i] != id by {
                if i < ids.len() - 1 {
                    assert(ids.drop_last()[i] == ids[i]);
                    assert(ids.drop_last().contains(ids.drop_last()[i]));
                }
            }
        }
    }
}

impl DenseNodeStore {
    /// The columns of the nodes have one length, and the index finds the last
    /// position of each identifier.
    pub open spec fn columns_fit(self) -> bool {
        let n = self.node_ids@.len();
        &&& self.country_codes@.len() == n
        &&& self.latencies_ms@.len() == n
        &&& self.health_scores@.len() == n
        &&& self.protocol_kinds@.len() == n
        &&& self.names@.len() == n
        &&& self.name_lower@.len() == n
        &&& forall|i: int|
            0 <= i < n ==> (#[trigger] self.name_lower@[i])@ == text::lowercase(self.names@[i]@)
        &&& forall|id: u32| #[trigger]
            self.id_to_index.map().contains_key(id) == (last_position(self.node_ids@, id) is Some)
        &&& forall|id: u32| #[trigger]
            self.id_to_index.map().contains_key(id) ==> last_position(self.node_ids@, id) == Some(
                self.id_to_index.map()[id] as int,
            )
    }

    /// The offsets of the first `n` nodes cut the list of sources into their
    /// parts.
    pub open spec fn offsets_fit(self, n: nat) -> bool {
        &&& self.source_offsets@.len() == n + 1
        &&& self.source_offsets@[0] == 0
        &&& self.source_offsets@[n as int] == self.source_sub_ids@.len()
        &&& forall|i: int, j: int|
            0 <= i <= j <= n ==> #[trigger] self.source_offsets@[i]
                <= #[trigger] self.source_offsets@[j]
    }

    /// The store is well formed.
    pub open spec fn wf(self) -> bool {
        &&& self.columns_fit()
        &&& (self.offsets_fit(self.node_ids@.len()) || (self.node_ids@.len() == 0
            && self.source_offsets@.len() == 0 && self.source_sub_ids@.len() == 0))
    }

    /// The row at a position.
    pub open spec fn row(self, i: int) -> RowView {
        RowView {
            id: self.node_ids@[i],
            country_code: self.country_codes@[i],
            latency_ms: self.latencies_ms@[i],
            health_score: self.health_scores@[i],
            name: self.names@[i]@,
            protocol: self.protocol_kinds@[i],
            sources: self.source_sub_ids@.subrange(
                self.source_offsets@[i] as int,
                self.source_offsets@[i + 1] as int,
            ),
        }
    }

    /// What a well-formed store says of its columns.
    pub proof fn lemma_columns(self)
        requires
            self.wf(),
        ensures
            self@.len() == self.node_ids@.len(),
            self.country_codes@.len() == self.node_ids@.len(),
            self.latencies_ms@.len() == self.node_ids@.len(),
            self.health_scores@.len() == self.node_ids@.len(),
            self.protocol_kinds@.len() == self.node_ids@.len(),
            self.names@.len() == self.node_ids@.len(),
            self.name_lower@.len() == self.node_ids@.len(),
            forall|i: int|
                0 <= i < self.node_ids@.len() ==> (#[trigger] self.name_lower@[i])@
                    == text::lowercase(self.names@[i]@),
    {
    }
}

impl View for DenseNodeStore {
    type V = Seq<RowView>;

    open spec fn view(&self) -> Seq<RowView> {
        Seq::new(self.node_ids@.len(), |i: int| self.row(i))
    }
}

// ---------------------------------------------------------------------------
// Executable forms
// ---------------------------------------------------------------------------

impl Default for DenseNodeStore {
    fn default() -> (r: DenseNodeStore)
        ensures
            r.wf(),
            r@.len() == 0,
            r.source_offsets@.len() == 0,
            r.source_sub_ids@.len() == 0,
    {
        DenseNodeStore {
            node_ids: Vec::new(),
            country_codes: Vec::new(),
            latencies_ms: Vec::new(),
            health_scores: Vec::new(),
            protocol_kinds: Vec::new(),
            names: Vec::new(),
            name_lower: Vec::new(),
            source_offsets: Vec::new(),
            source_sub_ids: Vec::new(),
            id_to_index: NodeIndex::new(),
        }
    }
}

impl DenseNodeStore {
    /// An empty store with room for nodes.
    pub fn with_capacity(capacity: usize) -> (r: DenseNodeStore)
        requires
            capacity < usize::MAX,
        ensures
            r.wf(),
            r@.len() == 0,
            r.source_offsets@.len() == 0,
            r.source_sub_ids@.len() == 0,
    {
        DenseNodeStore {
            node_ids: Vec::with_capacity(capacity),
            country_codes: Vec::with_capacity(capacity),
            latencies_ms: Vec::with_capacity(capacity),
            health_scores: Vec::with_capacity(capacity),
            protocol_kinds: Vec::with_capacity(capacity),
            names: Vec::with_capacity(capacity),
            name_lower: Vec::with_capacity(capacity),
            source_offsets: Vec::with_capacity(capacity + 1),
            source_sub_ids: Vec::with_capacity(capacity),
            id_to_index: NodeIndex::with_capacity(capacity),
        }
    }

    /// Appends a node to all columns but those of the sources.
    fn push_columns(
        &mut self,
        id: u32,
        country_code: [u8; 2],
        latency_ms: u16,
        health_score: u8,
        protocol: ProtocolKind,
        name: String,
    )
        requires
            old(self).columns_fit(),
        ensures
            final(self).columns_fit(),
            final(self).node_ids@ == old(self).node_ids@.push(id),
            final(self).country_codes@ == old(self).country_codes@.push(country_code),
            final(self).latencies_ms@ == old(self).latencies_ms@.push(latency_ms),
            final(self).health_scores@ == old(self).health_scores@.push(health_score),
            final(self).protocol_kinds@ == old(self).protocol_kinds@.push(protocol),
            final(self).names@ == old(self).names@.push(name),
            final(self).source_offsets == old(self).source_offsets,
            final(self).source_sub_ids == old(self).source_sub_ids,
    {
        let ghost before = *self;
        let index: usize = self.node_ids.len();
        self.node_ids.push(id);
        self.country_codes.push(country_code);
        self.latencies_ms.push(latency_ms);
        self.health_scores.push(health_score);
        self.protocol_kinds.push(protocol);
        self.name_lower.push(text::to_lowercase(name.as_str()));
        self.names.push(name);
        self.id_to_index.insert(id, index);
        proof {
            assert(self.node_ids@.drop_last() =~= before.node_ids@);
            assert forall|k: u32| true implies #[trigger] self.id_to_index.map().contains_key(k) == (
            last_position(self.node_ids@, k) is Some) && (self.id_to_index.map().contains_key(k)
                ==> last_position(self.node_ids@, k) == Some(self.id_to_index.map()[k] as int)) by {
                assert(before.id_to_index.map().contains_key(k) == (last_position(
                    before.node_ids@,
                    k,
                ) is Some));
            }
        }
    }

    /// Builds a store from whole rows.
    pub fn from_hot_rows(rows: Vec<HotNodeRow>) -> (r: DenseNodeStore)
        requires
            source_count(rows@, rows@.len()) <= u32::MAX,
            rows@.len() < usize::MAX,
        ensures
            r.wf(),
            r.offsets_fit(rows@.len()),
            r@ == rows@.map_values(|row: HotNodeRow| hot_row(row)),
    {
        let mut store = DenseNodeStore::with_capacity(rows.len());
        store.source_offsets.push(0);
        let ghost want = rows@.map_values(|row: HotNodeRow| hot_row(row));
        let mut i: usize = 0;
        assert(store@ =~= want.take(0));
        while i < rows.len()
            invariant
                i <= rows@.len(),
                want == rows@.map_values(|row: HotNodeRow| hot_row(row)),
                source_count(rows@, rows@.len()) <= u32::MAX,
                store.node_ids@.len() == i,
                store.columns_fit(),
                store.offsets_fit(i as nat),
                store.source_sub_ids@.len() == source_count(rows@, i as nat),
                store@ == want.take(i as int),
            decreases rows@.len() - i,
        {
            let ghost before = store;
            let row = &rows[i];
            proof {
                lemma_source_count(rows@, (i + 1) as nat, rows@.len());
            }
            let health: u8 = if row.health_score > 100 {
                100
            } else {
                row.health_score
            };
            store.push_columns(
                row.id,
                row.country_code,
                row.latency_ms,
                health,
                row.protocol,
                row.name.clone(),
            );
            let ghost middle = store;
            let mut k: usize = 0;
            while k < row.source_sub_ids.len()
                invariant
                    k <= row.source_sub_ids@.len(),
                    store.columns_fit(),
                    store.node_ids == middle.node_ids,
                    store.country_codes == middle.country_codes,
                    store.latencies_ms == middle.latencies_ms,
                    store.health_scores == middle.health_scores,
                    store.protocol_kinds == middle.protocol_kinds,
                    store.names == middle.names,
                    store.source_offsets == middle.source_offsets,
                    store.source_sub_ids@ == middle.source_sub_ids@
                        + row.source_sub_ids@.take(k as int),
                decreases row.source_sub_ids@.len() - k,
            {
                store.source_sub_ids.push(row.source_sub_ids[k]);
                assert(store.source_sub_ids@ =~= middle.source_sub_ids@
                    + row.source_sub_ids@.take(k + 1));
                k += 1;
            }
            assert(row.source_sub_ids@.take(row.source_sub_ids@.len() as int)
                =~= row.source_sub_ids@);
            store.source_offsets.push(store.source_sub_ids.len() as u32);
            proof {
                assert forall|j: int| 0 <= j < i implies #[trigger] store.row(j) == before.row(j) by {
                    assert(before.source_offsets@[j + 1] <= before.source_offsets@[i as int]);
                    assert(store.row(j).sources =~= before.row(j).sources);
                }
                assert(store.row(i as int).sources =~= row.source_sub_ids@);
                assert forall|j: int| 0 <= j < i + 1 implies #[trigger] store@[j] == want[j] by {
                    if j < i {
                        assert(before@[j] == want.take(i as int)[j]);
                        assert(store.row(j) == before.row(j));
                    }
                }
                assert(store@ =~= want.take(i + 1));
            }
            i += 1;
        }
        assert(want.take(want.len() as int) =~= want);
        store
    }

    /// Builds a store from the rows of the database and the links between nodes
    /// and subscriptions.
    pub fn hydrate(rows: &Vec<StoredRow>, links: &Vec<(u32, u16)>) -> (r: DenseNodeStore)
        requires
            links@.len() <= u32::MAX,
        ensures
            r.wf(),
            r.offsets_fit(rows@.len()),
            r@ == hydrated(rows@, links@),
    {
        let mut store = DenseNodeStore::with_capacity(50000);
        let ghost want = hydrated(rows@, links@);
        let ghost ids = stored_ids(rows@);
        let mut i: usize = 0;
        while i < rows.len()
            invariant
                i <= rows@.len(),
                ids == stored_ids(rows@),
                want == hydrated(rows@, links@),
                store.node_ids@ == ids.take(i as int),
                store.columns_fit(),
                store.source_offsets@.len() == 0,
                store.source_sub_ids@.len() == 0,
                forall|j: int|
                    0 <= j < i ==> store.country_codes@[j] == (#[trigger] want[j]).country_code
                        && store.latencies_ms@[j] == want[j].latency_ms && store.health_scores@[j]
                        == want[j].health_score && store.protocol_kinds@[j] == want[j].protocol
                        && store.names@[j]@ == want[j].name,
            decreases rows@.len() - i,
        {
            let row = &rows[i];
            store.push_columns(
                row.id,
                country_code(row.country_code.as_str().as_bytes()),
                row.latency_ms,
                row.health_score,
                row.protocol,
                row.name.clone(),
            );
            assert(store.node_ids@ =~= ids.take(i + 1));
            i += 1;
        }
        assert(ids.take(ids.len() as int) =~= ids);
        let total: usize = store.node_ids.len();
        let mut sources: Vec<Vec<u16>> = Vec::new();
        while sources.len() < total
            invariant
                sources@.len() <= total,
                forall|j: int| 0 <= j < sources@.len() ==> (#[trigger] sources@[j])@.len() == 0,
            decreases total - sources@.len(),
        {
            sources.push(Vec::new());
        }
        let mut k: usize = 0;
        proof {
            assert forall|j: int| 0 <= j < sources@.len() implies (#[trigger] sources@[j])@
                == linked_sources(links@.take(0), ids, j) by {
                assert(sources@[j]@ =~= Seq::<u16>::empty());
            }
        }
        while k < links.len()
            invariant
                k <= links@.len(),
                sources@.len() == total,
                total == ids.len(),
                store.node_ids@ == ids,
                store.columns_fit(),
                forall|j: int|
                    0 <= j < total ==> (#[trigger] sources@[j])@ == linked_sources(
                        links@.take(k as int),
                        ids,
                        j,
                    ),
            decreases links@.len() - k,
        {
            let (node_id, sub_id) = links[k];
            let ghost before = sources@;
            proof {
                assert(links@.take(k + 1).drop_last() =~= links@.take(k as int));
                assert(links@.take(k + 1).last() == links@[k as int]);
                lemma_last_position(ids, node_id);
            }
            match store.id_to_index.get(node_id) {
                Some(index) => {
                    assert(store.id_to_index.map().contains_key(node_id));
                    let mut list: Vec<u16> = Vec::new();
                    std::mem::swap(&mut list, &mut sources[index]);
                    list.push(sub_id);
                    sources.set(index, list);
                    assert forall|j: int| 0 <= j < total implies (#[trigger] sources@[j])@
                        == linked_sources(links@.take(k + 1), ids, j) by {
                        assert(before[j]@ == linked_sources(links@.take(k as int), ids, j));
                    }
                },
                None => {
                    assert(!store.id_to_index.map().contains_key(node_id));
                    assert forall|j: int| 0 <= j < total implies (#[trigger] sources@[j])@
                        == linked_sources(links@.take(k + 1), ids, j) by {
                        assert(before[j]@ == linked_sources(links@.take(k as int), ids, j));
                    }
                },
            }
            k += 1;
        }
        assert(links@.take(links@.len() as int) =~= links@);
        store.source_offsets.push(0);
        let mut m: usize = 0;
        let ghost columns = store;
        while m < total
            invariant
                m <= total,
                total == sources@.len(),
                total == ids.len(),
                links@.len() <= u32::MAX,
                store.columns_fit(),
                store.node_ids == columns.node_ids,
                columns.node_ids@ == ids,
                store.country_codes == columns.country_codes,
                store.latencies_ms == columns.latencies_ms,
                store.health_scores == columns.health_scores,
                store.protocol_kinds == columns.protocol_kinds,
                store.names == columns.names,
                store.offsets_fit(m as nat),
                store.source_sub_ids@.len() <= link_count(links@, ids, m as int),
                forall|j: int|
                    m <= j < total ==> (#[trigger] sources@[j])@ == linked_sources(links@, ids, j),
                forall|j: int|
                    0 <= j < m ==> #[trigger] store.row(j).sources == linked_sources(
                        links@,
                        ids,
                        j,
                    ),
            decreases total - m,
        {
            let ghost before = store;
            let ghost list = sources@[m as int]@;
            let mut part: Vec<u16> = Vec::new();
            std::mem::swap(&mut part, &mut sources[m]);
            assert(part@ == list);
            proof {
                lemma_link_count(links@, ids, m as int);
            }
            store.source_sub_ids.append(&mut part);
            store.source_offsets.push(store.source_sub_ids.len() as u32);
            proof {
                assert forall|j: int| 0 <= j < m implies #[trigger] store.row(j).sources
                    == before.row(j).sources by {
                    assert(before.source_offsets@[j + 1] <= before.source_offsets@[m as int]);
                    assert(store.row(j).sources =~= before.row(j).sources);
                }
                assert(store.row(m as int).sources =~= list);
                assert forall|j: int| 0 <= j < m + 1 implies #[trigger] store.row(j).sources
                    == linked_sources(links@, ids, j) by {
                    if j < m {
                        assert(before.row(j).sources == linked_sources(links@, ids, j));
                    }
                }
            }
            m += 1;
        }
        proof {
            assert forall|j: int| 0 <= j < want.len() implies store@[j] == #[trigger] want[j] by {
                assert(store.row(j).sources == linked_sources(links@, ids, j));
            }
            assert(store@ =~= want);
        }
        store
    }

    pub fn len(&self) -> (r: usize)
        ensures
            r == self@.len(),
    {
        self.node_ids.len()
    }

    pub fn is_empty(&self) -> (r: bool)
        ensures
            r == (self@.len() == 0),
    {
        self.node_ids.len() == 0
    }

    /// The position of the node with an identifier.
    pub fn index_of(&self, node_id: u32) -> (r: Option<usize>)
        requires
            self.wf(),
        ensures
            (match r {
                Some(i) => last_position(row_ids(self@), node_id) == Some(i as int) && i
                    < self@.len(),
                None => last_position(row_ids(self@), node_id) is None,
            }),
    {
        proof {
            assert(row_ids(self@) =~= self.node_ids@);
            lemma_last_position(self.node_ids@, node_id);
        }
        match self.id_to_index.get(node_id) {
            Some(index) => {
                assert(self.id_to_index.map().contains_key(node_id));
                Some(index)
            },
            None => {
                assert(!self.id_to_index.map().contains_key(node_id));
                None
            },
        }
    }

    /// Records a measurement of a node; other nodes and unknown identifiers
    /// change nothing.
    pub fn update_metrics(&mut self, node_id: u32, latency_ms: u16, health_score: u8)
        requires
            old(self).wf(),
        ensures
            final(self).wf(),
            final(self)@ == measured(old(self)@, node_id, latency_ms, health_score),
            final(self).source_offsets == old(self).source_offsets,
            final(self).source_sub_ids == old(self).source_sub_ids,
    {
        let ghost before = *self;
        match self.index_of(node_id) {
            Some(index) => {
                self.latencies_ms.set(index, latency_ms);
                self.health_scores.set(
                    index,
                    if health_score > 100 {
                        100
                    } else {
                        health_score
                    },
                );
                proof {
                    let want = measured(before@, node_id, latency_ms, health_score);
                    assert forall|j: int| 0 <= j < want.len() implies self@[j] == want[j] by {
                        if j != index {
                            assert(self.row(j) == before.row(j));
                        }
                    }
                    assert(self@ =~= want);
                }
            },
            None => {},
        }
    }

    /// Whether a node comes from a subscription.
    pub fn has_source(&self, index: usize, sub_id: u16) -> (r: bool)
        requires
            self.wf(),
            index < self@.len(),
        ensures
            r == self@[index as int].sources.contains(sub_id),
    {
        let ghost part = self@[index as int].sources;
        assert(self.source_offsets@[index as int] <= self.source_offsets@[index + 1]);
        assert(self.source_offsets@[index + 1]
            <= self.source_offsets@[self.node_ids@.len() as int]);
        let total: usize = self.node_ids.len();
        assert(index < total);
        let start: usize = self.source_offsets[index] as usize;
        let end: usize = self.source_offsets[index + 1] as usize;
        let mut i: usize = start;
        while i < end
            invariant
                start <= i <= end <= self.source_sub_ids@.len(),
                part == self.source_sub_ids@.subrange(start as int, end as int),
                part == self@[index as int].sources,
                forall|k: int| 0 <= k < i - start ==> part[k] != sub_id,
            decreases end - i,
        {
            assert(part[i - start] == self.source_sub_ids@[i as int]);
            if self.source_sub_ids[i] == sub_id {
                assert(part.contains(part[i - start]));
                return true;
            }
            i += 1;
        }
        false
    }

    /// A copy of the store.
    pub fn copy(&self) -> (r: DenseNodeStore)
        requires
            self.wf(),
        ensures
            r.wf(),
            r@ == self@,
            r.source_offsets@ == self.source_offsets@,
            r.source_sub_ids@ == self.source_sub_ids@,
    {
        let mut id_to_index = NodeIndex::new();
        let mut i: usize = 0;
        while i < self.node_ids.len()
            invariant
                i <= self.node_ids@.len(),
                forall|id: u32| #[trigger]
                    id_to_index.map().contains_key(id) == (last_position(
                        self.node_ids@.take(i as int),
                        id,
                    ) is Some),
                forall|id: u32| #[trigger]
                    id_to_index.map().contains_key(id) ==> last_position(
                        self.node_ids@.take(i as int),
                        id,
                    ) == Some(id_to_index.map()[id] as int),
            decreases self.node_ids@.len() - i,
        {
            let ghost before = id_to_index.map();
            let id = self.node_ids[i];
            id_to_index.insert(id, i);
            proof {
                assert(self.node_ids@.take(i + 1).drop_last() =~= self.node_ids@.take(i as int));
                assert forall|k: u32| true implies #[trigger] id_to_index.map().contains_key(k) == (
                last_position(self.node_ids@.take(i + 1), k) is Some) && (id_to_index.map().contains_key(
                    k,
                ) ==> last_position(self.node_ids@.take(i + 1), k) == Some(
                    id_to_index.map()[k] as int,
                )) by {
                    assert(before.contains_key(k) == (last_position(
                        self.node_ids@.take(i as int),
                        k,
                    ) is Some));
                }
            }
            i += 1;
        }
        assert(self.node_ids@.take(self.node_ids@.len() as int) =~= self.node_ids@);
        let r = DenseNodeStore {
            node_ids: self.node_ids.clone(),
            country_codes: copy_codes(&self.country_codes),
            latencies_ms: self.latencies_ms.clone(),
            health_scores: self.health_scores.clone(),
            protocol_kinds: self.protocol_kinds.clone(),
            names: text::copy_texts(&self.names),
            name_lower: text::copy_texts(&self.name_lower),
            source_offsets: self.source_offsets.clone(),
            source_sub_ids: self.source_sub_ids.clone(),
            id_to_index,
        };
        proof {
            assert(r.node_ids@ =~= self.node_ids@);
            assert(r.latencies_ms@ =~= self.latencies_ms@);
            assert(r.health_scores@ =~= self.health_scores@);
            assert(r.protocol_kinds@ =~= self.protocol_kinds@);
            assert(r.source_offsets@ =~= self.source_offsets@);
            assert(r.source_sub_ids@ =~= self.source_sub_ids@);
            assert(text::texts_of(r.names@).len() == text::texts_of(self.names@).len());
            assert(text::texts_of(r.name_lower@).len() == text::texts_of(self.name_lower@).len());
            assert forall|j: int| 0 <= j < self.names@.len() implies (#[trigger] r.name_lower@[j])@
                == text::lowercase(r.names@[j]@) && r.names@[j]@ == self.names@[j]@ by {
                assert(text::texts_of(r.names@)[j] == text::texts_of(self.names@)[j]);
                assert(text::texts_of(r.name_lower@)[j] == text::texts_of(self.name_lower@)[j]);
                assert(self.name_lower@[j]@ == text::lowercase(self.names@[j]@));
            }
            assert forall|j: int| 0 <= j < self@.len() implies r@[j] == self@[j] by {
                assert(r.name_lower@[j]@ == text::lowercase(r.names@[j]@));
            }
            assert(r@ =~= self@);
        }
        r
    }
}

/// The measurements of the nodes of a store, position by position.
#[derive(Clone, Debug, PartialEq, Eq)]
pub struct MetricsArena {
    pub latencies_ms: Vec<u16>,
    pub health_scores: Vec<u8>,
}

impl MetricsArena {
    /// The measurements that a store holds.
    pub fn from_store(store: &DenseNodeStore) -> (r: MetricsArena)
        ensures
            r.latencies_ms@ == store.latencies_ms@,
            r.health_scores@ == store.health_scores@,
    {
        let latencies_ms = store.latencies_ms.clone();
        let health_scores = store.health_scores.clone();
        assert(latencies_ms@ =~= store.latencies_ms@);
        assert(health_scores@ =~= store.health_scores@);
        MetricsArena { latencies_ms, health_scores }
    }

    /// Records a measurement at a position; positions out of range change
    /// nothing.
    pub fn apply_update(&mut self, index: usize, latency_ms: u16, health_score: u8)
        ensures
            final(self).latencies_ms@ == (if index < old(self).latencies_ms@.len() {
                old(self).latencies_ms@.update(index as int, latency_ms)
            } else {
                old(self).latencies_ms@
            }),
            final(self).health_scores@ == (if index < old(self).health_scores@.len() {
                old(self).health_scores@.update(index as int, capped_health(health_score))
            } else {
                old(self).health_scores@
            }),
    {
        if index < self.latencies_ms.len() {
            self.latencies_ms.set(index, latency_ms);
        }
        if index < self.health_scores.len() {
            self.health_scores.set(
                index,
                if health_score > 100 {
                    100
                } else {
                    health_score
                },
            );
        }
    }
}

fn copy_codes(codes: &Vec<[u8; 2]>) -> (r: Vec<[u8; 2]>)
    ensures
        r@ == codes@,
{
    let mut r: Vec<[u8; 2]> = Vec::new();
    let mut i: usize = 0;
    while i < codes.len()
        invariant
            i <= codes@.len(),
            r@ == codes@.take(i as int),
        decreases codes@.len() - i,
    {
        r.push(codes[i]);
        assert(r@ =~= codes@.take(i + 1));
        i += 1;
    }
    assert(r@ =~= codes@);
    r
}

proof fn lemma_source_count(rows: Seq<HotNodeRow>, i: nat, n: nat)
    requires
        i <= n,
    ensures
        source_count(rows, i) <= source_count(rows, n),
    decreases n,
{
    if i < n {
        lemma_source_count(rows, i, (n - 1) as nat);
    }
}

/// The number of links that belong to one of the first `n` positions.
spec fn link_count(links: Seq<(u32, u16)>, ids: Seq<u32>, n: int) -> nat
    decreases links.len(),
{
    if links.len() == 0 {
        0
    } else {
        let before = link_count(links.drop_last(), ids, n);
        match last_position(ids, links.last().0) {
            Some(i) if i < n => before + 1,
            _ => before,
        }
    }
}

proof fn lemma_link_count(links: Seq<(u32, u16)>, ids: Seq<u32>, m: int)
    ensures
        link_count(links, ids, m) + linked_sources(links, ids, m).len() == link_count(
            links,
            ids,
            m + 1,
        ),
        link_count(links, ids, m + 1) <= links.len(),
    decreases links.len(),
{
    if links.len() > 0 {
        lemma_link_count(links.drop_last(), ids, m);
    }
}

/// A country code from text.
pub fn country_code(bytes: &[u8]) -> (r: [u8; 2])
    ensures
        r == stored_country(bytes@),
{
    if bytes.len() == 2 {
        let a: u8 = bytes[0];
        let b: u8 = bytes[1];
        if a >= 65 && a <= 90 && b >= 65 && b <= 90 {
            return [a, b];
        }
    }
    [85, 78]
}

} // verus!
