//! The list of nodes behind the window: rows by position and by identifier.
use crate::gui::view_state::{ChoiceView, ViewState};
use crate::storage::query_engine;
use crate::storage::soa_store::{DenseNodeStore, MetricsArena, RowView, UNTESTED_LATENCY};
use crate::text;
use std::collections::HashMap;
use std::sync::Arc;
use vstd::prelude::*;
use vstd::string::*;

verus! {

broadcast use vstd::std_specs::hash::group_hash_axioms;

/// With more changed rows than this the whole list is redrawn.
pub const POINT_UPDATE_LIMIT: usize = 2048;

/// A store and the positions of its nodes to see.
pub struct Projection {
    pub store: Arc<DenseNodeStore>,
    pub indices: Vec<u32>,
}

/// What has to be redrawn.
#[derive(Clone, Debug, PartialEq, Eq)]
pub enum RowNotice {
    Everything,
    Rows(Vec<usize>),
}

/// What became of a completed projection.
#[derive(Clone, Copy, Debug, PartialEq, Eq, Structural)]
pub enum Applied {
    /// There was none.
    Nothing,
    /// It was made from a store that is no longer served; another is needed.
    Stale,
    /// It is shown now.
    Installed,
}

/// A colour.
#[derive(Clone, Copy, Debug, PartialEq, Eq, Structural)]
pub struct Color {
    pub red: u8,
    pub green: u8,
    pub blue: u8,
}

/// A row as it is drawn. `T` and `G` are texts.
#[derive(Clone, Debug, PartialEq, Eq)]
pub struct NodeRowData<T = String, G = &'static str> {
    pub id: u32,
    pub name: T,
    pub country: T,
    pub protocol: G,
    pub latency_text: T,
    pub latency_color: Color,
    pub is_active: bool,
}

/// The model of a row.
pub type RowDataView = NodeRowData<Seq<char>, Seq<char>>;

impl View for NodeRowData {
    type V = NodeRowData<Seq<char>, Seq<char>>;

    open spec fn view(&self) -> NodeRowData<Seq<char>, Seq<char>> {
        NodeRowData {
            id: self.id,
            name: self.name@,
            country: self.country@,
            protocol: self.protocol@,
            latency_text: self.latency_text@,
            latency_color: self.latency_color,
            is_active: self.is_active,
        }
    }
}

/// The list: what it shows, where each node stands in it, and which node is
/// selected.
pub struct VirtualNodeModel {
    pub projection: Projection,
    pub reverse: HashMap<u32, usize>,
    pub active_node_id: Option<u32>,
    pub active_name: String,
    pub desired_view: ViewState,
}

// ---------------------------------------------------------------------------
// Model
// ---------------------------------------------------------------------------

/// The row of each identifier among the first `n` rows. Positions outside of the
/// store have none.
pub open spec fn rows_by_id(rows: Seq<RowView>, indices: Seq<u32>, n: nat) -> Map<u32, usize>
    decreases n,
{
    if n == 0 {
        Map::empty()
    } else {
        let before = rows_by_id(rows, indices, (n - 1) as nat);
        if indices[n - 1] < rows.len() {
            before.insert(rows[indices[n - 1] as int].id, (n - 1) as usize)
        } else {
            before
        }
    }
}

/// The rows of the identifiers that are shown, in the order of the identifiers.
pub open spec fn shown_rows(by_id: Map<u32, usize>, ids: Seq<u32>) -> Seq<usize>
    decreases ids.len(),
{
    if ids.len() == 0 {
        Seq::empty()
    } else {
        let before = shown_rows(by_id, ids.drop_last());
        if by_id.contains_key(ids.last()) {
            before.push(by_id[ids.last()])
        } else {
            before
        }
    }
}

/// The name of the first shown node with an identifier, from a row on.
pub open spec fn name_from(rows: Seq<RowView>, indices: Seq<u32>, id: u32, i: int) -> Seq<char>
    decreases indices.len() - i,
{
    if i < 0 || i >= indices.len() {
        "No node selected"@
    } else if indices[i] < rows.len() && rows[indices[i] as int].id == id {
        rows[indices[i] as int].name
    } else {
        name_from(rows, indices, id, i + 1)
    }
}

/// The text of a latency.
pub open spec fn latency_text(latency: u16) -> Seq<char> {
    if latency == UNTESTED_LATENCY {
        "\u{2014}"@
    } else {
        text::decimal(latency as nat) + " ms"@
    }
}

/// The colour of a latency: grey, green, amber or red.
pub open spec fn latency_color(latency: u16) -> Color {
    if latency == UNTESTED_LATENCY {
        Color { red: 113, green: 113, blue: 122 }
    } else if latency < 150 {
        Color { red: 70, green: 167, blue: 88 }
    } else if latency < 350 {
        Color { red: 245, green: 166, blue: 35 }
    } else {
        Color { red: 229, green: 72, blue: 77 }
    }
}

/// The text of a country code.
pub open spec fn country_text(code: Seq<u8>) -> Seq<char> {
    if vstd::utf8::valid_utf8(code) {
        vstd::utf8::decode_utf8(code)
    } else {
        "UN"@
    }
}

/// A row as it is drawn.
pub open spec fn drawn(r: RowView, latency: u16, active: Option<u32>) -> RowDataView {
    NodeRowData {
        id: r.id,
        name: r.name,
        country: country_text(r.country_code@),
        protocol: r.protocol.name(),
        latency_text: latency_text(latency),
        latency_color: latency_color(latency),
        is_active: active == Some(r.id),
    }
}

impl VirtualNodeModel {
    pub open spec fn rows(self) -> Seq<RowView> {
        self.projection.store@
    }

    pub open spec fn indices(self) -> Seq<u32> {
        self.projection.indices@
    }

    /// The store is well formed, and the rows by identifier are those of the list.
    pub open spec fn wf(self) -> bool {
        &&& self.projection.store.wf()
        &&& self.reverse@ == rows_by_id(self.rows(), self.indices(), self.indices().len())
    }
}

// ---------------------------------------------------------------------------
// Laws
// ---------------------------------------------------------------------------

/// The way back: where identifiers differ and no node is listed twice, the row of
/// an identifier is the row at which its node stands.
pub proof fn law_rows_lead_back(rows: Seq<RowView>, indices: Seq<u32>, n: nat, row: int)
    requires
        n <= indices.len() <= usize::MAX,
        0 <= row < n,
        indices[row] < rows.len(),
        forall|i: int, j: int|
            0 <= i < j < indices.len() ==> (#[trigger] indices[i]) != (#[trigger] indices[j]),
        forall|i: int, j: int|
            0 <= i < j < rows.len() ==> (#[trigger] rows[i]).id != (#[trigger] rows[j]).id,
    ensures
        rows_by_id(rows, indices, n).contains_key(rows[indices[row] as int].id),
        rows_by_id(rows, indices, n)[rows[indices[row] as int].id] == row,
    decreases n,
{
    if row < n - 1 {
        law_rows_lead_back(rows, indices, (n - 1) as nat, row);
        if indices[n - 1] < rows.len() {
            assert(indices[row] != indices[n - 1]);
            assert(rows[indices[row] as int].id != rows[indices[n - 1] as int].id);
        }
    }
}

// ---------------------------------------------------------------------------
// Executable forms
// ---------------------------------------------------------------------------

fn reverse_of(store: &DenseNodeStore, indices: &Vec<u32>) -> (r: HashMap<u32, usize>)
    requires
        store.wf(),
    ensures
        r@ == rows_by_id(store@, indices@, indices@.len()),
{
    proof {
        store.lemma_columns();
    }
    let mut r: HashMap<u32, usize> = HashMap::new();
    let mut row: usize = 0;
    while row < indices.len()
        invariant
            row <= indices@.len(),
            store.wf(),
            store@.len() == store.node_ids@.len(),
            r@ == rows_by_id(store@, indices@, row as nat),
        decreases indices@.len() - row,
    {
        let index: usize = indices[row] as usize;
        if index < store.len() {
            r.insert(store.node_ids[index], row);
        }
        row += 1;
    }
    r
}

impl VirtualNodeModel {
    /// A list that shows what the view chooses of a store.
    pub fn new(store: Arc<DenseNodeStore>, metrics: &MetricsArena, state: &ViewState) -> (r:
        VirtualNodeModel)
        requires
            store.wf(),
            store@.len() <= 0x1_0000_0000,
        ensures
            r.wf(),
            r.rows() == store@,
            query_engine::is_projection(
                r.indices(),
                store@,
                metrics.latencies_ms@,
                metrics.health_scores@,
                state@.search_text,
                state@.country_filter,
                state@.subscription_filter,
                state@.sort,
            ),
            r.active_node_id is None,
            r.active_name@ == "No node selected"@,
            r.desired_view@ == state@,
    {
        let indices = state.projection(&store, metrics);
        let reverse = reverse_of(&store, &indices);
        VirtualNodeModel {
            projection: Projection { store, indices },
            reverse,
            active_node_id: None,
            active_name: "No node selected".to_owned(),
            desired_view: state.copy(),
        }
    }

    /// Keeps the view that is to be shown next.
    pub fn refresh(&mut self, state: &ViewState)
        requires
            old(self).wf(),
        ensures
            final(self).wf(),
            final(self).rows() == old(self).rows(),
            final(self).indices() == old(self).indices(),
            final(self).active_node_id == old(self).active_node_id,
            final(self).active_name@ == old(self).active_name@,
            final(self).desired_view@ == state@,
    {
        self.desired_view = state.copy();
    }

    /// Shows a completed projection, unless the store that it was made from is no
    /// longer served.
    pub fn apply_completed_projection(
        &mut self,
        completed: Option<Projection>,
        is_current: bool,
    ) -> (r: Applied)
        requires
            old(self).wf(),
            completed matches Some(p) ==> p.store.wf(),
        ensures
            final(self).wf(),
            final(self).active_node_id == old(self).active_node_id,
            final(self).active_name@ == old(self).active_name@,
            final(self).desired_view@ == old(self).desired_view@,
            (match completed {
                None => r == Applied::Nothing,
                Some(_) => r == (if is_current {
                    Applied::Installed
                } else {
                    Applied::Stale
                }),
            }),
            r == Applied::Installed ==> final(self).rows() == completed->0.store@ && final(
                self).indices() == completed->0.indices@,
            r != Applied::Installed ==> final(self).rows() == old(self).rows() && final(
                self).indices() == old(self).indices(),
    {
        match completed {
            None => Applied::Nothing,
            Some(projection) => {
                if !is_current {
                    return Applied::Stale;
                }
                self.reverse = reverse_of(&projection.store, &projection.indices);
                self.projection = projection;
                Applied::Installed
            },
        }
    }

    /// What has to be redrawn after measurements of nodes changed.
    pub fn notify_metrics(&self, node_ids: &[u32]) -> (r: RowNotice)
        ensures
            ({
                let rows = shown_rows(self.reverse@, node_ids@);
                match r {
                    RowNotice::Everything => rows.len() > POINT_UPDATE_LIMIT,
                    RowNotice::Rows(v) => rows.len() <= POINT_UPDATE_LIMIT && v@ == rows,
                }
            }),
    {
        let rows = self.rows_of(node_ids);
        if rows.len() > POINT_UPDATE_LIMIT {
            RowNotice::Everything
        } else {
            RowNotice::Rows(rows)
        }
    }

    fn rows_of(&self, node_ids: &[u32]) -> (r: Vec<usize>)
        ensures
            r@ == shown_rows(self.reverse@, node_ids@),
    {
        let mut rows: Vec<usize> = Vec::new();
        let mut i: usize = 0;
        assert(node_ids@.take(0) =~= Seq::empty());
        while i < node_ids.len()
            invariant
                i <= node_ids@.len(),
                rows@ == shown_rows(self.reverse@, node_ids@.take(i as int)),
            decreases node_ids@.len() - i,
        {
            proof {
                assert(node_ids@.take(i + 1).drop_last() =~= node_ids@.take(i as int));
                assert(node_ids@.take(i + 1).last() == node_ids@[i as int]);
            }
            if let Some(row) = self.reverse.get(&node_ids[i]) {
                rows.push(*row);
            }
            i += 1;
        }
        assert(node_ids@.take(node_ids@.len() as int) =~= node_ids@);
        rows
    }

    /// Selects a node. Gives the rows to redraw: that of the node that was
    /// selected before, and that of the new one, as far as they are shown.
    pub fn select_node(&mut self, node_id: u32) -> (r: Vec<usize>)
        requires
            old(self).wf(),
        ensures
            final(self).wf(),
            final(self).rows() == old(self).rows(),
            final(self).indices() == old(self).indices(),
            final(self).desired_view@ == old(self).desired_view@,
            final(self).active_node_id == Some(node_id),
            final(self).active_name@ == name_from(old(self).rows(), old(self).indices(), node_id, 0),
            r@ == shown_rows(
                old(self).reverse@,
                match old(self).active_node_id {
                    Some(prior) => seq![prior, node_id],
                    None => seq![node_id],
                },
            ),
    {
        let mut changed: Vec<u32> = Vec::new();
        if let Some(prior) = self.active_node_id {
            changed.push(prior);
        }
        changed.push(node_id);
        assert(changed@ =~= match self.active_node_id {
            Some(prior) => seq![prior, node_id],
            None => seq![node_id],
        });
        self.active_node_id = Some(node_id);
        self.active_name = self.name_of(node_id);
        self.rows_of(&changed)
    }

    fn name_of(&self, node_id: u32) -> (r: String)
        requires
            self.wf(),
        ensures
            r@ == name_from(self.rows(), self.indices(), node_id, 0),
    {
        let store: &DenseNodeStore = &self.projection.store;
        let indices = &self.projection.indices;
        proof {
            store.lemma_columns();
        }
        let mut i: usize = 0;
        while i < indices.len()
            invariant
                i <= indices@.len(),
                store.wf(),
                *store == *self.projection.store,
                indices == &self.projection.indices,
                store@.len() == store.node_ids@.len(),
                store.names@.len() == store.node_ids@.len(),
                name_from(self.rows(), self.indices(), node_id, 0) == name_from(
                    self.rows(),
                    self.indices(),
                    node_id,
                    i as int,
                ),
            decreases indices@.len() - i,
        {
            let index: usize = indices[i] as usize;
            if index < store.len() {
                if store.node_ids[index] == node_id {
                    return store.names[index].clone();
                }
            }
            i += 1;
        }
        "No node selected".to_owned()
    }

    /// The name of the selected node.
    pub fn selected_name(&self) -> (r: String)
        ensures
            r@ == self.active_name@,
    {
        self.active_name.clone()
    }

    /// How many rows there are.
    pub fn row_count(&self) -> (r: usize)
        ensures
            r == self.indices().len(),
    {
        self.projection.indices.len()
    }

    /// A row as it is drawn, with the latest latency.
    pub fn row_data(&self, row: usize, metrics: &MetricsArena) -> (r: Option<NodeRowData>)
        requires
            self.wf(),
        ensures
            (match r {
                Some(data) => row < self.indices().len() && self.indices()[row as int]
                    < self.rows().len() && data@ == drawn(
                    self.rows()[self.indices()[row as int] as int],
                    query_engine::latency_at(
                        metrics.latencies_ms@,
                        self.indices()[row as int] as int,
                    ),
                    self.active_node_id,
                ),
                None => row >= self.indices().len() || self.indices()[row as int]
                    >= self.rows().len(),
            }),
    {
        let store: &DenseNodeStore = &self.projection.store;
        proof {
            store.lemma_columns();
        }
        if row >= self.projection.indices.len() {
            return None;
        }
        let index: usize = self.projection.indices[row] as usize;
        if index >= store.len() {
            return None;
        }
        let latency = if index < metrics.latencies_ms.len() {
            metrics.latencies_ms[index]
        } else {
            UNTESTED_LATENCY
        };
        let (latency_text, latency_color) = latency_display(latency);
        let country = match text::from_utf8(&store.country_codes[index]) {
            Ok(code) => code,
            Err(_) => "UN".to_owned(),
        };
        let id = store.node_ids[index];
        let is_active = match self.active_node_id {
            Some(active) => active == id,
            None => false,
        };
        Some(
            NodeRowData {
                id,
                name: store.names[index].clone(),
                country,
                protocol: store.protocol_kinds[index].label(),
                latency_text,
                latency_color,
                is_active,
            },
        )
    }
}

/// The text and the colour of a latency.
pub fn latency_display(latency: u16) -> (r: (String, Color))
    ensures
        r.0@ == latency_text(latency),
        r.1 == latency_color(latency),
{
    if latency == UNTESTED_LATENCY {
        return ("\u{2014}".to_owned(), Color { red: 113, green: 113, blue: 122 });
    }
    let mut shown = text::decimal_text(latency as u64);
    shown.append(" ms");
    if latency < 150 {
        (shown, Color { red: 70, green: 167, blue: 88 })
    } else if latency < 350 {
        (shown, Color { red: 245, green: 166, blue: 35 })
    } else {
        (shown, Color { red: 229, green: 72, blue: 77 })
    }
}

} // verus!
