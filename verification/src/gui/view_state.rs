//! What a user chose to see.
use crate::storage::query_engine;
use crate::storage::query_engine::{query_with_metrics, SortCriteria};
use crate::storage::soa_store::{DenseNodeStore, MetricsArena};
use crate::text;
use vstd::prelude::*;

verus! {

/// The search, the filters and the order of the list.
#[derive(Clone, Debug, PartialEq, Eq)]
pub struct ViewState<T = String> {
    pub search_text: T,
    pub country_filter: Option<[u8; 2]>,
    pub subscription_filter: Option<u16>,
    pub sort: SortCriteria,
}

/// The model of a view.
pub type ChoiceView = ViewState<Seq<char>>;

impl View for ViewState {
    type V = ViewState<Seq<char>>;

    open spec fn view(&self) -> ViewState<Seq<char>> {
        ViewState {
            search_text: self.search_text@,
            country_filter: self.country_filter,
            subscription_filter: self.subscription_filter,
            sort: self.sort,
        }
    }
}

impl Default for ViewState {
    fn default() -> (r: ViewState)
        ensures
            r@ == (ChoiceView {
                search_text: Seq::empty(),
                country_filter: None,
                subscription_filter: None,
                sort: SortCriteria::LatencyAsc,
            }),
    {
        let search_text = String::new();
        assert(search_text@ =~= Seq::empty());
        ViewState {
            search_text,
            country_filter: None,
            subscription_filter: None,
            sort: SortCriteria::LatencyAsc,
        }
    }
}

/// The order that goes by a name; an unknown name is the order by latency.
pub open spec fn sort_named(name: Seq<char>) -> SortCriteria {
    if name == "country"@ {
        SortCriteria::CountryAsc
    } else if name == "name"@ {
        SortCriteria::NameAsc
    } else if name == "health"@ {
        SortCriteria::HealthScoreDesc
    } else {
        SortCriteria::LatencyAsc
    }
}

/// The order changes with measurements.
pub open spec fn follows_metrics(sort: SortCriteria) -> bool {
    sort == SortCriteria::LatencyAsc || sort == SortCriteria::LatencyDesc || sort
        == SortCriteria::HealthScoreDesc
}

impl ViewState {
    /// The positions of the nodes to see, in order.
    pub fn projection(&self, store: &DenseNodeStore, metrics: &MetricsArena) -> (r: Vec<u32>)
        requires
            store.wf(),
            store@.len() <= 0x1_0000_0000,
        ensures
            query_engine::is_projection(
                r@,
                store@,
                metrics.latencies_ms@,
                metrics.health_scores@,
                self@.search_text,
                self@.country_filter,
                self@.subscription_filter,
                self@.sort,
            ),
    {
        query_with_metrics(
            store,
            metrics,
            self.search_text.as_str(),
            self.country_filter,
            self.subscription_filter,
            self.sort,
        )
    }

    /// Chooses the order by its name.
    pub fn set_sort_name(&mut self, name: &str)
        ensures
            final(self)@ == (ChoiceView { sort: sort_named(name@), ..old(self)@ }),
    {
        self.sort = if text::same(name, "country") {
            SortCriteria::CountryAsc
        } else if text::same(name, "name") {
            SortCriteria::NameAsc
        } else if text::same(name, "health") {
            SortCriteria::HealthScoreDesc
        } else {
            SortCriteria::LatencyAsc
        };
    }

    /// Whether the order changes with measurements.
    pub fn sort_is_metric_dependent(&self) -> (r: bool)
        ensures
            r == follows_metrics(self@.sort),
    {
        match self.sort {
            SortCriteria::LatencyAsc => true,
            SortCriteria::LatencyDesc => true,
            SortCriteria::HealthScoreDesc => true,
            _ => false,
        }
    }

    /// A copy of the view.
    pub fn copy(&self) -> (r: ViewState)
        ensures
            r@ == self@,
    {
        ViewState {
            search_text: self.search_text.clone(),
            country_filter: self.country_filter,
            subscription_filter: self.subscription_filter,
            sort: self.sort,
        }
    }
}

} // verus!
