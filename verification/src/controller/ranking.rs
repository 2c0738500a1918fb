//! Ranking of candidate nodes by what their trials showed.
use crate::adapter::egress::{ScatterReport, TargetCheck};
use crate::ir::node::{CanonicalNode, NodeView};
use crate::sort;
use crate::sort::Order;
use crate::time;
use crate::time::Duration;
use vstd::prelude::*;

verus! {

/// A single candidate's verdict after an egress trial.
#[derive(Clone, Debug, PartialEq, Eq)]
pub struct CandidateScore<T = String> {
    /// Position among the candidates that the trial was run over.
    pub node_index: usize,
    pub label: T,
    /// Subscription that the node came from.
    pub sub_id: u16,
    /// Number of targets that answered exactly as expected.
    pub verified: usize,
    pub total: usize,
    pub passes: bool,
    /// Median latency across the targets that verified, if any did.
    pub median_latency: Option<Duration>,
}

/// The model of a score.
pub type ScoreView = CandidateScore<Seq<char>>;

impl View for CandidateScore {
    type V = CandidateScore<Seq<char>>;

    open spec fn view(&self) -> CandidateScore<Seq<char>> {
        CandidateScore {
            node_index: self.node_index,
            label: self.label@,
            sub_id: self.sub_id,
            verified: self.verified,
            total: self.total,
            passes: self.passes,
            median_latency: self.median_latency,
        }
    }
}

/// The models of a list of scores.
pub open spec fn scores_of(s: Seq<CandidateScore>) -> Seq<ScoreView> {
    s.map_values(|x: CandidateScore| x@)
}

// ---------------------------------------------------------------------------
// Model
// ---------------------------------------------------------------------------

/// The latencies of the verified checks among the first `n`.
pub open spec fn verified_latencies(checks: Seq<TargetCheck>, n: nat) -> Seq<u64>
    decreases n,
{
    if n == 0 {
        Seq::empty()
    } else {
        let before = verified_latencies(checks, (n - 1) as nat);
        if checks[n - 1].verified {
            before.push(checks[n - 1].latency.nanos)
        } else {
            before
        }
    }
}

/// The middle of the values in increasing order; of an even number, the upper
/// one.
pub open spec fn median(values: Seq<u64>) -> Option<Duration> {
    if values.len() == 0 {
        None
    } else {
        Some(
            Duration {
                nanos: values.sort_by(|a: u64, b: u64| a <= b)[values.len() as int / 2],
            },
        )
    }
}

/// The median latency of a report's verified checks.
pub open spec fn report_median(report: ScatterReport) -> Option<Duration> {
    median(verified_latencies(report.checks@, report.checks@.len()))
}

/// The score of a candidate. A trial that did not come about counts as nothing
/// verified.
pub open spec fn score(
    index: usize,
    node: NodeView,
    report: Option<ScatterReport>,
    min_verified: usize,
) -> ScoreView {
    CandidateScore {
        node_index: index,
        label: node.meta.label,
        sub_id: node.meta.sub_id,
        verified: match report {
            Some(r) => r.verified,
            None => 0,
        },
        total: match report {
            Some(r) => r.total,
            None => 0,
        },
        passes: match report {
            Some(r) => r.quorum_verified >= min_verified,
            None => false,
        },
        median_latency: match report {
            Some(r) => report_median(r),
            None => None,
        },
    }
}

/// The report at a position, if there is one.
pub open spec fn report_at(reports: Seq<Option<ScatterReport>>, i: int) -> Option<ScatterReport> {
    if 0 <= i < reports.len() {
        reports[i]
    } else {
        None
    }
}

/// The scores of chosen candidates, one for each.
pub open spec fn scored(
    candidates: Seq<CanonicalNode>,
    chosen: Seq<usize>,
    reports: Seq<Option<ScatterReport>>,
    min_verified: usize,
) -> Seq<ScoreView> {
    Seq::new(
        chosen.len(),
        |i: int| score(chosen[i], candidates[chosen[i] as int]@, report_at(reports, i), min_verified),
    )
}

/// The positions `0..n`.
pub open spec fn positions(n: nat) -> Seq<usize> {
    Seq::new(n, |i: int| i as usize)
}

/// A latency for comparison: none counts as more than any.
pub open spec fn latency_key(latency: Option<Duration>) -> int {
    match latency {
        Some(d) => d.nanos as int,
        None => u64::MAX + 1,
    }
}

/// The first score is selected before the second: passing ones first, by median
/// latency and then by the number verified; the others by the number verified and
/// then by median latency; and at last by position.
pub open spec fn is_better(a: ScoreView, b: ScoreView) -> bool {
    if a.passes != b.passes {
        a.passes
    } else if !a.passes && a.verified != b.verified {
        a.verified > b.verified
    } else if latency_key(a.median_latency) != latency_key(b.median_latency) {
        latency_key(a.median_latency) < latency_key(b.median_latency)
    } else if a.verified != b.verified {
        a.verified > b.verified
    } else {
        a.node_index < b.node_index
    }
}

/// No two scores are of the same candidate.
pub open spec fn of_distinct_nodes(scores: Seq<ScoreView>) -> bool {
    forall|i: int, j: int|
        0 <= i < j < scores.len() ==> (#[trigger] scores[i]).node_index != (#[trigger]
            scores[j]).node_index
}

/// The scores in the order given by `p` are in selection order. Those that the
/// order does not tell apart keep their order.
pub open spec fn arranges(p: Seq<usize>, scores: Seq<ScoreView>, r: Seq<ScoreView>) -> bool {
    &&& p.len() == scores.len()
    &&& r.len() == scores.len()
    &&& p.no_duplicates()
    &&& forall|i: int| 0 <= i < p.len() ==> #[trigger] p[i] < scores.len() && r[i] == scores[p[i] as int]
    &&& forall|i: int, j: int|
        0 <= i < j < p.len() ==> is_better(scores[#[trigger] p[i] as int], scores[#[trigger] p[j] as int])
            || (!is_better(scores[p[j] as int], scores[p[i] as int]) && p[i] < p[j])
}

/// `r` is the scores in selection order.
pub open spec fn is_ranking(scores: Seq<ScoreView>, r: Seq<ScoreView>) -> bool {
    exists|p: Seq<usize>| arranges(p, scores, r)
}

/// `r` is the beginning of the scores in selection order.
pub open spec fn is_shortlist(scores: Seq<ScoreView>, limit: nat, r: Seq<ScoreView>) -> bool {
    exists|all: Seq<ScoreView>|
        #![trigger is_ranking(scores, all)]
        is_ranking(scores, all) && r == (if limit < all.len() {
            all.take(limit as int)
        } else {
            all
        })
}

// ---------------------------------------------------------------------------
// Laws
// ---------------------------------------------------------------------------

/// Candidates that passed lead the ranking: behind one that failed there is none
/// that passed.
pub proof fn law_passing_candidates_lead(scores: Seq<ScoreView>, r: Seq<ScoreView>)
    requires
        is_ranking(scores, r),
    ensures
        forall|i: int, j: int| 0 <= i < j < r.len() && (#[trigger] r[j]).passes ==> (#[trigger]
            r[i]).passes,
{
    let p = choose|p: Seq<usize>| arranges(p, scores, r);
    assert forall|i: int, j: int| 0 <= i < j < r.len() && (#[trigger] r[j]).passes implies (
    #[trigger] r[i]).passes by {
        assert(p[i] < scores.len() && p[j] < scores.len());
    }
}

/// Among candidates that passed, a faster median comes first.
pub proof fn law_faster_medians_come_first(scores: Seq<ScoreView>, r: Seq<ScoreView>)
    requires
        is_ranking(scores, r),
    ensures
        forall|i: int, j: int|
            0 <= i < j < r.len() && (#[trigger] r[i]).passes && (#[trigger] r[j]).passes
                ==> latency_key(r[i].median_latency) <= latency_key(r[j].median_latency),
{
    let p = choose|p: Seq<usize>| arranges(p, scores, r);
    assert forall|i: int, j: int|
        0 <= i < j < r.len() && (#[trigger] r[i]).passes && (#[trigger] r[j]).passes implies latency_key(
        r[i].median_latency,
    ) <= latency_key(r[j].median_latency) by {
        assert(p[i] < scores.len() && p[j] < scores.len());
    }
}

/// Among candidates that did not pass, one with more verified targets comes first.
pub proof fn law_stragglers_go_by_what_they_verified(scores: Seq<ScoreView>, r: Seq<ScoreView>)
    requires
        is_ranking(scores, r),
    ensures
        forall|i: int, j: int|
            0 <= i < j < r.len() && !(#[trigger] r[i]).passes && !(#[trigger] r[j]).passes
                ==> r[i].verified >= r[j].verified,
{
    let p = choose|p: Seq<usize>| arranges(p, scores, r);
    assert forall|i: int, j: int|
        0 <= i < j < r.len() && !(#[trigger] r[i]).passes && !(#[trigger] r[j]).passes implies r[i].verified
        >= r[j].verified by {
        assert(p[i] < scores.len() && p[j] < scores.len());
    }
}

/// The ranking of different candidates does not depend on the order in which their
/// scores come: two orders of the same scores have the same ranking.
pub proof fn law_rankings_do_not_depend_on_input_order(
    a: Seq<ScoreView>,
    b: Seq<ScoreView>,
    ranked_a: Seq<ScoreView>,
    ranked_b: Seq<ScoreView>,
)
    requires
        of_distinct_nodes(a),
        a.to_multiset() == b.to_multiset(),
        is_ranking(a, ranked_a),
        is_ranking(b, ranked_b),
    ensures
        ranked_a == ranked_b,
{
    a.to_multiset_ensures();
    b.to_multiset_ensures();
    assert(forall|x: ScoreView| a.contains(x) == b.contains(x)) by {
        assert forall|x: ScoreView| a.contains(x) == b.contains(x) by {
            assert(a.contains(x) <==> a.to_multiset().count(x) > 0);
            assert(b.contains(x) <==> b.to_multiset().count(x) > 0);
        }
    }
    assert(a.no_duplicates());
    a.lemma_multiset_has_no_duplicates();
    b.lemma_multiset_has_no_duplicates_conv();
    assert(of_distinct_nodes(b)) by {
        assert forall|i: int, j: int| 0 <= i < j < b.len() implies (#[trigger] b[i]).node_index != (
        #[trigger] b[j]).node_index by {
            assert(b.contains(b[i]) && b.contains(b[j]));
            let x = choose|x: int| 0 <= x < a.len() && a[x] == b[i];
            let y = choose|y: int| 0 <= y < a.len() && a[y] == b[j];
            assert(x != y);
        }
    }
    lemma_ranking_of_distinct(a, ranked_a);
    lemma_ranking_of_distinct(b, ranked_b);
    lemma_ranked_unique(ranked_a, ranked_b);
}

/// A ranking of different candidates has the scores, in strict order.
proof fn lemma_ranking_of_distinct(scores: Seq<ScoreView>, r: Seq<ScoreView>)
    requires
        of_distinct_nodes(scores),
        is_ranking(scores, r),
    ensures
        is_strictly_ranked(r),
        forall|x: ScoreView| #[trigger] r.contains(x) == scores.contains(x),
{
    let p = choose|p: Seq<usize>| arranges(p, scores, r);
    let n = scores.len();
    let image = p.map_values(|x: usize| x as int);
    assert(forall|i: int| 0 <= i < p.len() ==> image[i] == p[i]);
    assert(image.no_duplicates());
    image.unique_seq_to_set();
    let all = vstd::set_lib::set_int_range(0, n as int);
    vstd::set_lib::lemma_int_range(0, n as int);
    assert(image.to_set().subset_of(all)) by {
        assert forall|x: int| image.to_set().contains(x) implies all.contains(x) by {
            let i = choose|i: int| 0 <= i < image.len() && image[i] == x;
            assert(p[i] < n);
        }
    }
    vstd::set_lib::lemma_subset_equality(image.to_set(), all);
    assert forall|x: ScoreView| #[trigger] r.contains(x) == scores.contains(x) by {
        if r.contains(x) {
            let i = choose|i: int| 0 <= i < r.len() && r[i] == x;
            assert(p[i] < n && scores[p[i] as int] == x);
        }
        if scores.contains(x) {
            let k = choose|k: int| 0 <= k < n && scores[k] == x;
            assert(image.to_set().contains(k));
            let i = choose|i: int| 0 <= i < image.len() && image[i] == k;
            assert(p[i] < n && r[i] == x);
        }
    }
    assert forall|i: int, j: int| 0 <= i < j < r.len() implies is_better(
        #[trigger] r[i],
        #[trigger] r[j],
    ) by {
        assert(p[i] < n && p[j] < n && p[i] != p[j]);
    }
}

/// Every score is selected before all that follow it.
spec fn is_strictly_ranked(r: Seq<ScoreView>) -> bool {
    forall|i: int, j: int| 0 <= i < j < r.len() ==> is_better(#[trigger] r[i], #[trigger] r[j])
}

proof fn lemma_ranked_unique(a: Seq<ScoreView>, b: Seq<ScoreView>)
    requires
        is_strictly_ranked(a),
        is_strictly_ranked(b),
        forall|x: ScoreView| a.contains(x) == b.contains(x),
    ensures
        a == b,
    decreases a.len(),
{
    if a.len() == 0 {
        if b.len() > 0 {
            assert(b.contains(b[0]));
        }
        assert(a =~= b);
    } else {
        assert(a.contains(a.last()));
        let i = choose|i: int| 0 <= i < b.len() && b[i] == a.last();
        assert(b.contains(b.last()));
        let j = choose|j: int| 0 <= j < a.len() && a[j] == b.last();
        assert(a.last() == b.last()) by {
            if i < b.len() - 1 && j < a.len() - 1 {
                assert(is_better(b[i], b[b.len() - 1]));
                assert(is_better(a[j], a[a.len() - 1]));
            }
        }
        let x = a.drop_last();
        let y = b.drop_last();
        assert forall|s: ScoreView| x.contains(s) == y.contains(s) by {
            if x.contains(s) {
                let k = choose|k: int| 0 <= k < x.len() && x[k] == s;
                assert(a[k] == s && is_better(a[k], a[a.len() - 1]));
                assert(b.contains(s));
                let l = choose|l: int| 0 <= l < b.len() && b[l] == s;
                assert(y[l] == s);
            }
            if y.contains(s) {
                let k = choose|k: int| 0 <= k < y.len() && y[k] == s;
                assert(b[k] == s && is_better(b[k], b[b.len() - 1]));
                assert(a.contains(s));
                let l = choose|l: int| 0 <= l < a.len() && a[l] == s;
                assert(x[l] == s);
            }
        }
        lemma_ranked_unique(x, y);
        assert(a =~= x.push(a.last()));
        assert(b =~= y.push(b.last()));
    }
}

/// The quorum alone decides whether a candidate passes: two reports with the same
/// quorum give the same verdict, whatever else answered.
pub proof fn law_only_the_quorum_buys_a_pass(
    index: usize,
    node: NodeView,
    a: ScatterReport,
    b: ScatterReport,
    min_verified: usize,
)
    requires
        a.quorum_verified == b.quorum_verified,
    ensures
        score(index, node, Some(a), min_verified).passes == score(
            index,
            node,
            Some(b),
            min_verified,
        ).passes,
        !score(index, node, None, min_verified).passes,
{
}

// ---------------------------------------------------------------------------
// Median
// ---------------------------------------------------------------------------

proof fn lemma_sorted_unique(a: Seq<u64>, b: Seq<u64>)
    requires
        a.to_multiset() == b.to_multiset(),
        forall|i: int, j: int| 0 <= i < j < a.len() ==> a[i] <= a[j],
        forall|i: int, j: int| 0 <= i < j < b.len() ==> b[i] <= b[j],
    ensures
        a == b,
    decreases a.len(),
{
    broadcast use vstd::seq_lib::group_to_multiset_ensures;

    assert(a.len() == a.to_multiset().len());
    assert(b.len() == b.to_multiset().len());
    if a.len() > 0 {
        assert(a.contains(a.last()));
        assert(b.contains(b.last()));
        assert(a.to_multiset().count(a.last()) > 0);
        assert(b.to_multiset().count(b.last()) > 0);
        assert(b.contains(a.last()));
        assert(a.contains(b.last()));
        let i = choose|i: int| 0 <= i < b.len() && b[i] == a.last();
        let j = choose|j: int| 0 <= j < a.len() && a[j] == b.last();
        assert(a.last() == b.last());
        assert(a.drop_last() =~= a.remove(a.len() - 1));
        assert(b.drop_last() =~= b.remove(b.len() - 1));
        lemma_sorted_unique(a.drop_last(), b.drop_last());
        assert(a =~= a.drop_last().push(a.last()));
        assert(b =~= b.drop_last().push(b.last()));
    }
    assert(a =~= b);
}

fn sorted_values(values: &Vec<u64>) -> (r: Vec<u64>)
    ensures
        r@ == values@.sort_by(|a: u64, b: u64| a <= b),
        r@.len() == values@.len(),
{
    let mut r: Vec<u64> = Vec::new();
    let mut i: usize = 0;
    assert(values@.take(0) =~= Seq::empty());
    while i < values.len()
        invariant
            i <= values@.len(),
            r@.len() == i,
            r@.to_multiset() == values@.take(i as int).to_multiset(),
            forall|x: int, y: int| 0 <= x < y < r@.len() ==> r@[x] <= r@[y],
        decreases values@.len() - i,
    {
        let value = values[i];
        let mut at: usize = r.len();
        while at > 0 && r[at - 1] > value
            invariant
                at <= r@.len(),
                forall|x: int, y: int| 0 <= x < y < r@.len() ==> r@[x] <= r@[y],
                forall|y: int| at <= y < r@.len() ==> r@[y] > value,
            decreases at,
        {
            at -= 1;
        }
        proof {
            vstd::seq_lib::to_multiset_insert(r@, at as int, value);
            vstd::seq_lib::to_multiset_build(values@.take(i as int), value);
            assert(values@.take(i + 1) =~= values@.take(i as int).push(value));
        }
        r.insert(at, value);
        i += 1;
    }
    proof {
        let leq = |a: u64, b: u64| a <= b;
        assert(values@.take(values@.len() as int) =~= values@);
        values@.lemma_sort_by_ensures(leq);
        let want = values@.sort_by(leq);
        assert forall|x: int, y: int| 0 <= x < y < want.len() implies want[x] <= want[y] by {
            assert(leq(want[x], want[y]));
        }
        lemma_sorted_unique(r@, want);
    }
    r
}

/// The median latency of the verified checks of a report.
pub fn median_of_verified(report: &ScatterReport) -> (r: Option<Duration>)
    ensures
        r == report_median(*report),
{
    let mut values: Vec<u64> = Vec::new();
    let mut i: usize = 0;
    while i < report.checks.len()
        invariant
            i <= report.checks@.len(),
            values@ == verified_latencies(report.checks@, i as nat),
        decreases report.checks@.len() - i,
    {
        if report.checks[i].verified {
            values.push(report.checks[i].latency.nanos);
        }
        i += 1;
    }
    if values.len() == 0 {
        return None;
    }
    let sorted = sorted_values(&values);
    Some(Duration { nanos: sorted[values.len() / 2] })
}

// ---------------------------------------------------------------------------
// Scores
// ---------------------------------------------------------------------------

fn score_of(
    index: usize,
    node: &CanonicalNode,
    report: &Option<ScatterReport>,
    min_verified: usize,
) -> (r: CandidateScore)
    ensures
        r@ == score(index, node@, *report, min_verified),
{
    match report {
        Some(report) => CandidateScore {
            node_index: index,
            label: node.meta.label.clone(),
            sub_id: node.meta.sub_id,
            verified: report.verified,
            total: report.total,
            passes: report.quorum_verified >= min_verified,
            median_latency: median_of_verified(report),
        },
        None => CandidateScore {
            node_index: index,
            label: node.meta.label.clone(),
            sub_id: node.meta.sub_id,
            verified: 0,
            total: 0,
            passes: false,
            median_latency: None,
        },
    }
}

/// Scores chosen candidates; the reports are those of the chosen ones, in order.
pub fn score_chosen(
    candidates: &Vec<CanonicalNode>,
    chosen: &Vec<usize>,
    reports: &Vec<Option<ScatterReport>>,
    min_verified: usize,
) -> (r: Vec<CandidateScore>)
    requires
        forall|i: int| 0 <= i < chosen@.len() ==> (#[trigger] chosen@[i]) < candidates@.len(),
    ensures
        scores_of(r@) == scored(candidates@, chosen@, reports@, min_verified),
{
    let mut r: Vec<CandidateScore> = Vec::new();
    let ghost want = scored(candidates@, chosen@, reports@, min_verified);
    let mut i: usize = 0;
    while i < chosen.len()
        invariant
            i <= chosen@.len(),
            r@.len() == i,
            forall|k: int| 0 <= k < chosen@.len() ==> (#[trigger] chosen@[k]) < candidates@.len(),
            want == scored(candidates@, chosen@, reports@, min_verified),
            forall|k: int| 0 <= k < i ==> (#[trigger] r@[k])@ == want[k],
        decreases chosen@.len() - i,
    {
        let index = chosen[i];
        let missing: Option<ScatterReport> = None;
        let report = if i < reports.len() {
            &reports[i]
        } else {
            &missing
        };
        r.push(score_of(index, &candidates[index], report, min_verified));
        i += 1;
    }
    assert(scores_of(r@) =~= want);
    r
}

fn all_positions(n: usize) -> (r: Vec<usize>)
    ensures
        r@ == positions(n as nat),
{
    let mut r: Vec<usize> = Vec::new();
    let mut i: usize = 0;
    while i < n
        invariant
            i <= n,
            r@ == positions(i as nat),
        decreases n - i,
    {
        r.push(i);
        i += 1;
        assert(r@ =~= positions(i as nat));
    }
    r
}

/// Scores all candidates, in their order.
pub fn rank_candidates(
    candidates: &Vec<CanonicalNode>,
    reports: &Vec<Option<ScatterReport>>,
    min_verified: usize,
) -> (r: Vec<CandidateScore>)
    ensures
        scores_of(r@) == scored(candidates@, positions(candidates@.len()), reports@, min_verified),
{
    let chosen = all_positions(candidates.len());
    score_chosen(candidates, &chosen, reports, min_verified)
}

impl CandidateScore {
    /// A copy of the score.
    pub fn copy(&self) -> (r: CandidateScore)
        ensures
            r@ == self@,
    {
        CandidateScore {
            node_index: self.node_index,
            label: self.label.clone(),
            sub_id: self.sub_id,
            verified: self.verified,
            total: self.total,
            passes: self.passes,
            median_latency: self.median_latency,
        }
    }
}

fn shorter_latency(a: Option<Duration>, b: Option<Duration>) -> (r: bool)
    ensures
        r == (latency_key(a) < latency_key(b)),
{
    match (a, b) {
        (Some(x), Some(y)) => x.nanos < y.nanos,
        (Some(_), None) => true,
        (None, _) => false,
    }
}

/// Selection order on positions of a list of scores.
struct RankOrder<'a> {
    scores: &'a Vec<CandidateScore>,
}

impl<'a> Order for RankOrder<'a> {
    closed spec fn is_item(&self, a: usize) -> bool {
        a < self.scores@.len()
    }

    closed spec fn precedes(&self, a: usize, b: usize) -> bool {
        is_better(self.scores@[a as int]@, self.scores@[b as int]@)
    }

    fn less(&self, a: usize, b: usize) -> (r: bool) {
        let x = &self.scores[a];
        let y = &self.scores[b];
        if x.passes != y.passes {
            x.passes
        } else if !x.passes && x.verified != y.verified {
            x.verified > y.verified
        } else if shorter_latency(x.median_latency, y.median_latency) {
            true
        } else if shorter_latency(y.median_latency, x.median_latency) {
            false
        } else if x.verified != y.verified {
            x.verified > y.verified
        } else {
            x.node_index < y.node_index
        }
    }

    proof fn irreflexive(&self, a: usize) {
    }

    proof fn transitive(&self, a: usize, b: usize, c: usize) {
    }

    proof fn weakly_transitive(&self, a: usize, b: usize, c: usize) {
    }
}

/// Sorts scores into selection order.
pub fn sort_ranked(scores: &Vec<CandidateScore>) -> (r: Vec<CandidateScore>)
    ensures
        is_ranking(scores_of(scores@), scores_of(r@)),
{
    let order = RankOrder { scores };
    let p = sort::sort_positions(&order, all_positions(scores.len()));
    let ghost models = scores_of(scores@);
    let mut r: Vec<CandidateScore> = Vec::new();
    let mut i: usize = 0;
    while i < p.len()
        invariant
            i <= p@.len(),
            r@.len() == i,
            p@.len() == scores@.len(),
            sort::all_items(order, p@),
            order.scores == scores,
            forall|k: int| 0 <= k < i ==> (#[trigger] r@[k])@ == scores@[p@[k] as int]@,
        decreases p@.len() - i,
    {
        assert(order.is_item(p@[i as int]));
        r.push(scores[p[i]].copy());
        i += 1;
    }
    proof {
        let out = scores_of(r@);
        assert forall|k: int| 0 <= k < p@.len() implies #[trigger] p@[k] < models.len() && out[k]
            == models[p@[k] as int] by {
            assert(order.is_item(p@[k]));
        }
        assert forall|x: int, y: int| 0 <= x < y < p@.len() implies is_better(
            models[#[trigger] p@[x] as int],
            models[#[trigger] p@[y] as int],
        ) || (!is_better(models[p@[y] as int], models[p@[x] as int]) && p@[x] < p@[y]) by {
            assert(order.is_item(p@[x]) && order.is_item(p@[y]));
            assert(!order.precedes(p@[y], p@[x]));
        }
        assert(arranges(p@, models, out));
    }
    r
}

/// The scores in selection order, down to a limit.
fn shortlist_of(scores: &Vec<CandidateScore>, limit: usize) -> (r: Vec<CandidateScore>)
    ensures
        is_shortlist(scores_of(scores@), limit as nat, scores_of(r@)),
{
    let mut r = sort_ranked(scores);
    let ghost all = scores_of(r@);
    assert(is_ranking(scores_of(scores@), all));
    if limit < r.len() {
        r.truncate(limit);
        assert(scores_of(r@) =~= all.take(limit as int));
    }
    r
}

/// The shortlist of all candidates after their trials.
pub fn score_egress_candidates(
    candidates: &Vec<CanonicalNode>,
    reports: &Vec<Option<ScatterReport>>,
    min_verified: usize,
    limit: usize,
) -> (r: Vec<CandidateScore>)
    ensures
        is_shortlist(
            scored(candidates@, positions(candidates@.len()), reports@, min_verified),
            limit as nat,
            scores_of(r@),
        ),
{
    let scores = rank_candidates(candidates, reports, min_verified);
    shortlist_of(&scores, limit)
}

// ---------------------------------------------------------------------------
// Finalists
// ---------------------------------------------------------------------------

/// Tuning for the cheap tier of a tiered shortlist.
#[derive(Clone, Copy, Debug, PartialEq, Eq)]
pub struct PreflightConfig {
    /// How many sockets are tried at a time.
    pub concurrency: usize,
    /// How long one of them is waited for.
    pub connect_timeout: Duration,
    /// How many of the fastest live candidates get a full trial.
    pub finalists: usize,
}

impl Default for PreflightConfig {
    fn default() -> (r: PreflightConfig)
        ensures
            r == (PreflightConfig {
                concurrency: 512,
                connect_timeout: time::millis(800),
                finalists: 8,
            }),
    {
        PreflightConfig {
            concurrency: 512,
            connect_timeout: Duration::from_millis(800),
            finalists: 8,
        }
    }
}

/// One row of the cheap sweep, at the position of its candidate.
#[derive(Clone, Copy, Debug, PartialEq, Eq, Structural)]
pub struct CheapOutcome {
    pub latency: Option<u16>,
    pub alive: bool,
}

/// A latency for comparison: none counts as more than any.
pub open spec fn sweep_key(o: CheapOutcome) -> u32 {
    match o.latency {
        Some(n) => n as u32,
        None => 65536,
    }
}

/// The number of live rows among the first `n`.
pub open spec fn alive_count(outcomes: Seq<CheapOutcome>, n: nat) -> nat
    decreases n,
{
    if n == 0 {
        0
    } else {
        alive_count(outcomes, (n - 1) as nat) + (if outcomes[n - 1].alive {
            1nat
        } else {
            0
        })
    }
}

/// The first row is promoted before the second: it is faster, or as fast and
/// earlier.
pub open spec fn outruns(outcomes: Seq<CheapOutcome>, a: int, b: int) -> bool {
    sweep_key(outcomes[a]) < sweep_key(outcomes[b]) || (sweep_key(outcomes[a]) == sweep_key(
        outcomes[b],
    ) && a < b)
}

/// The positions of the fastest live rows, in increasing order: as many as
/// wanted and alive, and each of them outruns every live row that is left out.
pub open spec fn is_selection(outcomes: Seq<CheapOutcome>, finalists: nat, r: Seq<usize>) -> bool {
    &&& r.len() == (if finalists < alive_count(outcomes, outcomes.len()) {
        finalists
    } else {
        alive_count(outcomes, outcomes.len())
    })
    &&& forall|i: int| 0 <= i < r.len() ==> #[trigger] r[i] < outcomes.len()
        && outcomes[r[i] as int].alive
    &&& forall|i: int, j: int| 0 <= i < j < r.len() ==> #[trigger] r[i] < #[trigger] r[j]
    &&& forall|i: int, x: usize|
        0 <= i < r.len() && x < outcomes.len() && outcomes[x as int].alive && !r.contains(x)
            ==> #[trigger] outruns(outcomes, r[i] as int, x as int)
}

struct SweepOrder<'a> {
    outcomes: &'a Vec<CheapOutcome>,
}

fn sweep_key_of(o: CheapOutcome) -> (r: u32)
    ensures
        r == sweep_key(o),
{
    match o.latency {
        Some(n) => n as u32,
        None => 65536,
    }
}

impl<'a> Order for SweepOrder<'a> {
    closed spec fn is_item(&self, a: usize) -> bool {
        a < self.outcomes@.len()
    }

    closed spec fn precedes(&self, a: usize, b: usize) -> bool {
        sweep_key(self.outcomes@[a as int]) < sweep_key(self.outcomes@[b as int])
    }

    fn less(&self, a: usize, b: usize) -> (r: bool) {
        sweep_key_of(self.outcomes[a]) < sweep_key_of(self.outcomes[b])
    }

    proof fn irreflexive(&self, a: usize) {
    }

    proof fn transitive(&self, a: usize, b: usize, c: usize) {
    }

    proof fn weakly_transitive(&self, a: usize, b: usize, c: usize) {
    }
}

/// The live positions, in increasing order.
fn live_positions(outcomes: &Vec<CheapOutcome>) -> (r: Vec<usize>)
    ensures
        r@.len() == alive_count(outcomes@, outcomes@.len()),
        forall|i: int| 0 <= i < r@.len() ==> #[trigger] r@[i] < outcomes@.len()
            && outcomes@[r@[i] as int].alive,
        forall|i: int, j: int| 0 <= i < j < r@.len() ==> #[trigger] r@[i] < #[trigger] r@[j],
        forall|x: usize| x < outcomes@.len() && outcomes@[x as int].alive ==> #[trigger] r@.contains(x),
{
    let mut r: Vec<usize> = Vec::new();
    let mut i: usize = 0;
    while i < outcomes.len()
        invariant
            i <= outcomes@.len(),
            r@.len() == alive_count(outcomes@, i as nat),
            forall|k: int| 0 <= k < r@.len() ==> #[trigger] r@[k] < i && outcomes@[r@[k] as int].alive,
            forall|k: int, j: int| 0 <= k < j < r@.len() ==> #[trigger] r@[k] < #[trigger] r@[j],
            forall|x: usize| x < i && outcomes@[x as int].alive ==> #[trigger] r@.contains(x),
        decreases outcomes@.len() - i,
    {
        if outcomes[i].alive {
            let ghost before = r@;
            r.push(i);
            proof {
                assert(r@[before.len() as int] == i);
                assert forall|x: usize| x < i + 1 && outcomes@[x as int].alive implies #[trigger] r@.contains(
                    x,
                ) by {
                    if x < i {
                        assert(before.contains(x));
                        let k = choose|k: int| 0 <= k < before.len() && before[k] == x;
                        assert(r@[k] == x);
                    }
                }
            }
        }
        i += 1;
    }
    r
}

/// Puts distinct positions below `n` in increasing order.
fn in_order(chosen: &Vec<usize>, n: usize) -> (r: Vec<usize>)
    requires
        chosen@.no_duplicates(),
        forall|i: int| 0 <= i < chosen@.len() ==> #[trigger] chosen@[i] < n,
    ensures
        r@.len() == chosen@.len(),
        forall|i: int, j: int| 0 <= i < j < r@.len() ==> #[trigger] r@[i] < #[trigger] r@[j],
        forall|x: usize| #[trigger] r@.contains(x) == chosen@.contains(x),
{
    let mut marks: Vec<bool> = Vec::new();
    let mut i: usize = 0;
    while i < n
        invariant
            i <= n,
            marks@.len() == i,
            forall|k: int| 0 <= k < i ==> !(#[trigger] marks@[k]),
        decreases n - i,
    {
        marks.push(false);
        i += 1;
    }
    let mut j: usize = 0;
    while j < chosen.len()
        invariant
            j <= chosen@.len(),
            marks@.len() == n,
            forall|k: int| 0 <= k < chosen@.len() ==> #[trigger] chosen@[k] < n,
            forall|k: int| 0 <= k < n ==> (#[trigger] marks@[k] <==> chosen@.take(j as int).contains(
                k as usize,
            )),
        decreases chosen@.len() - j,
    {
        let ghost before = marks@;
        let at = chosen[j];
        marks.set(at, true);
        proof {
            let prefix = chosen@.take(j as int);
            let longer = chosen@.take(j + 1);
            assert(longer =~= prefix.push(at));
            assert forall|k: int| 0 <= k < n implies (#[trigger] marks@[k] <==> longer.contains(
                k as usize,
            )) by {
                assert(longer[j as int] == at);
                if k == at {
                    assert(longer.contains(at));
                } else {
                    assert(marks@[k] == before[k]);
                    if prefix.contains(k as usize) {
                        let q = choose|q: int| 0 <= q < prefix.len() && prefix[q] == k as usize;
                        assert(longer[q] == k as usize);
                    }
                    if longer.contains(k as usize) {
                        let q = choose|q: int| 0 <= q < longer.len() && longer[q] == k as usize;
                        assert(prefix[q] == k as usize);
                    }
                }
            }
        }
        j += 1;
    }
    assert(chosen@.take(chosen@.len() as int) =~= chosen@);
    let mut r: Vec<usize> = Vec::new();
    let mut m: usize = 0;
    while m < n
        invariant
            m <= n,
            marks@.len() == n,
            forall|k: int| 0 <= k < n ==> (#[trigger] marks@[k] <==> chosen@.contains(k as usize)),
            forall|k: int| 0 <= k < r@.len() ==> #[trigger] r@[k] < m && chosen@.contains(r@[k]),
            forall|k: int, l: int| 0 <= k < l < r@.len() ==> #[trigger] r@[k] < #[trigger] r@[l],
            forall|x: usize| x < m && chosen@.contains(x) ==> #[trigger] r@.contains(x),
        decreases n - m,
    {
        if marks[m] {
            let ghost before = r@;
            r.push(m);
            proof {
                assert(r@[before.len() as int] == m);
                assert forall|x: usize| x < m + 1 && chosen@.contains(x) implies #[trigger] r@.contains(
                    x,
                ) by {
                    if x < m {
                        assert(before.contains(x));
                        let k = choose|k: int| 0 <= k < before.len() && before[k] == x;
                        assert(r@[k] == x);
                    }
                }
            }
        } else {
            assert(!chosen@.contains(m));
        }
        m += 1;
    }
    proof {
        assert forall|x: usize| #[trigger] r@.contains(x) == chosen@.contains(x) by {
            if r@.contains(x) {
                let k = choose|k: int| 0 <= k < r@.len() && r@[k] == x;
                assert(chosen@.contains(r@[k]));
            }
            if chosen@.contains(x) {
                let k = choose|k: int| 0 <= k < chosen@.len() && chosen@[k] == x;
                assert(chosen@[k] < n);
            }
        }
        assert(r@.no_duplicates());
        assert(r@.to_set() =~= chosen@.to_set()) by {
            assert forall|x: usize| r@.to_set().contains(x) == chosen@.to_set().contains(x) by {
                assert(r@.contains(x) == chosen@.contains(x));
            }
        }
        r@.unique_seq_to_set();
        chosen@.unique_seq_to_set();
    }
    r
}

/// Chooses the fastest live rows of a sweep, live rows without a measured latency
/// last.
pub fn select_finalists(outcomes: &Vec<CheapOutcome>, finalists: usize) -> (r: Vec<usize>)
    ensures
        is_selection(outcomes@, finalists as nat, r@),
{
    let live = live_positions(outcomes);
    let ghost alive = live@;
    let order = SweepOrder { outcomes };
    let mut best = sort::sort_positions(&order, live);
    let ghost all = best@;
    proof {
        assert forall|x: int, y: int| 0 <= x < y < all.len() implies outruns(
            outcomes@,
            #[trigger] all[x] as int,
            #[trigger] all[y] as int,
        ) by {
            assert(order.is_item(all[x]) && order.is_item(all[y]));
            assert(!order.precedes(all[y], all[x]));
        }
    }
    if finalists < best.len() {
        best.truncate(finalists);
    }
    let ghost kept = best@;
    proof {
        assert(kept =~= all.take(kept.len() as int));
        assert forall|i: int| 0 <= i < kept.len() implies #[trigger] kept[i] < outcomes@.len()
            && outcomes@[kept[i] as int].alive by {
            assert(kept[i] == all[i]);
            assert(alive.contains(all[i]));
        }
    }
    let r = in_order(&best, outcomes.len());
    proof {
        assert forall|i: int| 0 <= i < r@.len() implies #[trigger] r@[i] < outcomes@.len()
            && outcomes@[r@[i] as int].alive by {
            assert(r@.contains(r@[i]));
            let k = choose|k: int| 0 <= k < kept.len() && kept[k] == r@[i];
            assert(kept[k] < outcomes@.len());
        }
        assert forall|i: int, x: usize|
            0 <= i < r@.len() && x < outcomes@.len() && outcomes@[x as int].alive && !r@.contains(
                x,
            ) implies #[trigger] outruns(outcomes@, r@[i] as int, x as int) by {
            assert(r@.contains(r@[i]));
            let k = choose|k: int| 0 <= k < kept.len() && kept[k] == r@[i];
            assert(alive.contains(x));
            let a = choose|a: int| 0 <= a < alive.len() && alive[a] == x;
            assert(all.contains(alive[a]));
            let t = choose|t: int| 0 <= t < all.len() && all[t] == x;
            if t < kept.len() {
                assert(kept[t] == x);
                assert(kept.contains(x));
            }
            assert(all[k] == r@[i]);
        }
    }
    r
}

/// Heavy trials are bounded whatever the size of the catalog, and dead rows never
/// get one.
pub proof fn law_heavy_trials_are_bounded(
    outcomes: Seq<CheapOutcome>,
    finalists: nat,
    r: Seq<usize>,
)
    requires
        is_selection(outcomes, finalists, r),
    ensures
        r.len() <= finalists,
        forall|i: int| 0 <= i < r.len() ==> outcomes[#[trigger] r[i] as int].alive,
{
}

/// The shortlist of a tiered trial: the reports are those of the finalists of the
/// sweep, in order.
pub fn tiered_shortlist(
    candidates: &Vec<CanonicalNode>,
    outcomes: &Vec<CheapOutcome>,
    preflight: &PreflightConfig,
    reports: &Vec<Option<ScatterReport>>,
    min_verified: usize,
    limit: usize,
) -> (r: Vec<CandidateScore>)
    requires
        outcomes@.len() <= candidates@.len(),
    ensures
        exists|finalists: Seq<usize>|
            #![trigger is_selection(outcomes@, preflight.finalists as nat, finalists)]
            is_selection(outcomes@, preflight.finalists as nat, finalists) && is_shortlist(
                scored(candidates@, finalists, reports@, min_verified),
                limit as nat,
                scores_of(r@),
            ),
{
    let finalists = select_finalists(outcomes, preflight.finalists);
    let scores = score_chosen(candidates, &finalists, reports, min_verified);
    shortlist_of(&scores, limit)
}

} // verus!
