//! What the ranking of candidates promises.
use crate::adapter::egress::{ScatterReport, TargetCheck};
use crate::controller::ranking;
use crate::controller::ranking::{CheapOutcome, ScoreView};
use crate::ir::node::CanonicalNode;
use crate::time::Duration;
use vstd::prelude::*;

verus! {

/// The checks that verified.
pub open spec fn verified(checks: Seq<TargetCheck>) -> Seq<TargetCheck> {
    checks.filter(|c: TargetCheck| c.verified)
}

/// How many of the verified checks were faster than a latency.
pub open spec fn faster(checks: Seq<TargetCheck>, latency: Duration) -> nat {
    checks.filter(|c: TargetCheck| c.verified && c.latency.nanos < latency.nanos).len()
}

/// How many of the verified checks were slower than a latency.
pub open spec fn slower(checks: Seq<TargetCheck>, latency: Duration) -> nat {
    checks.filter(|c: TargetCheck| c.verified && c.latency.nanos > latency.nanos).len()
}

/// The median latency is that of a verified check with at most half of the verified
/// checks faster and fewer than half of them slower. There is none exactly if no check
/// verified, and checks that did not verify do not count: reports with the same verified
/// checks have the same median.
pub proof fn law_medians_are_of_verified_checks(report: ScatterReport, other: ScatterReport)
    ensures
        ({
            let n = verified(report.checks@).len();
            match ranking::report_median(report) {
                None => forall|i: int|
                    0 <= i < report.checks@.len() ==> !(#[trigger] report.checks@[i]).verified,
                Some(median) => {
                    &&& exists|i: int|
                        0 <= i < report.checks@.len() && (#[trigger] report.checks@[i]).verified
                            && report.checks@[i].latency == median
                    &&& 2 * faster(report.checks@, median) <= n
                    &&& 2 * slower(report.checks@, median) < n
                },
            }
        }),
        verified(report.checks@) == verified(other.checks@) ==> ranking::report_median(report)
            == ranking::report_median(other),
{
    let checks = report.checks@;
    let values = ranking::verified_latencies(checks, checks.len());
    lemma_latencies(checks, checks.len());
    lemma_latencies(other.checks@, other.checks@.len());
    assert(checks.take(checks.len() as int) =~= checks);
    assert(other.checks@.take(other.checks@.len() as int) =~= other.checks@);
    if values.len() == 0 {
        assert forall|i: int| 0 <= i < checks.len() implies !(#[trigger] checks[i]).verified by {
            if checks[i].verified {
                checks.lemma_filter_contains(|c: TargetCheck| c.verified, i);
            }
        }
    } else {
        let leq = |a: u64, b: u64| a <= b;
        let sorted = values.sort_by(leq);
        let k = values.len() as int / 2;
        values.lemma_sort_by_ensures(leq);
        values.to_multiset_ensures();
        sorted.to_multiset_ensures();
        assert(sorted.len() == values.len());
        let m = sorted[k];
        let median = Duration { nanos: m };
        assert(ranking::report_median(report) == Some(median));
        let below = |x: u64| x < m;
        let above = |x: u64| x > m;
        assert forall|x: int, y: int| 0 <= x < y < sorted.len() implies sorted[x] <= sorted[y] by {
            assert(leq(sorted[x], sorted[y]));
        }
        lemma_same_count(values, sorted, below);
        lemma_same_count(values, sorted, above);
        lemma_few_below(sorted, k);
        lemma_few_above(sorted, k);
        lemma_counts(checks, checks.len(), m);
        assert(sorted.contains(m));
        assert(values.contains(m)) by {
            if !values.contains(m) {
                assert(!sorted.contains(m));
            }
        }
        let j = choose|j: int| 0 <= j < values.len() && values[j] == m;
        let kept = verified(checks);
        assert(kept[j].latency.nanos == m);
        checks.lemma_filter_pred(|c: TargetCheck| c.verified, j);
        lemma_kept_from(checks, j);
    }
}

proof fn lemma_kept_from(checks: Seq<TargetCheck>, j: int)
    requires
        0 <= j < verified(checks).len(),
    ensures
        checks.contains(verified(checks)[j]),
        verified(checks)[j].verified,
    decreases checks.len(),
{
    reveal(Seq::filter);
    let rest = checks.drop_last();
    if j < verified(rest).len() {
        lemma_kept_from(rest, j);
        let i = choose|i: int| 0 <= i < rest.len() && rest[i] == verified(rest)[j];
        assert(checks[i] == verified(checks)[j]);
    } else {
        assert(checks[checks.len() - 1] == verified(checks)[j]);
    }
}

/// The latencies that the median is taken of are those of the verified checks.
proof fn lemma_latencies(checks: Seq<TargetCheck>, n: nat)
    requires
        n <= checks.len(),
    ensures
        ranking::verified_latencies(checks, n) == verified(checks.take(n as int)).map_values(
            |c: TargetCheck| c.latency.nanos,
        ),
    decreases n,
{
    reveal(Seq::filter);
    let nanos = |c: TargetCheck| c.latency.nanos;
    if n == 0 {
        assert(verified(checks.take(0)).map_values(nanos) =~= Seq::empty());
    } else {
        lemma_latencies(checks, (n - 1) as nat);
        let now = checks.take(n as int);
        assert(now.drop_last() =~= checks.take(n - 1));
        assert(now.last() == checks[n - 1]);
        assert(verified(now).map_values(nanos) =~= ranking::verified_latencies(checks, n));
    }
}

/// Counting checks by their latency is counting the latencies.
proof fn lemma_counts(checks: Seq<TargetCheck>, n: nat, m: u64)
    requires
        n <= checks.len(),
    ensures
        ranking::verified_latencies(checks, n).filter(|x: u64| x < m).len() == faster(
            checks.take(n as int),
            Duration { nanos: m },
        ),
        ranking::verified_latencies(checks, n).filter(|x: u64| x > m).len() == slower(
            checks.take(n as int),
            Duration { nanos: m },
        ),
        n == checks.len() ==> checks.take(n as int) == checks,
    decreases n,
{
    reveal(Seq::filter);
    if n > 0 {
        lemma_counts(checks, (n - 1) as nat, m);
        let now = checks.take(n as int);
        let values = ranking::verified_latencies(checks, n);
        assert(now.drop_last() =~= checks.take(n - 1));
        assert(now.last() == checks[n - 1]);
        if checks[n - 1].verified {
            assert(values.drop_last() =~= ranking::verified_latencies(checks, (n - 1) as nat));
        }
    }
    if n == checks.len() {
        assert(checks.take(n as int) =~= checks);
    }
}

/// Sequences of the same values hold as many that meet a condition.
proof fn lemma_same_count(a: Seq<u64>, b: Seq<u64>, p: spec_fn(u64) -> bool)
    requires
        a.to_multiset() == b.to_multiset(),
    ensures
        a.filter(p).len() == b.filter(p).len(),
    decreases a.len(),
{
    a.to_multiset_ensures();
    b.to_multiset_ensures();
    reveal(Seq::filter);
    if a.len() > 0 {
        let x = a.last();
        assert(a.contains(x));
        assert(a.to_multiset().count(x) > 0);
        assert(b.contains(x));
        let i = choose|i: int| 0 <= i < b.len() && b[i] == x;
        let (head, tail) = (b.take(i), b.skip(i + 1));
        assert(b =~= (head + seq![x]) + tail);
        assert(b.remove(i) =~= head + tail);
        Seq::filter_distributes_over_add(head + seq![x], tail, p);
        Seq::filter_distributes_over_add(head, seq![x], p);
        Seq::filter_distributes_over_add(head, tail, p);
        assert(seq![x].filter(p).len() == if p(x) { 1nat } else { 0 }) by {
            reveal_with_fuel(Seq::filter, 2);
            assert(seq![x].drop_last() =~= Seq::empty());
        }
        assert(a.drop_last() =~= a.remove(a.len() - 1));
        lemma_same_count(a.drop_last(), b.remove(i), p);
    }
}

proof fn lemma_few_below(s: Seq<u64>, k: int)
    requires
        0 <= k < s.len(),
        forall|x: int, y: int| 0 <= x < y < s.len() ==> s[x] <= s[y],
    ensures
        ({
            let m = s[k];
            s.filter(|x: u64| x < m).len() <= k
        }),
{
    let m = s[k];
    let p = |x: u64| x < m;
    let (head, tail) = (s.take(k), s.skip(k));
    assert(s =~= head + tail);
    Seq::filter_distributes_over_add(head, tail, p);
    head.lemma_filter_len(p);
    lemma_none(tail, p);
}

proof fn lemma_few_above(s: Seq<u64>, k: int)
    requires
        0 <= k < s.len(),
        forall|x: int, y: int| 0 <= x < y < s.len() ==> s[x] <= s[y],
    ensures
        ({
            let m = s[k];
            s.filter(|x: u64| x > m).len() <= s.len() - k - 1
        }),
{
    let m = s[k];
    let p = |x: u64| x > m;
    let (head, tail) = (s.take(k + 1), s.skip(k + 1));
    assert(s =~= head + tail);
    Seq::filter_distributes_over_add(head, tail, p);
    tail.lemma_filter_len(p);
    lemma_none(head, p);
}

proof fn lemma_none(s: Seq<u64>, p: spec_fn(u64) -> bool)
    requires
        forall|i: int| 0 <= i < s.len() ==> !p(#[trigger] s[i]),
    ensures
        s.filter(p).len() == 0,
    decreases s.len(),
{
    reveal(Seq::filter);
    if s.len() > 0 {
        let rest = s.drop_last();
        assert forall|i: int| 0 <= i < rest.len() implies !p(#[trigger] rest[i]) by {
            assert(rest[i] == s[i]);
        }
        lemma_none(rest, p);
        assert(!p(s.last()));
    }
}

/// Every candidate gets one score, at its position: under its own label and
/// subscription, with what its report counted. It passes exactly if as many of the
/// quorum verified as are required; without a report nothing verified and it fails.
pub proof fn law_scores_are_what_the_trials_showed(
    candidates: Seq<CanonicalNode>,
    chosen: Seq<usize>,
    reports: Seq<Option<ScatterReport>>,
    min_verified: usize,
    i: int,
)
    requires
        0 <= i < chosen.len(),
        chosen[i] < candidates.len(),
    ensures
        ({
            let scores = ranking::scored(candidates, chosen, reports, min_verified);
            let node = candidates[chosen[i] as int];
            let s = scores[i];
            &&& scores.len() == chosen.len()
            &&& s.node_index == chosen[i]
            &&& s.label == node.meta.label@
            &&& s.sub_id == node.meta.sub_id
            &&& i < reports.len() && reports[i] is Some ==> {
                let report = reports[i]->0;
                &&& s.verified == report.verified
                &&& s.total == report.total
                &&& s.passes == (report.quorum_verified >= min_verified)
                &&& s.median_latency == ranking::report_median(report)
            }
            &&& i >= reports.len() || reports[i] is None ==> s.verified == 0 && s.total == 0
                && !s.passes && s.median_latency is None
        }),
{
}

/// A score without a latency, or with a longer one.
pub open spec fn is_not_faster(a: ScoreView, b: ScoreView) -> bool {
    match (a.median_latency, b.median_latency) {
        (Some(x), Some(y)) => x.nanos >= y.nanos,
        (Some(_), None) => false,
        (None, _) => true,
    }
}

/// A ranking holds the scores that went in. Of two of them, the one in front passed if
/// the other did. If both passed, the one in front is not slower, and where they are as
/// fast it verified at least as many targets. If neither passed, the one in front
/// verified at least as many targets, and with as many it is not slower. What is equal in
/// all of that goes by the position of the candidate.
pub proof fn law_rankings_put_the_best_first(
    scores: Seq<ScoreView>,
    r: Seq<ScoreView>,
    i: int,
    j: int,
)
    requires
        ranking::is_ranking(scores, r),
        0 <= i < j < r.len(),
    ensures
        r.len() == scores.len(),
        scores.contains(r[i]),
        ({
            let (a, b) = (r[i], r[j]);
            &&& b.passes ==> a.passes
            &&& a.passes && b.passes ==> {
                &&& is_not_faster(b, a)
                &&& is_not_faster(a, b) ==> a.verified >= b.verified
                &&& is_not_faster(a, b) && a.verified == b.verified ==> a.node_index
                    <= b.node_index
            }
            &&& !a.passes && !b.passes ==> {
                &&& a.verified >= b.verified
                &&& a.verified == b.verified ==> is_not_faster(b, a)
                &&& a.verified == b.verified && is_not_faster(a, b) ==> a.node_index
                    <= b.node_index
            }
        }),
{
    let p = choose|p: Seq<usize>| ranking::arranges(p, scores, r);
    assert(p[i] < scores.len() && p[j] < scores.len());
    assert(r[i] == scores[p[i] as int]);
}

/// A shortlist is where a ranking begins: as long as the limit allows, and no score that
/// was left out comes before one that is in it.
pub proof fn law_shortlists_hold_the_best(scores: Seq<ScoreView>, limit: nat, r: Seq<ScoreView>)
    requires
        ranking::is_shortlist(scores, limit, r),
    ensures
        r.len() == (if limit < scores.len() {
            limit
        } else {
            scores.len()
        }),
        exists|all: Seq<ScoreView>| #[trigger]
            ranking::is_ranking(scores, all) && r.is_prefix_of(all),
        forall|i: int| 0 <= i < r.len() ==> scores.contains(#[trigger] r[i]),
{
    let all = choose|all: Seq<ScoreView>|
        #![trigger ranking::is_ranking(scores, all)]
        ranking::is_ranking(scores, all) && r == (if limit < all.len() {
            all.take(limit as int)
        } else {
            all
        });
    let p = choose|p: Seq<usize>| ranking::arranges(p, scores, all);
    assert(all.len() == scores.len());
    assert(ranking::is_ranking(scores, all) && r.is_prefix_of(all)) by {
        assert(r =~= all.subrange(0, r.len() as int));
    }
    assert forall|i: int| 0 <= i < r.len() implies scores.contains(#[trigger] r[i]) by {
        assert(r[i] == all[i] && p[i] < scores.len());
        assert(all[i] == scores[p[i] as int]);
    }
}

/// A row of the cheap sweep that was measured is faster than one that took more
/// milliseconds and than one without a measurement.
pub open spec fn is_faster_row(a: CheapOutcome, b: CheapOutcome) -> bool {
    match (a.latency, b.latency) {
        (Some(x), Some(y)) => x < y,
        (Some(_), None) => true,
        (None, _) => false,
    }
}

/// The finalists of the cheap sweep are live rows in their order, as many as are wanted
/// or alive, and no live row that was left out is faster than one of them; of rows that
/// are as fast the earlier ones are taken.
pub proof fn law_finalists_are_the_fastest_live_rows(
    outcomes: Seq<CheapOutcome>,
    finalists: nat,
    r: Seq<usize>,
)
    requires
        ranking::is_selection(outcomes, finalists, r),
    ensures
        ({
            let alive = outcomes.filter(|o: CheapOutcome| o.alive).len();
            r.len() == (if finalists < alive {
                finalists
            } else {
                alive
            })
        }),
        forall|i: int, j: int| 0 <= i < j < r.len() ==> #[trigger] r[i] < #[trigger] r[j],
        forall|i: int|
            0 <= i < r.len() ==> #[trigger] r[i] < outcomes.len() && outcomes[r[i] as int].alive,
        forall|i: int, x: usize|
            #![trigger r[i], outcomes[x as int]]
            0 <= i < r.len() && x < outcomes.len() && outcomes[x as int].alive && !r.contains(x)
                ==> !is_faster_row(outcomes[x as int], outcomes[r[i] as int]) && (is_faster_row(
                outcomes[r[i] as int],
                outcomes[x as int],
            ) || r[i] < x),
{
    lemma_alive(outcomes, outcomes.len());
    assert(outcomes.take(outcomes.len() as int) =~= outcomes);
    assert forall|i: int, x: usize|
        #![trigger r[i], outcomes[x as int]]
        0 <= i < r.len() && x < outcomes.len() && outcomes[x as int].alive && !r.contains(
            x,
        ) implies !is_faster_row(outcomes[x as int], outcomes[r[i] as int]) && (is_faster_row(
        outcomes[r[i] as int],
        outcomes[x as int],
    ) || r[i] < x) by {
        assert(ranking::outruns(outcomes, r[i] as int, x as int));
    }
}

proof fn lemma_alive(outcomes: Seq<CheapOutcome>, n: nat)
    requires
        n <= outcomes.len(),
    ensures
        ranking::alive_count(outcomes, n) == outcomes.take(n as int).filter(
            |o: CheapOutcome| o.alive,
        ).len(),
    decreases n,
{
    reveal(Seq::filter);
    if n > 0 {
        lemma_alive(outcomes, (n - 1) as nat);
        assert(outcomes.take(n as int).drop_last() =~= outcomes.take(n - 1));
    }
}

} // verus!
