//! What is picked for a trial.
use crate::adapter::egress;
use crate::adapter::egress::EgressTarget;
use vstd::prelude::*;

verus! {

/// The bit of a number at a place.
pub open spec fn bit(n: u64, k: u64) -> bool {
    (n >> k) & 1 == 1
}

/// Each bit of `b` is the bit of `a` there, turned over where the bit `by` places below it
/// is set.
pub open spec fn is_turned_from_below(a: u64, b: u64, by: u64) -> bool {
    forall|k: u64|
        k < 64 ==> #[trigger] bit(b, k) == (bit(a, k) != (k >= by && bit(a, (k - by) as u64)))
}

/// Each bit of `b` is the bit of `a` there, turned over where the bit `by` places above it
/// is set.
pub open spec fn is_turned_from_above(a: u64, b: u64, by: u64) -> bool {
    forall|k: u64|
        k < 64 ==> #[trigger] bit(b, k) == (bit(a, k) != (k + by < 64 && bit(a, (k + by) as u64)))
}

/// A step of the generator turns bits over three times, by the bits twelve places below,
/// by those twenty-five above and by those twenty-seven below, and what is left of a
/// multiple of that in sixty-four bits is the next state.
pub proof fn law_generators_turn_bits_over(state: u64)
    ensures
        exists|a: u64, b: u64, c: u64|
            is_turned_from_below(state, a, 12) && #[trigger] is_turned_from_above(a, b, 25)
                && #[trigger] is_turned_from_below(b, c, 27) && egress::star(state) == (c as nat)
                * 0x2545_f491_4f6c_dd1dnat % 0x1_0000_0000_0000_0000nat,
{
    let a = state ^ (state << 12);
    let b = a ^ (a >> 25);
    let c = b ^ (b << 27);
    assert forall|k: u64| k < 64 implies #[trigger] bit(a, k) == (bit(state, k) != (k >= 12 && bit(
        state,
        (k - 12) as u64,
    ))) by {
        lemma_below(state, a, 12, k);
    }
    assert forall|k: u64| k < 64 implies #[trigger] bit(b, k) == (bit(a, k) != (k + 25 < 64 && bit(
        a,
        (k + 25) as u64,
    ))) by {
        lemma_above(a, b, 25, k);
    }
    assert forall|k: u64| k < 64 implies #[trigger] bit(c, k) == (bit(b, k) != (k >= 27 && bit(
        b,
        (k - 27) as u64,
    ))) by {
        lemma_below(b, c, 27, k);
    }
    assert(is_turned_from_below(state, a, 12) && is_turned_from_above(a, b, 25)
        && is_turned_from_below(b, c, 27));
    assert(egress::star(state) == c.wrapping_mul(0x2545_f491_4f6c_dd1d));
}

proof fn lemma_below(a: u64, b: u64, by: u64, k: u64)
    requires
        b == a ^ (a << by),
        0 < by < 64,
        k < 64,
    ensures
        bit(b, k) == (bit(a, k) != (k >= by && bit(a, (k - by) as u64))),
{
    if k >= by {
        let low: u64 = (k - by) as u64;
        assert((((a ^ (a << by)) >> k) & 1 == 1) == (((a >> k) & 1 == 1) != ((a >> low) & 1
            == 1))) by (bit_vector)
            requires
                low == k - by,
                by <= k,
                0 < by,
                k < 64,
        ;
    } else {
        assert((((a ^ (a << by)) >> k) & 1 == 1) == ((a >> k) & 1 == 1)) by (bit_vector)
            requires
                k < by,
                by < 64,
        ;
    }
}

proof fn lemma_above(a: u64, b: u64, by: u64, k: u64)
    requires
        b == a ^ (a >> by),
        0 < by < 64,
        k < 64,
    ensures
        bit(b, k) == (bit(a, k) != (k + by < 64 && bit(a, (k + by) as u64))),
{
    if k + by < 64 {
        let high: u64 = (k + by) as u64;
        assert((((a ^ (a >> by)) >> k) & 1 == 1) == (((a >> k) & 1 == 1) != ((a >> high) & 1
            == 1))) by (bit_vector)
            requires
                high == k + by,
                k + by < 64,
        ;
    } else {
        assert((((a ^ (a >> by)) >> k) & 1 == 1) == ((a >> k) & 1 == 1)) by (bit_vector)
            requires
                k + by >= 64,
                by < 64,
                k < 64,
        ;
    }
}

/// The first position of a sample is what the first number of the generator leaves over
/// the number of positions. A seed of zero counts as another one.
pub proof fn law_the_first_pick_is_the_first_number(len: usize, count: nat, seed: u64)
    requires
        len > 0,
        count > 0,
    ensures
        egress::sample(len as nat, count, seed).len() > 0,
        seed != 0 ==> egress::sample(len as nat, count, seed)[0] == egress::star(seed) % (
        len as u64),
        egress::sample(len as nat, count, 0) == egress::sample(
            len as nat,
            count,
            0x9e37_79b9_7f4a_7c15,
        ),
{
    let n = if count < len {
        count
    } else {
        len as nat
    };
    let start: u64 = if seed == 0 {
        0x9e37_79b9_7f4a_7c15
    } else {
        seed
    };
    egress::law_samples_are_distinct(len, count, seed);
    egress::law_samples_are_distinct(len, 1, seed);
    lemma_prefix(len, 1, n, start);
    reveal_with_fuel(egress::shuffled, 2);
    let j = (egress::star(start) as int) % (len as int);
    assert(0 <= j < len) by (nonlinear_arith)
        requires
            j == (egress::star(start) as int) % (len as int),
            len > 0,
    ;
}

/// A larger sample of the same seed begins with the smaller one.
pub proof fn law_larger_samples_go_on_from_smaller_ones(
    len: usize,
    count: nat,
    more: nat,
    seed: u64,
)
    requires
        count <= more,
    ensures
        egress::sample(len as nat, count, seed).is_prefix_of(
            egress::sample(len as nat, more, seed),
        ),
{
    egress::law_samples_are_distinct(len, count, seed);
    egress::law_samples_are_distinct(len, more, seed);
    if count > 0 && len > 0 {
        let n = if count < len {
            count
        } else {
            len as nat
        };
        let m = if more < len {
            more
        } else {
            len as nat
        };
        lemma_prefix(
            len,
            n,
            m,
            if seed == 0 {
                egress::ZERO_SEED
            } else {
                seed
            },
        );
    }
    let small = egress::sample(len as nat, count, seed);
    let large = egress::sample(len as nat, more, seed);
    assert forall|i: int| 0 <= i < small.len() implies #[trigger] small[i] == large[i] by {}
    assert(small =~= large.subrange(0, small.len() as int));
}

proof fn lemma_prefix(len: usize, n: nat, m: nat, seed: u64)
    requires
        n <= m <= len,
    ensures
        egress::shuffled(len as nat, n, seed).0.len() == len,
        egress::shuffled(len as nat, m, seed).0.len() == len,
        forall|i: int|
            0 <= i < n ==> #[trigger] egress::shuffled(len as nat, m, seed).0[i]
                == egress::shuffled(len as nat, n, seed).0[i],
    decreases m,
{
    if m > n {
        lemma_prefix(len, n, (m - 1) as nat, seed);
        let (before, state) = egress::shuffled(len as nat, (m - 1) as nat, seed);
        let i = m - 1;
        let j = i + (egress::star(state) as int) % (len - i);
        assert(0 <= (egress::star(state) as int) % (len - i) < len - i) by (nonlinear_arith)
            requires
                len - i > 0,
        ;
    } else if m > 0 {
        lemma_prefix(len, (n - 1) as nat, (m - 1) as nat, seed);
    }
}

/// Every site of the pool is asked where as many are wanted as there are, and then the
/// whole pool follows the operators in its order.
pub proof fn law_large_trials_ask_everyone(
    operators: Seq<EgressTarget>,
    sites: Seq<EgressTarget>,
    count: nat,
    seed: u64,
)
    requires
        sites.len() <= usize::MAX,
        count >= sites.len(),
    ensures
        egress::trial_targets(operators, sites, count, seed) == operators + sites,
{
    let len = sites.len() as usize;
    let picked = egress::sample(sites.len(), count, seed);
    let ordered = egress::in_pool_order(picked, sites.len());
    egress::law_samples_keep_the_pool_order(len, count, seed);
    egress::law_samples_are_distinct(len, count, seed);
    egress::law_trials_keep_the_pool_order(operators, sites, count, seed);
    assert(ordered.len() == sites.len());
    assert forall|i: int| 0 <= i < ordered.len() implies #[trigger] ordered[i] == i by {
        lemma_increasing(ordered, sites.len(), i);
    }
    assert(ordered.map_values(|i: usize| sites[i as int]) =~= sites);
}

proof fn lemma_increasing(s: Seq<usize>, n: nat, i: int)
    requires
        s.len() == n,
        forall|i: int, j: int| 0 <= i < j < s.len() ==> #[trigger] s[i] < #[trigger] s[j],
        forall|i: int| 0 <= i < s.len() ==> #[trigger] s[i] < n,
        0 <= i < n,
    ensures
        s[i] == i,
{
    lemma_at_least(s, i);
    lemma_at_most(s, n, i);
}

proof fn lemma_at_least(s: Seq<usize>, i: int)
    requires
        forall|i: int, j: int| 0 <= i < j < s.len() ==> #[trigger] s[i] < #[trigger] s[j],
        0 <= i < s.len(),
    ensures
        s[i] >= i,
    decreases i,
{
    if i > 0 {
        lemma_at_least(s, i - 1);
        assert(s[i - 1] < s[i]);
    }
}

proof fn lemma_at_most(s: Seq<usize>, n: nat, i: int)
    requires
        s.len() == n,
        forall|i: int, j: int| 0 <= i < j < s.len() ==> #[trigger] s[i] < #[trigger] s[j],
        forall|i: int| 0 <= i < s.len() ==> #[trigger] s[i] < n,
        0 <= i < n,
    ensures
        s[i] <= i,
    decreases n - i,
{
    if i + 1 < n {
        lemma_at_most(s, n, i + 1);
        assert(s[i] < s[i + 1]);
    } else {
        assert(s[i] < n);
    }
}

} // verus!
