//! A stable merge sort of positions under an order of the caller's.
use vstd::multiset::Multiset;
use vstd::prelude::*;

verus! {

/// A strict weak order on some positions.
pub trait Order {
    spec fn is_item(&self, a: usize) -> bool;

    spec fn precedes(&self, a: usize, b: usize) -> bool;

    fn less(&self, a: usize, b: usize) -> (r: bool)
        requires
            self.is_item(a),
            self.is_item(b),
        ensures
            r == self.precedes(a, b),
    ;

    proof fn irreflexive(&self, a: usize)
        requires
            self.is_item(a),
        ensures
            !self.precedes(a, a),
    ;

    proof fn transitive(&self, a: usize, b: usize, c: usize)
        requires
            self.is_item(a),
            self.is_item(b),
            self.is_item(c),
            self.precedes(a, b),
            self.precedes(b, c),
        ensures
            self.precedes(a, c),
    ;

    /// What does not come after something that does not come after a third does
    /// not come after the third.
    proof fn weakly_transitive(&self, a: usize, b: usize, c: usize)
        requires
            self.is_item(a),
            self.is_item(b),
            self.is_item(c),
            !self.precedes(b, a),
            !self.precedes(c, b),
        ensures
            !self.precedes(c, a),
    ;
}

/// No later position precedes an earlier one.
pub open spec fn is_sorted<O: Order>(order: O, s: Seq<usize>) -> bool {
    forall|i: int, j: int| 0 <= i < j < s.len() ==> !order.precedes(#[trigger] s[j], #[trigger] s[i])
}

pub open spec fn all_items<O: Order>(order: O, s: Seq<usize>) -> bool {
    forall|i: int| 0 <= i < s.len() ==> order.is_item(#[trigger] s[i])
}

/// Positions that the order does not tell apart stand in increasing order.
pub open spec fn is_stable<O: Order>(order: O, s: Seq<usize>) -> bool {
    forall|i: int, j: int|
        0 <= i < j < s.len() && !order.precedes(#[trigger] s[i], #[trigger] s[j]) ==> s[i] < s[j]
}

/// Every element of `s` is an element of `t`.
pub open spec fn within(s: Seq<usize>, t: Seq<usize>) -> bool {
    forall|i: int| 0 <= i < s.len() ==> t.contains(#[trigger] s[i])
}

proof fn lemma_multiset_contains(s: Seq<usize>, x: usize)
    ensures
        s.to_multiset().contains(x) == s.contains(x),
{
    s.to_multiset_ensures();
}

/// Merges two sorted lists. Everything in `a` is smaller than everything in `b`.
fn merge<O: Order>(order: &O, a: &Vec<usize>, b: &Vec<usize>) -> (r: Vec<usize>)
    requires
        all_items(*order, a@),
        all_items(*order, b@),
        is_sorted(*order, a@),
        is_sorted(*order, b@),
        is_stable(*order, a@),
        is_stable(*order, b@),
        forall|i: int, j: int|
            0 <= i < a@.len() && 0 <= j < b@.len() ==> #[trigger] a@[i] < #[trigger] b@[j],
    ensures
        r@.to_multiset() == a@.to_multiset().add(b@.to_multiset()),
        all_items(*order, r@),
        is_sorted(*order, r@),
        is_stable(*order, r@),
{
    let mut r: Vec<usize> = Vec::new();
    let mut i: usize = 0;
    let mut j: usize = 0;
    proof {
        assert(a@.take(0) =~= Seq::<usize>::empty());
        assert(b@.take(0) =~= Seq::<usize>::empty());
        r@.to_multiset_ensures();
        assert(r@.to_multiset() =~= a@.take(0).to_multiset().add(b@.take(0).to_multiset()));
    }
    while i < a.len() || j < b.len()
        invariant
            i <= a@.len(),
            j <= b@.len(),
            all_items(*order, a@),
            all_items(*order, b@),
            is_sorted(*order, a@),
            is_sorted(*order, b@),
            is_stable(*order, a@),
            is_stable(*order, b@),
            forall|x: int, y: int|
                0 <= x < a@.len() && 0 <= y < b@.len() ==> #[trigger] a@[x] < #[trigger] b@[y],
            r@.to_multiset() == a@.take(i as int).to_multiset().add(
                b@.take(j as int).to_multiset(),
            ),
            all_items(*order, r@),
            is_sorted(*order, r@),
            is_stable(*order, r@),
            forall|k: int, x: int|
                0 <= k < r@.len() && i <= x < a@.len() ==> !order.precedes(
                    #[trigger] a@[x],
                    #[trigger] r@[k],
                ),
            forall|k: int, y: int|
                0 <= k < r@.len() && j <= y < b@.len() ==> !order.precedes(
                    #[trigger] b@[y],
                    #[trigger] r@[k],
                ),
            forall|k: int, x: int|
                0 <= k < r@.len() && i <= x < a@.len() && !order.precedes(
                    #[trigger] r@[k],
                    #[trigger] a@[x],
                ) ==> r@[k] < a@[x],
            forall|k: int, y: int|
                0 <= k < r@.len() && j <= y < b@.len() && !order.precedes(
                    #[trigger] r@[k],
                    #[trigger] b@[y],
                ) ==> r@[k] < b@[y],
        decreases (a@.len() - i) + (b@.len() - j),
    {
        let from_a = if i >= a.len() {
            false
        } else if j >= b.len() {
            true
        } else {
            !order.less(b[j], a[i])
        };
        let ghost before = r@;
        if from_a {
            let x = a[i];
            r.push(x);
            proof {
                assert forall|k: int, y: int|
                    0 <= k < r@.len() && j <= y < b@.len() implies !order.precedes(
                    #[trigger] b@[y],
                    #[trigger] r@[k],
                ) by {
                    if k == before.len() {
                        order.irreflexive(b@[j as int]);
                        if y > j {
                            assert(!order.precedes(b@[y], b@[j as int]));
                        }
                        order.weakly_transitive(x, b@[j as int], b@[y]);
                    }
                }
                assert(a@.take(i + 1) =~= a@.take(i as int).push(x));
                a@.take(i as int).to_multiset_ensures();
                before.to_multiset_ensures();
                assert(r@.to_multiset() =~= a@.take(i + 1).to_multiset().add(
                    b@.take(j as int).to_multiset(),
                ));
            }
            i += 1;
        } else {
            let x = b[j];
            r.push(x);
            proof {
                assert forall|k: int, y: int|
                    0 <= k < r@.len() && i <= y < a@.len() implies !order.precedes(
                    #[trigger] a@[y],
                    #[trigger] r@[k],
                ) && (!order.precedes(r@[k], a@[y]) ==> r@[k] < a@[y]) by {
                    if k == before.len() {
                        order.irreflexive(a@[i as int]);
                        if y > i {
                            assert(!order.precedes(a@[y], a@[i as int]));
                        }
                        // x precedes a[i], which a[y] does not precede, so x
                        // precedes a[y].
                        if !order.precedes(x, a@[y]) {
                            order.weakly_transitive(a@[i as int], a@[y], x);
                        }
                        if order.precedes(a@[y], x) {
                            order.transitive(x, a@[y], x);
                            order.irreflexive(x);
                        }
                    }
                }
                assert(b@.take(j + 1) =~= b@.take(j as int).push(x));
                b@.take(j as int).to_multiset_ensures();
                before.to_multiset_ensures();
                assert(r@.to_multiset() =~= a@.take(i as int).to_multiset().add(
                    b@.take(j + 1).to_multiset(),
                ));
            }
            j += 1;
        }
    }
    assert(a@.take(a@.len() as int) =~= a@);
    assert(b@.take(b@.len() as int) =~= b@);
    r
}

/// Sorts increasing positions; those that the order does not tell apart keep
/// their order.
pub fn sort_positions<O: Order>(order: &O, items: Vec<usize>) -> (r: Vec<usize>)
    requires
        all_items(*order, items@),
        forall|i: int, j: int| 0 <= i < j < items@.len() ==> items@[i] < items@[j],
    ensures
        r@.to_multiset() == items@.to_multiset(),
        r@.len() == items@.len(),
        within(r@, items@),
        within(items@, r@),
        all_items(*order, r@),
        is_sorted(*order, r@),
        is_stable(*order, r@),
        r@.no_duplicates(),
    decreases items@.len(),
{
    let n: usize = items.len();
    if n <= 1 {
        assert(items@.no_duplicates());
        return items;
    }
    let half: usize = n / 2;
    let mut first = items;
    let second = first.split_off(half);
    let ghost lower = first@;
    let ghost upper = second@;
    assert(lower =~= items@.subrange(0, half as int));
    assert(upper =~= items@.subrange(half as int, n as int));
    let a = sort_positions(order, first);
    let b = sort_positions(order, second);
    proof {
        assert forall|i: int, j: int| 0 <= i < a@.len() && 0 <= j < b@.len() implies #[trigger] a@[i]
            < #[trigger] b@[j] by {
            assert(lower.contains(a@[i]));
            assert(upper.contains(b@[j]));
        }
    }
    let r = merge(order, &a, &b);
    proof {
        vstd::seq_lib::lemma_multiset_commutative(lower, upper);
        assert(lower + upper =~= items@);
        r@.to_multiset_ensures();
        items@.to_multiset_ensures();
        assert forall|i: int| 0 <= i < r@.len() implies items@.contains(#[trigger] r@[i]) by {
            assert(r@.contains(r@[i]));
            lemma_multiset_contains(r@, r@[i]);
            lemma_multiset_contains(items@, r@[i]);
        }
        assert forall|i: int| 0 <= i < items@.len() implies r@.contains(#[trigger] items@[i]) by {
            assert(items@.contains(items@[i]));
            lemma_multiset_contains(r@, items@[i]);
            lemma_multiset_contains(items@, items@[i]);
        }
        assert(items@.no_duplicates());
        items@.lemma_multiset_has_no_duplicates();
        r@.lemma_multiset_has_no_duplicates_conv();
    }
    r
}

} // verus!
