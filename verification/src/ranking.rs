//! Ordering scored items: best score first, earlier item first among equals.
//!
//! An order is a list of indices into the scored list. Scores are binary64
//! bit patterns and are compared as numbers.

use vstd::prelude::*;
use crate::float_bits::float_lt;
use crate::float_bits::is_nan;
use crate::float_bits::lt;
use crate::float_bits::order_key;

verus! {

/// No score is NaN.
pub open spec fn no_nan(scores: Seq<u64>) -> bool {
    forall|i: int| 0 <= i < scores.len() ==> !is_nan(#[trigger] scores[i])
}

/// `order` names each index below `n` exactly once.
pub open spec fn is_permutation(order: Seq<usize>, n: nat) -> bool {
    &&& order.len() == n
    &&& forall|a: int| 0 <= a < order.len() ==> (#[trigger] order[a]) < n
    &&& forall|a: int, b: int| 0 <= a < b < order.len() ==> #[trigger] order[a] != #[trigger] order[b]
}

/// Item `i` belongs before item `j`: its score is higher, or the scores are
/// equal as numbers and `i` came first.
pub open spec fn ranks_before(scores: Seq<u64>, i: int, j: int) -> bool {
    order_key(scores[i]) > order_key(scores[j]) || (order_key(scores[i]) == order_key(scores[j])
        && i < j)
}

/// `order` lists the items best first, and equal scores in their first order.
pub open spec fn is_descending_stable(scores: Seq<u64>, order: Seq<usize>) -> bool {
    forall|a: int, b: int|
        0 <= a < b < order.len() ==> ranks_before(
            scores,
            #[trigger] order[a] as int,
            #[trigger] order[b] as int,
        )
}

/// The order a stable sort by descending score gives.
///
/// The result is always a permutation of the indices. Where no score is NaN
/// it is the one order that is descending and stable; a NaN compares as
/// equal to everything, and the place it takes is not stated.
pub fn stable_order_desc(scores: &Vec<u64>) -> (order: Vec<usize>)
    ensures
        is_permutation(order@, scores@.len()),
        no_nan(scores@) ==> is_descending_stable(scores@, order@),
{
    let n = scores.len();
    let mut order: Vec<usize> = Vec::new();
    let mut i: usize = 0;
    while i < n
        invariant
            i <= n == scores@.len(),
            order@.len() == i,
            forall|a: int| 0 <= a < order@.len() ==> (#[trigger] order@[a]) < i,
            forall|a: int, b: int|
                0 <= a < b < order@.len() ==> #[trigger] order@[a] != #[trigger] order@[b],
            no_nan(scores@) ==> is_descending_stable(scores@, order@),
        decreases n - i,
    {
        let mut j: usize = i;
        while j > 0 && lt(scores[order[j - 1]], scores[i])
            invariant
                j <= i < n == scores@.len(),
                order@.len() == i,
                forall|a: int| 0 <= a < order@.len() ==> (#[trigger] order@[a]) < i,
                forall|b: int|
                    j <= b < i ==> float_lt(scores@[(#[trigger] order@[b]) as int], scores@[i as int]),
            decreases j,
        {
            j -= 1;
        }
        let ghost before = order@;
        order.insert(j, i);
        proof {
            let after = order@;
            assert forall|a: int| 0 <= a < after.len() implies (#[trigger] after[a]) < i + 1 by {
                if a < j {
                    assert(after[a] == before[a]);
                } else if a > j {
                    assert(after[a] == before[a - 1]);
                }
            }
            assert forall|a: int, b: int| 0 <= a < b < after.len() implies #[trigger] after[a]
                != #[trigger] after[b] by {
                let x = if a < j { a } else { a - 1 };
                let y = if b < j { b } else { b - 1 };
                if a != j {
                    assert(after[a] == before[x]);
                }
                if b != j {
                    assert(after[b] == before[y]);
                }
            }
            if no_nan(scores@) {
                assert forall|a: int, b: int| 0 <= a < b < after.len() implies ranks_before(
                    scores@,
                    #[trigger] after[a] as int,
                    #[trigger] after[b] as int,
                ) by {
                    let x = if a < j { a } else { a - 1 };
                    let y = if b < j { b } else { b - 1 };
                    if a != j {
                        assert(after[a] == before[x]);
                    }
                    if b != j {
                        assert(after[b] == before[y]);
                    }
                    if b == j {
                        // everything left of the slot scores at least as high and came earlier
                        if j > 0 {
                            assert(!float_lt(scores@[before[j - 1] as int], scores@[i as int]));
                            if a < j - 1 {
                                assert(ranks_before(
                                    scores@,
                                    before[a] as int,
                                    before[j - 1] as int,
                                ));
                            }
                        }
                    } else if a == j {
                        assert(float_lt(scores@[before[y] as int], scores@[i as int]));
                    } else {
                        assert(ranks_before(scores@, before[x] as int, before[y] as int));
                    }
                }
            }
        }
        i += 1;
    }
    order
}

/// `before` orders the indices below `n` strictly and totally: of two
/// different indices exactly one is before the other, and being before
/// carries over.
pub open spec fn is_strict_total_order(n: nat, before: spec_fn(int, int) -> bool) -> bool {
    &&& forall|i: int, j: int|
        0 <= i < n && 0 <= j < n && i != j ==> #[trigger] before(i, j) || before(j, i)
    &&& forall|i: int, j: int| 0 <= i < n && 0 <= j < n && #[trigger] before(i, j) ==> !before(j, i)
    &&& forall|i: int, j: int, k: int|
        0 <= i < n && 0 <= j < n && 0 <= k < n && #[trigger] before(i, j) && #[trigger] before(j, k)
            ==> before(i, k)
}

/// `order` lists its items so that each is `before` all that follow it.
pub open spec fn is_sorted_by(order: Seq<usize>, before: spec_fn(int, int) -> bool) -> bool {
    forall|a: int, b: int|
        0 <= a < b < order.len() ==> before(#[trigger] order[a] as int, #[trigger] order[b] as int)
}

/// A strict total order admits one sorted permutation only.
pub proof fn lemma_sorted_order_unique(
    n: nat,
    before: spec_fn(int, int) -> bool,
    p: Seq<usize>,
    q: Seq<usize>,
)
    requires
        is_strict_total_order(n, before),
        is_permutation(p, n),
        is_permutation(q, n),
        is_sorted_by(p, before),
        is_sorted_by(q, before),
    ensures
        p == q,
{
    assert forall|a: int| 0 <= a < n implies p[a] == q[a] by {
        // both orders put at place `a` an item with exactly `a` items before it
        lemma_position_is_count(n, before, p, a);
        lemma_position_is_count(n, before, q, a);
        let x = p[a] as int;
        let y = q[a] as int;
        if x != y {
            if before(x, y) {
                lemma_before_set_grows(n, before, x, y);
            } else {
                assert(before(y, x));
                lemma_before_set_grows(n, before, y, x);
            }
        }
    }
    assert(p =~= q);
}

/// Two orders of the same scores that are both descending and stable are the
/// same order: the contract of `stable_order_desc` leaves nothing open.
pub proof fn lemma_stable_order_unique(scores: Seq<u64>, p: Seq<usize>, q: Seq<usize>)
    requires
        is_permutation(p, scores.len()),
        is_permutation(q, scores.len()),
        is_descending_stable(scores, p),
        is_descending_stable(scores, q),
    ensures
        p == q,
{
    let before = |i: int, j: int| ranks_before(scores, i, j);
    assert(is_strict_total_order(scores.len(), before));
    assert(is_sorted_by(p, before));
    assert(is_sorted_by(q, before));
    lemma_sorted_order_unique(scores.len(), before, p, q);
}

/// The indices below `n` that are before `i`.
pub open spec fn before_set(n: nat, before: spec_fn(int, int) -> bool, i: int) -> Set<int> {
    Set::new(|k: int| 0 <= k < n && before(k, i))
}

proof fn lemma_before_set_finite(n: nat, before: spec_fn(int, int) -> bool, i: int)
    ensures
        before_set(n, before, i).finite(),
        before_set(n, before, i).len() <= n,
{
    let full = vstd::set_lib::set_int_range(0, n as int);
    vstd::set_lib::lemma_int_range(0, n as int);
    assert(before_set(n, before, i).subset_of(full));
    vstd::set_lib::lemma_len_subset(before_set(n, before, i), full);
}

proof fn lemma_before_set_grows(n: nat, before: spec_fn(int, int) -> bool, x: int, y: int)
    requires
        is_strict_total_order(n, before),
        0 <= x < n,
        0 <= y < n,
        before(x, y),
    ensures
        before_set(n, before, x).len() < before_set(n, before, y).len(),
{
    lemma_before_set_finite(n, before, x);
    lemma_before_set_finite(n, before, y);
    let bx = before_set(n, before, x);
    let by = before_set(n, before, y);
    assert forall|k: int| bx.contains(k) implies by.contains(k) by {
        assert(before(k, x) && before(x, y));
    }
    assert(by.contains(x) && !bx.contains(x));
    let bigger = bx.insert(x);
    assert(bigger.subset_of(by));
    vstd::set_lib::lemma_len_subset(bigger, by);
}

/// In a sorted permutation the item at place `a` has exactly `a` items before it.
proof fn lemma_position_is_count(
    n: nat,
    before: spec_fn(int, int) -> bool,
    p: Seq<usize>,
    a: int,
)
    requires
        is_strict_total_order(n, before),
        is_permutation(p, n),
        is_sorted_by(p, before),
        0 <= a < p.len(),
    ensures
        before_set(n, before, p[a] as int).len() == a,
{
    let placed = Set::new(|k: int| exists|b: int| 0 <= b < a && p[b] as int == k);
    lemma_prefix_set_len(p, a);
    assert forall|k: int| before_set(n, before, p[a] as int).contains(k) implies placed.contains(
        k,
    ) by {
        let b = lemma_place(p, k);
        if b > a {
            assert(before(p[a] as int, p[b] as int));
        }
    }
    assert forall|k: int| placed.contains(k) implies before_set(n, before, p[a] as int).contains(
        k,
    ) by {
        let b = choose|b: int| 0 <= b < a && p[b] as int == k;
        assert(before(p[b] as int, p[a] as int));
    }
    assert(before_set(n, before, p[a] as int) =~= placed);
}

/// The first `a` places of a permutation hold `a` different items.
proof fn lemma_prefix_set_len(p: Seq<usize>, a: int)
    requires
        0 <= a <= p.len(),
        forall|x: int, y: int| 0 <= x < y < p.len() ==> #[trigger] p[x] != #[trigger] p[y],
    ensures
        Set::new(|k: int| exists|b: int| 0 <= b < a && p[b] as int == k).finite(),
        Set::new(|k: int| exists|b: int| 0 <= b < a && p[b] as int == k).len() == a,
    decreases a,
{
    let s = Set::new(|k: int| exists|b: int| 0 <= b < a && p[b] as int == k);
    if a == 0 {
        assert(s =~= Set::<int>::empty());
    } else {
        let t = Set::new(|k: int| exists|b: int| 0 <= b < a - 1 && p[b] as int == k);
        lemma_prefix_set_len(p, a - 1);
        let last = p[a - 1] as int;
        assert(!t.contains(last)) by {
            if t.contains(last) {
                let b = choose|b: int| 0 <= b < a - 1 && p[b] as int == last;
                assert(p[b] != p[a - 1]);
            }
        }
        assert(s =~= t.insert(last)) by {
            assert forall|k: int| s.contains(k) implies t.insert(last).contains(k) by {
                let b = choose|b: int| 0 <= b < a && p[b] as int == k;
                if b < a - 1 {
                    assert(t.contains(k));
                }
            }
            assert forall|k: int| t.insert(last).contains(k) implies s.contains(k) by {
                if k == last {
                    assert(0 <= a - 1 < a && p[a - 1] as int == k);
                } else {
                    let b = choose|b: int| 0 <= b < a - 1 && p[b] as int == k;
                    assert(0 <= b < a && p[b] as int == k);
                }
            }
        }
    }
}

/// Every index has a place in a permutation.
pub proof fn lemma_place(p: Seq<usize>, k: int) -> (b: int)
    requires
        is_permutation(p, p.len()),
        0 <= k < p.len(),
    ensures
        0 <= b < p.len(),
        p[b] as int == k,
{
    let placed = Set::new(|x: int| exists|b: int| 0 <= b < p.len() && p[b] as int == x);
    lemma_prefix_set_len(p, p.len() as int);
    let full = vstd::set_lib::set_int_range(0, p.len() as int);
    vstd::set_lib::lemma_int_range(0, p.len() as int);
    assert(placed.subset_of(full)) by {
        assert forall|x: int| placed.contains(x) implies full.contains(x) by {
            let b = choose|b: int| 0 <= b < p.len() && p[b] as int == x;
            assert(p[b] < p.len());
        }
    }
    vstd::set_lib::lemma_subset_equality(placed, full);
    assert(placed.contains(k));
    choose|b: int| 0 <= b < p.len() && p[b] as int == k
}

} // verus!
