//! Sums over sequences, and the facts about them that scoring rests on.

use vstd::prelude::*;

verus! {

/// The sum of `value` over the items of a sequence.
pub open spec fn total<A>(items: Seq<A>, value: spec_fn(A) -> nat) -> nat
    decreases items.len(),
{
    if items.len() == 0 {
        0
    } else {
        total(items.drop_last(), value) + value(items.last())
    }
}

/// One more item adds its value to the sum.
pub proof fn lemma_total_push<A>(items: Seq<A>, item: A, value: spec_fn(A) -> nat)
    ensures
        total(items.push(item), value) == total(items, value) + value(item),
{
    assert(items.push(item).drop_last() =~= items);
}

/// The sum over the first `n + 1` items is the sum over the first `n` plus the
/// value of the next.
pub proof fn lemma_total_step<A>(items: Seq<A>, n: int, value: spec_fn(A) -> nat)
    requires
        0 <= n < items.len(),
    ensures
        total(items.take(n + 1), value) == total(items.take(n), value) + value(items[n]),
{
    assert(items.take(n + 1).drop_last() =~= items.take(n));
}

/// The sum over all of a sequence is the sum over its full prefix.
pub proof fn lemma_total_whole<A>(items: Seq<A>, value: spec_fn(A) -> nat)
    ensures
        total(items.take(items.len() as int), value) == total(items, value),
{
    assert(items.take(items.len() as int) =~= items);
}

/// Sums are additive: the sum over a concatenation is the sum of the sums.
pub proof fn lemma_total_concat<A>(front: Seq<A>, back: Seq<A>, value: spec_fn(A) -> nat)
    ensures
        total(front + back, value) == total(front, value) + total(back, value),
    decreases back.len(),
{
    if back.len() == 0 {
        assert(front + back =~= front);
    } else {
        assert((front + back).drop_last() =~= front + back.drop_last());
        lemma_total_concat(front, back.drop_last(), value);
    }
}

/// Taking one item out lowers the sum by that item's value.
pub proof fn lemma_total_remove<A>(items: Seq<A>, at: int, value: spec_fn(A) -> nat)
    requires
        0 <= at < items.len(),
    ensures
        total(items, value) == total(items.remove(at), value) + value(items[at]),
{
    let front = items.subrange(0, at);
    let back = items.subrange(at + 1, items.len() as int);
    assert(items =~= front.push(items[at]) + back);
    assert(items.remove(at) =~= front + back);
    lemma_total_concat(front.push(items[at]), back, value);
    lemma_total_concat(front, back, value);
    lemma_total_push(front, items[at], value);
}

/// Sums do not depend on order: two sequences with the same items, each as
/// often in one as in the other, have the same sum.
pub proof fn lemma_total_permutation<A>(left: Seq<A>, right: Seq<A>, value: spec_fn(A) -> nat)
    requires
        left.to_multiset() == right.to_multiset(),
    ensures
        total(left, value) == total(right, value),
    decreases left.len(),
{
    broadcast use vstd::seq_lib::group_to_multiset_ensures;

    if left.len() == 0 {
        assert(right.to_multiset().len() == 0);
    } else {
        let item = left.last();
        assert(left.to_multiset().count(item) > 0);
        let at = right.index_of(item);
        assert(left.drop_last() =~= left.remove(left.len() - 1));
        lemma_total_permutation(left.drop_last(), right.remove(at), value);
        lemma_total_remove(right, at, value);
    }
}

/// Two sequences of one length whose items have the same values, place by
/// place, have the same sum.
pub proof fn lemma_total_alike<A, B>(
    left: Seq<A>,
    left_value: spec_fn(A) -> nat,
    right: Seq<B>,
    right_value: spec_fn(B) -> nat,
)
    requires
        left.len() == right.len(),
        forall|i: int|
            0 <= i < left.len() ==> left_value(#[trigger] left[i]) == right_value(right[i]),
    ensures
        total(left, left_value) == total(right, right_value),
    decreases left.len(),
{
    if left.len() > 0 {
        let a = left.drop_last();
        let b = right.drop_last();
        assert forall|i: int| 0 <= i < a.len() implies left_value(#[trigger] a[i]) == right_value(
            b[i],
        ) by {
            assert(a[i] == left[i]);
            assert(b[i] == right[i]);
        }
        lemma_total_alike(a, left_value, b, right_value);
    }
}

/// A sum of zeros is zero.
pub proof fn lemma_total_zero<A>(items: Seq<A>, value: spec_fn(A) -> nat)
    requires
        forall|i: int| 0 <= i < items.len() ==> value(#[trigger] items[i]) == 0,
    ensures
        total(items, value) == 0,
    decreases items.len(),
{
    if items.len() > 0 {
        let front = items.drop_last();
        assert forall|i: int| 0 <= i < front.len() implies value(#[trigger] front[i]) == 0 by {
            assert(front[i] == items[i]);
        }
        lemma_total_zero(front, value);
    }
}

/// A sum of sums is the sum of the parts: where every item's value is made
/// of two parts, so is the total.
pub proof fn lemma_total_parts<A>(
    items: Seq<A>,
    value: spec_fn(A) -> nat,
    one: spec_fn(A) -> nat,
    other: spec_fn(A) -> nat,
)
    requires
        forall|i: int|
            0 <= i < items.len() ==> value(#[trigger] items[i]) == one(items[i]) + other(items[i]),
    ensures
        total(items, value) == total(items, one) + total(items, other),
    decreases items.len(),
{
    if items.len() > 0 {
        let front = items.drop_last();
        assert forall|i: int| 0 <= i < front.len() implies value(#[trigger] front[i]) == one(
            front[i],
        ) + other(front[i]) by {
            assert(front[i] == items[i]);
        }
        lemma_total_parts(front, value, one, other);
    }
}

} // verus!
