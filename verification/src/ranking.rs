//! Stable ordering of a list by a "comes before" relation: elements that
//! neither precede the other keep the order in which they stood.
//!
//! The order is described on positions (slots) of the list, so that ties are
//! broken by position and the sorted arrangement is unique.

use rayon::slice::ParallelSliceMut;
use std::cmp::Ordering;
use vstd::prelude::*;
use vstd::relations::{sorted_by, total_ordering};
use vstd::seq_lib::lemma_sorted_unique;

verus! {

/// What a "comes before" relation must satisfy to order a list: nothing
/// precedes itself, precedence is transitive, and whatever is tied with both
/// sides of a precedence cannot exist.
pub open spec fn strict_weak_order<T>(before: spec_fn(T, T) -> bool) -> bool {
    &&& forall|a: T| !#[trigger] before(a, a)
    &&& forall|a: T, b: T, c: T| #[trigger] before(a, b) && #[trigger] before(b, c) ==> before(a, c)
    &&& forall|a: T, b: T, c: T|
        #![trigger before(a, b), before(a, c)]
        #![trigger before(a, b), before(c, b)]
        before(a, b) ==> before(a, c) || before(c, b)
}

/// Whether slot `i` goes no later than slot `j` when `items` is ordered by
/// `before` and ties keep their position. Slots outside the list follow all
/// slots inside it.
pub open spec fn slot_leq<T>(items: Seq<T>, before: spec_fn(T, T) -> bool, i: usize, j: usize) -> bool {
    if i < items.len() && j < items.len() {
        before(items[i as int], items[j as int]) || (!before(items[j as int], items[i as int]) && i <= j)
    } else if i < items.len() {
        true
    } else if j < items.len() {
        false
    } else {
        i <= j
    }
}

/// The slot order as a relation on slots.
pub open spec fn slot_order<T>(items: Seq<T>, before: spec_fn(T, T) -> bool) -> spec_fn(usize, usize) -> bool {
    |i: usize, j: usize| slot_leq(items, before, i, j)
}

/// The slots `0, 1, .., n - 1` in rising order.
pub open spec fn slots(n: nat) -> Seq<usize> {
    Seq::new(n, |i: int| i as usize)
}

/// The slots of `items` in their stable order under `before`.
pub open spec fn stable_slots<T>(items: Seq<T>, before: spec_fn(T, T) -> bool) -> Seq<usize> {
    slots(items.len()).sort_by(slot_order(items, before))
}

/// `items` rearranged into stable order under `before`.
pub open spec fn stable_sorted<T>(items: Seq<T>, before: spec_fn(T, T) -> bool) -> Seq<T> {
    let order = stable_slots(items, before);
    Seq::new(items.len(), |k: int| items[order[k] as int])
}

/// Whether no later element of `s` comes before an earlier one.
pub open spec fn in_order<T>(s: Seq<T>, before: spec_fn(T, T) -> bool) -> bool {
    forall|i: int, j: int| 0 <= i < j < s.len() ==> !before(#[trigger] s[j], #[trigger] s[i])
}

/// The slot order is a total order on slots.
pub proof fn lemma_slot_order_total<T>(items: Seq<T>, before: spec_fn(T, T) -> bool)
    requires
        strict_weak_order(before),
    ensures
        total_ordering(slot_order(items, before)),
{
    let r = slot_order(items, before);
    assert forall|x: usize| #[trigger] r(x, x) by {}
    assert forall|x: usize, y: usize| #[trigger] r(x, y) && #[trigger] r(y, x) implies x == y by {
        if x < items.len() && y < items.len() {
            let a = items[x as int];
            let b = items[y as int];
            if before(a, b) && before(b, a) {
                assert(before(a, a));
            }
        }
    }
    assert forall|x: usize, y: usize, z: usize| #[trigger] r(x, y) && #[trigger] r(y, z) implies r(
        x,
        z,
    ) by {
        if x < items.len() && y < items.len() && z < items.len() {
            let a = items[x as int];
            let b = items[y as int];
            let c = items[z as int];
            if before(a, b) {
                assert(before(a, c) || before(c, b));
                if before(c, b) && !before(a, c) {
                    // then b is not before c, so y <= z and c is not after b: contradiction
                    assert(!before(b, c)) by {
                        if before(b, c) {
                            assert(before(c, c));
                        }
                    }
                    assert(false);
                }
            } else if before(b, c) {
                assert(before(b, a) || before(a, c));
            } else {
                // ties on both sides: positions rise
                if before(c, a) {
                    assert(before(c, b) || before(b, a));
                }
            }
        }
    }
    assert forall|x: usize, y: usize| #[trigger] r(x, y) || #[trigger] r(y, x) by {}
}

/// The stable slots are a rearrangement of all slots, in slot order.
pub proof fn lemma_stable_slots<T>(items: Seq<T>, before: spec_fn(T, T) -> bool)
    requires
        strict_weak_order(before),
        items.len() <= usize::MAX,
    ensures
        stable_slots(items, before).to_multiset() == slots(items.len()).to_multiset(),
        sorted_by(stable_slots(items, before), slot_order(items, before)),
        stable_slots(items, before).len() == items.len(),
        forall|k: int|
            0 <= k < items.len() ==> (#[trigger] stable_slots(items, before)[k]) < items.len(),
        stable_slots(items, before).no_duplicates(),
{
    lemma_slot_order_total(items, before);
    let all = slots(items.len());
    let order = stable_slots(items, before);
    all.lemma_sort_by_ensures(slot_order(items, before));
    lemma_permutation_of_slots(order, items.len());
}

/// A rearrangement of the slots `0 .. n` has length `n`, stays below `n`
/// and repeats nothing.
pub proof fn lemma_permutation_of_slots(order: Seq<usize>, n: nat)
    requires
        order.to_multiset() == slots(n).to_multiset(),
        n <= usize::MAX,
    ensures
        order.len() == n,
        forall|k: int| 0 <= k < order.len() ==> (#[trigger] order[k]) < n,
        order.no_duplicates(),
        forall|v: usize| v < n ==> order.contains(v),
{
    broadcast use vstd::seq_lib::group_to_multiset_ensures;

    let all = slots(n);
    assert(order.len() == order.to_multiset().len());
    assert(all.len() == all.to_multiset().len());
    assert forall|k: int| 0 <= k < order.len() implies (#[trigger] order[k]) < n by {
        let v = order[k];
        assert(order.contains(v));
        assert(order.to_multiset().count(v) > 0);
        assert(all.to_multiset().count(v) > 0);
        assert(all.contains(v));
        let w = choose|w: int| 0 <= w < all.len() && all[w] == v;
        assert(all[w] == w as usize);
    }
    assert(all.no_duplicates());
    all.lemma_multiset_has_no_duplicates();
    assert forall|v: usize| order.to_multiset().count(v) <= 1 by {
        assert(all.to_multiset().count(v) <= 1);
    }
    order.lemma_multiset_has_no_duplicates_conv();
    assert forall|v: usize| v < n implies order.contains(v) by {
        assert(all[v as int] == v);
        assert(all.contains(v));
        assert(all.to_multiset().count(v) > 0);
        assert(order.to_multiset().count(v) > 0);
    }
}

/// Any arrangement of all slots that respects the slot order is the stable
/// order.
pub proof fn lemma_stable_slots_unique<T>(items: Seq<T>, before: spec_fn(T, T) -> bool, order: Seq<usize>)
    requires
        strict_weak_order(before),
        items.len() <= usize::MAX,
        order.to_multiset() == slots(items.len()).to_multiset(),
        sorted_by(order, slot_order(items, before)),
    ensures
        order == stable_slots(items, before),
{
    lemma_stable_slots(items, before);
    lemma_slot_order_total(items, before);
    lemma_sorted_unique(order, stable_slots(items, before), slot_order(items, before));
}

/// A list that is already in order is its own stable arrangement.
pub proof fn lemma_stable_sorted_fixpoint<T>(items: Seq<T>, before: spec_fn(T, T) -> bool)
    requires
        strict_weak_order(before),
        in_order(items, before),
        items.len() <= usize::MAX,
    ensures
        stable_sorted(items, before) == items,
{
    let all = slots(items.len());
    assert(sorted_by(all, slot_order(items, before))) by {
        assert forall|i: int, j: int| 0 <= i < j < all.len() implies #[trigger] slot_order(items, before)(
            all[i],
            all[j],
        ) by {
            assert(!before(items[j], items[i]));
        }
    }
    lemma_stable_slots_unique(items, before, all);
    assert(stable_sorted(items, before) =~= items);
}

/// The stable arrangement is in order, and holds exactly what the list held.
pub proof fn lemma_stable_sorted<T>(items: Seq<T>, before: spec_fn(T, T) -> bool)
    requires
        strict_weak_order(before),
        items.len() <= usize::MAX,
    ensures
        stable_sorted(items, before).len() == items.len(),
        in_order(stable_sorted(items, before), before),
        forall|k: int|
            0 <= k < items.len() ==> items.contains(#[trigger] stable_sorted(items, before)[k]),
        forall|k: int|
            0 <= k < items.len() ==> stable_sorted(items, before).contains(#[trigger] items[k]),
{
    lemma_stable_slots(items, before);
    let order = stable_slots(items, before);
    let out = stable_sorted(items, before);
    lemma_permutation_of_slots(order, items.len());
    assert forall|i: int, j: int| 0 <= i < j < out.len() implies !before(
        #[trigger] out[j],
        #[trigger] out[i],
    ) by {
        assert(slot_order(items, before)(order[i], order[j]));
        assert(order[i] != order[j]);
        if before(out[j], out[i]) {
            assert(before(items[order[j] as int], items[order[i] as int]));
            if before(items[order[i] as int], items[order[j] as int]) {
                assert(before(out[i], out[i]));
            }
        }
    }
    assert forall|k: int| 0 <= k < items.len() implies items.contains(#[trigger] out[k]) by {
        assert(items[order[k] as int] == out[k]);
    }
    assert forall|k: int| 0 <= k < items.len() implies out.contains(#[trigger] items[k]) by {
        assert(order.contains(k as usize));
        let w = choose|w: int| 0 <= w < order.len() && order[w] == k as usize;
        assert(out[w] == items[k]);
    }
}

/// A way of telling which of two slots of a list goes first.
pub trait SlotOrder {
    /// How many slots the list has.
    spec fn slot_count(&self) -> nat;

    /// Whether slot `a` goes strictly before slot `b`.
    spec fn goes_before(&self, a: usize, b: usize) -> bool;

    /// Whether slot `a` goes strictly before slot `b`.
    fn precedes(&self, a: usize, b: usize) -> (r: bool)
        requires
            a < self.slot_count(),
            b < self.slot_count(),
        ensures
            r == self.goes_before(a, b),
    ;
}

/// Whether a slot order is one a sort can rely on: no slot goes before
/// itself, going before is transitive, and a slot that goes before another
/// goes before any third slot or lets it go before the other.
pub open spec fn weakly_orders<O: SlotOrder>(by: O) -> bool {
    &&& forall|a: usize| a < by.slot_count() ==> !#[trigger] by.goes_before(a, a)
    &&& forall|a: usize, b: usize, c: usize|
        a < by.slot_count() && b < by.slot_count() && c < by.slot_count() && #[trigger] by.goes_before(
            a,
            b,
        ) && #[trigger] by.goes_before(b, c) ==> by.goes_before(a, c)
    &&& forall|a: usize, b: usize, c: usize|
        #![trigger by.goes_before(a, b), by.goes_before(a, c)]
        #![trigger by.goes_before(a, b), by.goes_before(c, b)]
        a < by.slot_count() && b < by.slot_count() && c < by.slot_count() && by.goes_before(a, b)
            ==> by.goes_before(a, c) || by.goes_before(c, b)
}

/// Whether no later slot of an arrangement goes before an earlier one.
pub open spec fn arranged<O: SlotOrder>(order: Seq<usize>, by: O) -> bool {
    forall|i: int, j: int|
        0 <= i < j < order.len() ==> !by.goes_before(#[trigger] order[j], #[trigger] order[i])
}

/// How two slots compare.
pub fn slot_ordering<O: SlotOrder>(by: &O, a: usize, b: usize) -> (r: Ordering)
    requires
        a < by.slot_count(),
        b < by.slot_count(),
    ensures
        (r == Ordering::Less) == by.goes_before(a, b),
        (r == Ordering::Greater) == (!by.goes_before(a, b) && by.goes_before(b, a)),
{
    if by.precedes(a, b) {
        Ordering::Less
    } else if by.precedes(b, a) {
        Ordering::Greater
    } else {
        Ordering::Equal
    }
}

/// Calls rayon's `par_sort_unstable_by` on the slots, comparing two slots
/// by `slot_ordering`. The claims: the same slots stand there afterwards,
/// and where the order is one a sort can rely on, no later slot goes
/// before an earlier one.
#[verifier::external_body]
pub(crate) fn par_sort_slots<O: SlotOrder + Sync>(order: &mut Vec<usize>, by: &O)
    requires
        forall|k: int| 0 <= k < old(order)@.len() ==> old(order)@[k] < by.slot_count(),
    ensures
        final(order)@.to_multiset() == old(order)@.to_multiset(),
        weakly_orders(*by) ==> arranged(final(order)@, *by),
{
    order.par_sort_unstable_by(|a, b| slot_ordering(by, *a, *b));
}

/// The slots `0 .. n` in rising order.
pub fn slot_list(n: usize) -> (r: Vec<usize>)
    ensures
        r@ == slots(n as nat),
{
    let mut out: Vec<usize> = Vec::new();
    let mut i: usize = 0;
    while i < n
        invariant
            i <= n,
            out@.len() == i,
            forall|k: int| 0 <= k < i ==> out@[k] == k,
        decreases n - i,
    {
        out.push(i);
        i += 1;
    }
    assert(out@ =~= slots(n as nat));
    out
}

/// Whether slot `a` goes strictly before slot `b` in the stable order.
pub open spec fn slot_lt<T>(items: Seq<T>, before: spec_fn(T, T) -> bool, a: usize, b: usize) -> bool {
    a != b && slot_leq(items, before, a, b)
}

/// The strict part of the slot order is one a sort can rely on, and an
/// arrangement of all slots in which no later slot goes strictly before an
/// earlier one is the stable order.
pub proof fn lemma_arranged_is_stable<T, O: SlotOrder>(
    items: Seq<T>,
    before: spec_fn(T, T) -> bool,
    by: O,
    order: Seq<usize>,
)
    requires
        strict_weak_order(before),
        items.len() <= usize::MAX,
        by.slot_count() == items.len(),
        forall|a: usize, b: usize|
            a < items.len() && b < items.len() ==> #[trigger] by.goes_before(a, b) == slot_lt(
                items,
                before,
                a,
                b,
            ),
        order.to_multiset() == slots(items.len()).to_multiset(),
        weakly_orders(by) ==> arranged(order, by),
    ensures
        weakly_orders(by),
        order == stable_slots(items, before),
{
    lemma_slot_order_total(items, before);
    let r = slot_order(items, before);
    assert forall|a: usize, b: usize, c: usize|
        a < by.slot_count() && b < by.slot_count() && c < by.slot_count() && #[trigger] by.goes_before(
            a,
            b,
        ) && #[trigger] by.goes_before(b, c) implies by.goes_before(a, c) by {
        assert(r(a, b) && r(b, c));
        assert(r(a, c));
        if a == c {
            assert(r(b, a));
        }
    }
    assert forall|a: usize, b: usize, c: usize|
        #![trigger by.goes_before(a, b), by.goes_before(a, c)]
        #![trigger by.goes_before(a, b), by.goes_before(c, b)]
        a < by.slot_count() && b < by.slot_count() && c < by.slot_count() && by.goes_before(
            a,
            b,
        ) implies by.goes_before(a, c) || by.goes_before(c, b) by {
        assert(r(a, b));
        assert(r(a, c) || r(c, a));
        if c != a && !r(a, c) {
            assert(r(c, a) && r(a, b));
            assert(r(c, b));
            if c == b {
                assert(r(b, a));
            }
        }
    }
    assert(weakly_orders(by));
    lemma_permutation_of_slots(order, items.len());
    assert forall|i: int, j: int| 0 <= i < j < order.len() implies #[trigger] r(order[i], order[j]) by {
        assert(!by.goes_before(order[j], order[i]));
        assert(order[i] != order[j]);
        assert(r(order[i], order[j]) || r(order[j], order[i]));
    }
    lemma_stable_slots_unique(items, before, order);
}

} // verus!
