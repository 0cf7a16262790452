//! Results that stand for different entries of the index: each result is
//! drawn from a slot of the index of its own, so that no indexed entry is
//! shown twice.

use crate::finder::entry::{EntryView, MatchView};
use crate::ranking::{lemma_stable_slots, stable_slots, stable_sorted, strict_weak_order};
use vstd::prelude::*;

verus! {

/// The entry of a match, as a function.
pub open spec fn entry_key() -> spec_fn(MatchView) -> EntryView {
    |m: MatchView| m.entry
}

/// An entry itself, as a function.
pub open spec fn same_entry() -> spec_fn(EntryView) -> EntryView {
    |e: EntryView| e
}

/// The entries of a list of matches.
pub open spec fn entries_of(results: Seq<MatchView>) -> Seq<EntryView> {
    results.map_values(entry_key())
}

/// Whether `at` names, for each place of `out`, a slot of `src` that holds
/// the same entry, and no slot twice.
pub open spec fn picks(at: Seq<int>, out: Seq<EntryView>, src: Seq<EntryView>) -> bool {
    &&& at.len() == out.len()
    &&& forall|k: int| 0 <= k < at.len() ==> 0 <= #[trigger] at[k] < src.len() && src[at[k]] == out[k]
    &&& forall|i: int, j: int| 0 <= i < j < at.len() ==> #[trigger] at[i] != #[trigger] at[j]
}

/// Whether each entry of `out` is drawn from a slot of `src` of its own.
pub open spec fn drawn_once(out: Seq<EntryView>, src: Seq<EntryView>) -> bool {
    exists|at: Seq<int>| picks(at, out, src)
}

/// Whether each match stands for a slot of the index of its own: no
/// indexed entry comes twice.
pub open spec fn from_distinct_slots(results: Seq<MatchView>, entries: Seq<EntryView>) -> bool {
    drawn_once(entries_of(results), entries)
}

/// No matches stand for no entries, whatever the index holds.
pub proof fn lemma_nothing_drawn(entries: Seq<EntryView>)
    ensures
        from_distinct_slots(Seq::empty(), entries),
{
    assert(picks(Seq::<int>::empty(), entries_of(Seq::empty()), entries));
}

/// What is drawn from a list that is itself drawn from another is drawn
/// from that other.
pub proof fn lemma_drawn_compose(x: Seq<EntryView>, y: Seq<EntryView>, z: Seq<EntryView>)
    requires
        drawn_once(x, y),
        drawn_once(y, z),
    ensures
        drawn_once(x, z),
{
    let a = choose|a: Seq<int>| picks(a, x, y);
    let b = choose|b: Seq<int>| picks(b, y, z);
    let c = Seq::new(x.len(), |k: int| b[a[k]]);
    assert forall|i: int, j: int| 0 <= i < j < c.len() implies #[trigger] c[i] != #[trigger] c[j] by {
        assert(a[i] != a[j]);
        if a[i] < a[j] {
            assert(b[a[i]] != b[a[j]]);
        } else {
            assert(b[a[j]] != b[a[i]]);
        }
    }
    assert(picks(c, x, z));
}

/// The first entries of a drawn list are drawn.
pub proof fn lemma_drawn_take(out: Seq<EntryView>, src: Seq<EntryView>, n: int)
    requires
        drawn_once(out, src),
        0 <= n <= out.len(),
    ensures
        drawn_once(out.take(n), src),
{
    let a = choose|a: Seq<int>| picks(a, out, src);
    assert(picks(a.take(n), out.take(n), src));
}

/// What is drawn from a list is drawn from the list with more behind it.
pub proof fn lemma_drawn_grow(out: Seq<EntryView>, src: Seq<EntryView>, more: Seq<EntryView>)
    requires
        drawn_once(out, src),
    ensures
        drawn_once(out, src + more),
{
    let a = choose|a: Seq<int>| picks(a, out, src);
    assert forall|k: int| 0 <= k < a.len() implies 0 <= #[trigger] a[k] < (src + more).len() && (src
        + more)[a[k]] == out[k] by {
        assert((src + more)[a[k]] == src[a[k]]);
    }
    assert(picks(a, out, src + more));
}

/// The first entries of a list are drawn from the list, and so is the
/// whole list.
pub proof fn lemma_drawn_front(src: Seq<EntryView>, n: int)
    requires
        0 <= n <= src.len(),
    ensures
        drawn_once(src.take(n), src),
        drawn_once(src, src),
{
    let a = Seq::new(n as nat, |k: int| k);
    assert(picks(a, src.take(n), src));
    let b = Seq::new(src.len(), |k: int| k);
    assert(picks(b, src, src));
}

/// Every entry that is drawn from a list stands in the list.
pub proof fn lemma_drawn_contains(out: Seq<EntryView>, src: Seq<EntryView>)
    requires
        drawn_once(out, src),
    ensures
        forall|k: int| 0 <= k < out.len() ==> src.contains(#[trigger] out[k]),
{
    let a = choose|a: Seq<int>| picks(a, out, src);
    assert forall|k: int| 0 <= k < out.len() implies src.contains(#[trigger] out[k]) by {
        assert(src[a[k]] == out[k]);
    }
}

/// Whether `at` names, in rising order, the places of `s` that `f` lets
/// pass, with what it makes of them.
pub open spec fn chosen<A, B>(at: Seq<int>, s: Seq<A>, f: spec_fn(A) -> Option<B>, out: Seq<B>) -> bool {
    &&& at.len() == out.len()
    &&& forall|k: int| 0 <= k < at.len() ==> 0 <= #[trigger] at[k] < s.len() && f(s[at[k]]) == Some(out[k])
    &&& forall|i: int, j: int| 0 <= i < j < at.len() ==> #[trigger] at[i] < #[trigger] at[j]
}

/// What a filter lets pass comes from places of its own, in their order.
pub proof fn lemma_filter_map_chosen<A, B>(s: Seq<A>, f: spec_fn(A) -> Option<B>)
    ensures
        exists|at: Seq<int>| chosen(at, s, f, s.filter_map(f)),
    decreases s.len(),
{
    if s.len() == 0 {
        assert(chosen(Seq::<int>::empty(), s, f, s.filter_map(f)));
    } else {
        let rest = s.drop_last();
        lemma_filter_map_chosen(rest, f);
        let a = choose|a: Seq<int>| chosen(a, rest, f, rest.filter_map(f));
        assert forall|k: int| 0 <= k < a.len() implies 0 <= #[trigger] a[k] < s.len() && f(s[a[k]])
            == Some(rest.filter_map(f)[k]) by {
            assert(rest[a[k]] == s[a[k]]);
        }
        match f(s.last()) {
            Some(x) => {
                let b = a.push(s.len() - 1);
                let out = s.filter_map(f);
                assert(out =~= rest.filter_map(f).push(x));
                assert forall|k: int| 0 <= k < b.len() implies 0 <= #[trigger] b[k] < s.len() && f(
                    s[b[k]],
                ) == Some(out[k]) by {
                    if k < a.len() {
                        assert(b[k] == a[k]);
                    }
                }
                assert forall|i: int, j: int| 0 <= i < j < b.len() implies #[trigger] b[i] < #[trigger] b[j] by {
                    if j < a.len() {
                        assert(b[i] == a[i] && b[j] == a[j]);
                    } else {
                        assert(b[i] == a[i]);
                    }
                }
                assert(chosen(b, s, f, out));
            },
            None => {
                assert(chosen(a, s, f, s.filter_map(f)));
            },
        }
    }
}

/// The entries of a stable arrangement are drawn, each once, from the
/// entries of what was arranged.
pub proof fn lemma_sorted_drawn<T>(items: Seq<T>, before: spec_fn(T, T) -> bool, key: spec_fn(T) -> EntryView)
    requires
        strict_weak_order(before),
        items.len() <= usize::MAX,
    ensures
        drawn_once(stable_sorted(items, before).map_values(key), items.map_values(key)),
{
    lemma_stable_slots(items, before);
    let order = stable_slots(items, before);
    let a = Seq::new(items.len(), |k: int| order[k] as int);
    let out = stable_sorted(items, before).map_values(key);
    let src = items.map_values(key);
    assert forall|i: int, j: int| 0 <= i < j < a.len() implies #[trigger] a[i] != #[trigger] a[j] by {
        assert(order[i] != order[j]);
    }
    assert forall|k: int| 0 <= k < a.len() implies 0 <= #[trigger] a[k] < src.len() && src[a[k]] == out[k] by {
        assert(order[k] < items.len());
    }
    assert(picks(a, out, src));
}

} // verus!
