//! The search index: the entries found so far, the ignore rules they passed,
//! and the result of the last full scan, kept for incremental refinement.

use crate::config::Config;
use crate::finder::entry::{
    entry_views, match_views, path_len, plain_match, EntryView, FileEntry, MatchResult, MatchView,
};
use crate::finder::distinct::{
    chosen, drawn_once, entries_of, entry_key, from_distinct_slots, lemma_drawn_compose,
    lemma_drawn_contains, lemma_drawn_front, lemma_drawn_grow, lemma_drawn_take,
    lemma_filter_map_chosen, lemma_nothing_drawn, lemma_sorted_drawn, picks, same_entry,
};
use crate::finder::ignore::{any_rule_matches, is_ignored};
use crate::finder::matcher::{match_entry, match_of};
use crate::ranking::{
    in_order, lemma_arranged_is_stable, lemma_stable_slots, lemma_stable_sorted,
    lemma_stable_sorted_fixpoint, par_sort_slots, slot_list, slot_lt, stable_slots, stable_sorted,
    strict_weak_order, SlotOrder,
};
use crate::text::{
    lemma_bytes_before_asymmetric, lemma_bytes_before_connected, lemma_bytes_before_irreflexive,
    lemma_bytes_before_transitive, strip_prefix, text_before, text_lt, texts,
};
use rayon::iter::ParallelIterator;
use rayon::slice::ParallelSlice;
use vstd::prelude::*;
use vstd::slice::slice_subrange;
use vstd::string::*;

verus! {

/// How many workers a full scan is divided among.
pub const WORKER_THREADS: usize = 8;

/// The least number of entries one worker scans.
pub const CHUNK_SIZE: usize = 1000;

/// A better match comes first: the higher score, and among equal scores the
/// shorter path.
pub open spec fn ranks_before(a: MatchView, b: MatchView) -> bool {
    a.score > b.score || (a.score == b.score && path_len(a.entry) < path_len(b.entry))
}

/// The ranking of matches as a relation.
pub open spec fn rank_rule() -> spec_fn(MatchView, MatchView) -> bool {
    |a: MatchView, b: MatchView| ranks_before(a, b)
}

/// The ordering of entries by display name as a relation.
pub open spec fn name_rule() -> spec_fn(EntryView, EntryView) -> bool {
    |a: EntryView, b: EntryView| text_before(a.name, b.name)
}

/// Ranking orders matches.
pub proof fn lemma_rank_rule()
    ensures
        strict_weak_order(rank_rule()),
{
}

/// Display names order entries.
pub proof fn lemma_name_rule()
    ensures
        strict_weak_order(name_rule()),
{
    let r = name_rule();
    assert forall|a: EntryView| !#[trigger] r(a, a) by {
        lemma_bytes_before_irreflexive(vstd::utf8::encode_utf8(a.name));
    }
    assert forall|a: EntryView, b: EntryView, c: EntryView| #[trigger] r(a, b) && #[trigger] r(
        b,
        c,
    ) implies r(a, c) by {
        lemma_bytes_before_transitive(
            vstd::utf8::encode_utf8(a.name),
            vstd::utf8::encode_utf8(b.name),
            vstd::utf8::encode_utf8(c.name),
        );
    }
    assert forall|a: EntryView, b: EntryView, c: EntryView|
        #![trigger r(a, b), r(a, c)]
        #![trigger r(a, b), r(c, b)]
        r(a, b) implies r(a, c) || r(c, b) by {
        let x = vstd::utf8::encode_utf8(a.name);
        let y = vstd::utf8::encode_utf8(b.name);
        let z = vstd::utf8::encode_utf8(c.name);
        lemma_bytes_before_connected(x, z);
        if !r(a, c) && x != z {
            lemma_bytes_before_transitive(z, x, y);
        }
    }
}

/// At most the first `n` elements of a list.
pub open spec fn upto<T>(s: Seq<T>, n: nat) -> Seq<T> {
    if n < s.len() {
        s.take(n as int)
    } else {
        s
    }
}

/// Scoring an entry against `query`, as a function.
pub open spec fn scorer(query: Seq<char>) -> spec_fn(EntryView) -> Option<MatchView> {
    |e: EntryView| match_of(e, query)
}

/// Scoring the entry of an earlier match against `query`, as a function.
pub open spec fn rescorer(query: Seq<char>) -> spec_fn(MatchView) -> Option<MatchView> {
    |m: MatchView| match_of(m.entry, query)
}

/// Passing an entry that no rule excludes, as a function.
pub open spec fn keeper(rules: Seq<Seq<char>>) -> spec_fn(EntryView) -> Option<EntryView> {
    |e: EntryView|
        if is_ignored(rules, e.path) {
            None
        } else {
            Some(e)
        }
}

/// The index after a batch has been offered to it: the survivors are
/// appended, the cache stays.
pub open spec fn added(s: IndexView, batch: Seq<EntryView>) -> IndexView {
    IndexView { entries: s.entries + survivors(batch, s.rules), ..s }
}

/// The entries of a batch that no rule excludes, in their order.
pub open spec fn survivors(batch: Seq<EntryView>, rules: Seq<Seq<char>>) -> Seq<EntryView> {
    batch.filter_map(keeper(rules))
}

/// The matches of all entries against a query, in index order.
pub open spec fn full_scan(entries: Seq<EntryView>, query: Seq<char>) -> Seq<MatchView> {
    entries.filter_map(scorer(query))
}

/// The matches of the entries of earlier matches against a query.
pub open spec fn rescored(cached: Seq<MatchView>, query: Seq<char>) -> Seq<MatchView> {
    cached.filter_map(rescorer(query))
}

/// A full scan done chunk by chunk: the chunks are `size` entries long, the
/// last may be shorter, and their matches are joined in order.
pub open spec fn chunked_scan(entries: Seq<EntryView>, size: nat, query: Seq<char>) -> Seq<MatchView>
    decreases entries.len(),
{
    if size == 0 || entries.len() <= size {
        full_scan(entries, query)
    } else {
        full_scan(entries.take(size as int), query) + chunked_scan(
            entries.skip(size as int),
            size,
            query,
        )
    }
}

/// The best `max` of some matches: ranked, equal ranks in the order given.
pub open spec fn top_ranked(found: Seq<MatchView>, max: nat) -> Seq<MatchView> {
    upto(stable_sorted(found, rank_rule()), max)
}

/// What browsing shows: the first `max` entries, ordered by display name,
/// equal names in index order, each with score zero and nothing highlighted.
pub open spec fn browse(entries: Seq<EntryView>, max: nat) -> Seq<MatchView> {
    stable_sorted(upto(entries, max), name_rule()).map_values(|e: EntryView| plain_match(e))
}

/// What an index holds.
pub struct IndexView {
    pub entries: Seq<EntryView>,
    pub last_query: Seq<char>,
    pub last_results: Seq<MatchView>,
    pub rules: Seq<Seq<char>>,
}

/// The candidates of incremental refinement: the first `2 * max` cached
/// results that still match.
pub open spec fn refinement(s: IndexView, query: Seq<char>, max: nat) -> Seq<MatchView> {
    rescored(upto(s.last_results, 2 * max), query)
}

/// Whether a search takes the incremental path: the query extends the cached
/// one and some cached result still matches.
pub open spec fn refines(s: IndexView, query: Seq<char>, max: nat) -> bool {
    query.len() > 0 && s.last_query.is_prefix_of(query) && refinement(s, query, max).len() > 0
}

/// What a search returns.
pub open spec fn search_result(s: IndexView, query: Seq<char>, max: nat) -> Seq<MatchView> {
    if query.len() == 0 {
        browse(s.entries, max)
    } else if refines(s, query, max) {
        top_ranked(refinement(s, query, max), max)
    } else {
        top_ranked(full_scan(s.entries, query), max)
    }
}

/// What a search leaves behind: only a full scan replaces the cache.
pub open spec fn search_state(s: IndexView, query: Seq<char>, max: nat) -> IndexView {
    if query.len() == 0 || refines(s, query, max) {
        s
    } else {
        IndexView {
            last_query: query,
            last_results: top_ranked(full_scan(s.entries, query), max),
            ..s
        }
    }
}

/// Scanning in chunks finds what scanning in one piece finds.
pub proof fn lemma_chunked_scan(entries: Seq<EntryView>, size: nat, query: Seq<char>)
    ensures
        chunked_scan(entries, size, query) == full_scan(entries, query),
    decreases entries.len(),
{
    if size == 0 || entries.len() <= size {
    } else {
        let head = entries.take(size as int);
        let tail = entries.skip(size as int);
        lemma_chunked_scan(tail, size, query);
        lemma_filter_map_concat(head, tail, scorer(query));
        assert(head + tail =~= entries);
    }
}

/// Filtering and mapping a joined list joins the two results.
pub proof fn lemma_filter_map_concat<A, B>(a: Seq<A>, b: Seq<A>, f: spec_fn(A) -> Option<B>)
    ensures
        (a + b).filter_map(f) == a.filter_map(f) + b.filter_map(f),
    decreases b.len(),
{
    if b.len() == 0 {
        assert(a + b =~= a);
        assert(a.filter_map(f) + b.filter_map(f) =~= a.filter_map(f));
    } else {
        let rest = b.drop_last();
        lemma_filter_map_concat(a, rest, f);
        assert((a + b).drop_last() =~= a + rest);
        assert((a + b).last() == b.last());
        match f(b.last()) {
            Some(x) => {
                assert((a + b).filter_map(f) =~= a.filter_map(f) + (rest.filter_map(f) + seq![x]));
            },
            None => {},
        }
    }
}

/// A list whose every element is mapped to itself passes unchanged.
pub proof fn lemma_filter_map_identity<A>(s: Seq<A>, f: spec_fn(A) -> Option<A>)
    requires
        forall|k: int| 0 <= k < s.len() ==> f(#[trigger] s[k]) == Some(s[k]),
    ensures
        s.filter_map(f) == s,
    decreases s.len(),
{
    if s.len() > 0 {
        let rest = s.drop_last();
        assert forall|k: int| 0 <= k < rest.len() implies f(#[trigger] rest[k]) == Some(rest[k]) by {
            assert(rest[k] == s[k]);
        }
        lemma_filter_map_identity(rest, f);
        assert(rest + seq![s.last()] =~= s);
    } else {
        assert(s.filter_map(f) =~= s);
    }
}

/// Every match a scan reports is the fresh match of its own entry.
pub proof fn lemma_scan_is_fresh(entries: Seq<EntryView>, query: Seq<char>)
    ensures
        forall|k: int|
            0 <= k < full_scan(entries, query).len() ==> {
                let m = #[trigger] full_scan(entries, query)[k];
                match_of(m.entry, query) == Some(m) && entries.contains(m.entry)
            },
{
    let found = full_scan(entries, query);
    assert forall|k: int| 0 <= k < found.len() implies {
        let m = #[trigger] found[k];
        match_of(m.entry, query) == Some(m) && entries.contains(m.entry)
    } by {
        let m = found[k];
        assert(found.contains(m));
        entries.lemma_filter_map_contains(scorer(query), m);
        let e = choose|e: EntryView| #[trigger] entries.contains(e) && scorer(query)(e) == Some(m);
        assert(m.entry == e);
    }
}

/// Whether some match in the list is a match of the entry.
pub open spec fn holds_entry(list: Seq<MatchView>, e: EntryView) -> bool {
    exists|c: MatchView| #[trigger] list.contains(c) && c.entry == e
}

/// Every match a rescoring reports is the fresh match of its own entry, and
/// that entry stood in the list that was rescored.
pub proof fn lemma_rescored_is_fresh(cached: Seq<MatchView>, query: Seq<char>)
    ensures
        forall|k: int|
            0 <= k < rescored(cached, query).len() ==> {
                let m = #[trigger] rescored(cached, query)[k];
                match_of(m.entry, query) == Some(m) && exists|c: MatchView|
                    #[trigger] cached.contains(c) && c.entry == m.entry
            },
{
    let found = rescored(cached, query);
    assert forall|k: int| 0 <= k < found.len() implies {
        let m = #[trigger] found[k];
        match_of(m.entry, query) == Some(m) && exists|c: MatchView|
            #[trigger] cached.contains(c) && c.entry == m.entry
    } by {
        let m = found[k];
        assert(found.contains(m));
        cached.lemma_filter_map_contains(rescorer(query), m);
        let c = choose|c: MatchView| #[trigger] cached.contains(c) && rescorer(query)(c) == Some(m);
        assert(m.entry == c.entry);
    }
}

/// The best matches are at most `max`, stand in rank order, and each is one
/// of the matches given.
pub proof fn lemma_top_ranked(found: Seq<MatchView>, max: nat)
    requires
        found.len() <= usize::MAX,
    ensures
        top_ranked(found, max).len() == if max < found.len() {
            max
        } else {
            found.len()
        },
        in_order(top_ranked(found, max), rank_rule()),
        forall|k: int|
            0 <= k < top_ranked(found, max).len() ==> found.contains(#[trigger] top_ranked(found, max)[k]),
{
    lemma_rank_rule();
    lemma_stable_sorted(found, rank_rule());
    let all = stable_sorted(found, rank_rule());
    let top = top_ranked(found, max);
    assert forall|k: int| 0 <= k < top.len() implies found.contains(#[trigger] top[k]) by {
        assert(top[k] == all[k]);
    }
    assert forall|i: int, j: int| 0 <= i < j < top.len() implies !rank_rule()(
        #[trigger] top[j],
        #[trigger] top[i],
    ) by {
        assert(top[i] == all[i] && top[j] == all[j]);
    }
}

/// The stable rank order of the slots of a list of matches.
pub struct RankOrder<'a> {
    pub items: &'a [MatchResult],
}

impl<'a> SlotOrder for RankOrder<'a> {
    open spec fn slot_count(&self) -> nat {
        self.items@.len()
    }

    open spec fn goes_before(&self, a: usize, b: usize) -> bool {
        slot_lt(match_views(self.items@), rank_rule(), a, b)
    }

    fn precedes(&self, a: usize, b: usize) -> (r: bool) {
        let x = &self.items[a];
        let y = &self.items[b];
        if x.score != y.score {
            x.score > y.score
        } else {
            let lx = x.entry.path_len();
            let ly = y.entry.path_len();
            if lx != ly {
                lx < ly
            } else {
                a < b
            }
        }
    }
}

/// The stable name order of the slots of a list of entries.
pub struct NameOrder<'a> {
    pub items: &'a [FileEntry],
}

impl<'a> SlotOrder for NameOrder<'a> {
    open spec fn slot_count(&self) -> nat {
        self.items@.len()
    }

    open spec fn goes_before(&self, a: usize, b: usize) -> bool {
        slot_lt(entry_views(self.items@), name_rule(), a, b)
    }

    fn precedes(&self, a: usize, b: usize) -> (r: bool) {
        let x = &self.items[a];
        let y = &self.items[b];
        if text_lt(x.name(), y.name()) {
            proof {
                lemma_bytes_before_asymmetric(
                    vstd::utf8::encode_utf8(x@.name),
                    vstd::utf8::encode_utf8(y@.name),
                );
            }
            a != b
        } else if text_lt(y.name(), x.name()) {
            false
        } else {
            a < b
        }
    }
}

/// Calls rayon's `par_chunks`, `flat_map` and `collect` to scan the entries
/// chunk by chunk on the worker pool, each chunk by `scan_chunk`. The claim:
/// the chunks are consecutive runs of `size` entries (the last may be
/// shorter) and their results come back joined in the order of the chunks.
#[verifier::external_body]
pub(crate) fn par_scan(entries: &Vec<FileEntry>, size: usize, query: &str) -> (r: Vec<MatchResult>)
    requires
        size > 0,
    ensures
        match_views(r@) == chunked_scan(entry_views(entries@), size as nat, query@),
{
    entries.par_chunks(size).flat_map(|chunk| scan_chunk(chunk, query)).collect()
}

/// The matches of a run of entries against a query, in their order.
pub fn scan_chunk(chunk: &[FileEntry], query: &str) -> (r: Vec<MatchResult>)
    ensures
        match_views(r@) == full_scan(entry_views(chunk@), query@),
{
    let ghost all = entry_views(chunk@);
    let mut out: Vec<MatchResult> = Vec::new();
    let mut i: usize = 0;
    assert(all.take(0).filter_map(scorer(query@)) =~= Seq::<MatchView>::empty());
    assert(match_views(out@) =~= Seq::<MatchView>::empty());
    while i < chunk.len()
        invariant
            i <= chunk.len(),
            all == entry_views(chunk@),
            match_views(out@) == all.take(i as int).filter_map(scorer(query@)),
        decreases chunk.len() - i,
    {
        let ghost before = out@;
        let hit = match_entry(&chunk[i], query);
        proof {
            all.lemma_filter_map_take_succ(scorer(query@), i as int);
        }
        match hit {
            Some(m) => {
                out.push(m);
                assert(match_views(out@) =~= match_views(before).push(m@));
            },
            None => {},
        }
        i += 1;
    }
    assert(all.take(all.len() as int) =~= all);
    out
}

/// The matches of the first `limit` cached results' entries against a
/// query, in their order.
pub fn rescore(cached: &Vec<MatchResult>, limit: usize, query: &str) -> (r: Vec<MatchResult>)
    ensures
        match_views(r@) == rescored(upto(match_views(cached@), limit as nat), query@),
{
    let n = if limit < cached.len() {
        limit
    } else {
        cached.len()
    };
    let ghost all = upto(match_views(cached@), limit as nat);
    let mut out: Vec<MatchResult> = Vec::new();
    let mut i: usize = 0;
    assert(all.take(0).filter_map(rescorer(query@)) =~= Seq::<MatchView>::empty());
    assert(match_views(out@) =~= Seq::<MatchView>::empty());
    while i < n
        invariant
            i <= n,
            n <= cached.len(),
            all.len() == n,
            all == upto(match_views(cached@), limit as nat),
            match_views(out@) == all.take(i as int).filter_map(rescorer(query@)),
        decreases n - i,
    {
        let ghost before = out@;
        let hit = match_entry(&cached[i].entry, query);
        proof {
            all.lemma_filter_map_take_succ(rescorer(query@), i as int);
            assert(all[i as int] == cached@[i as int]@);
        }
        match hit {
            Some(m) => {
                out.push(m);
                assert(match_views(out@) =~= match_views(before).push(m@));
            },
            None => {},
        }
        i += 1;
    }
    assert(all.take(all.len() as int) =~= all);
    out
}

/// Ranks the matches and keeps the best `max_results`.
pub fn rank_results(found: &Vec<MatchResult>, max_results: usize) -> (r: Vec<MatchResult>)
    ensures
        match_views(r@) == top_ranked(match_views(found@), max_results as nat),
{
    let n = found.len();
    let ghost views = match_views(found@);
    let mut order = slot_list(n);
    let by = RankOrder { items: found.as_slice() };
    par_sort_slots(&mut order, &by);
    proof {
        lemma_rank_rule();
        lemma_arranged_is_stable(views, rank_rule(), by, order@);
        lemma_stable_slots(views, rank_rule());
    }
    let keep = if max_results < n {
        max_results
    } else {
        n
    };
    let mut out: Vec<MatchResult> = Vec::new();
    let mut i: usize = 0;
    while i < keep
        invariant
            i <= keep,
            keep <= n,
            n == found.len(),
            views == match_views(found@),
            order@ == stable_slots(views, rank_rule()),
            order@.len() == n,
            forall|k: int| 0 <= k < n ==> (#[trigger] order@[k]) < n,
            out@.len() == i,
            forall|k: int| 0 <= k < i ==> (#[trigger] out@[k])@ == found@[order@[k] as int]@,
        decreases keep - i,
    {
        let slot = order[i];
        out.push(found[slot].clone());
        i += 1;
    }
    assert(match_views(out@) =~= top_ranked(views, max_results as nat));
    out
}

/// The first `max_results` entries ordered by display name, as matches with
/// score zero and nothing highlighted.
pub fn browse_entries(entries: &Vec<FileEntry>, max_results: usize) -> (r: Vec<MatchResult>)
    ensures
        match_views(r@) == browse(entry_views(entries@), max_results as nat),
{
    let n = if max_results < entries.len() {
        max_results
    } else {
        entries.len()
    };
    let shown = slice_subrange(entries.as_slice(), 0, n);
    let ghost views = entry_views(shown@);
    assert(views =~= upto(entry_views(entries@), max_results as nat));
    let mut order = slot_list(n);
    let by = NameOrder { items: shown };
    par_sort_slots(&mut order, &by);
    proof {
        lemma_name_rule();
        lemma_arranged_is_stable(views, name_rule(), by, order@);
        lemma_stable_slots(views, name_rule());
    }
    let mut out: Vec<MatchResult> = Vec::new();
    let mut i: usize = 0;
    while i < n
        invariant
            i <= n,
            n == shown@.len(),
            views == entry_views(shown@),
            order@ == stable_slots(views, name_rule()),
            order@.len() == n,
            forall|k: int| 0 <= k < n ==> (#[trigger] order@[k]) < n,
            out@.len() == i,
            forall|k: int| 0 <= k < i ==> (#[trigger] out@[k])@ == plain_match(shown@[order@[k] as int]@),
        decreases n - i,
    {
        let slot = order[i];
        let m = MatchResult { score: 0, positions: Vec::new(), entry: shown[slot].clone() };
        assert(m@ == plain_match(shown@[slot as int]@)) by {
            assert(m@.positions =~= Seq::<usize>::empty());
        }
        out.push(m);
        i += 1;
    }
    assert(match_views(out@) =~= browse(entry_views(entries@), max_results as nat));
    out
}

/// A copy of a list of matches with the same contents.
pub fn clone_matches(v: &Vec<MatchResult>) -> (r: Vec<MatchResult>)
    ensures
        match_views(r@) == match_views(v@),
{
    let mut out: Vec<MatchResult> = Vec::new();
    let mut i: usize = 0;
    while i < v.len()
        invariant
            i <= v.len(),
            out@.len() == i,
            forall|k: int| 0 <= k < i ==> (#[trigger] out@[k])@ == v@[k]@,
        decreases v.len() - i,
    {
        out.push(v[i].clone());
        i += 1;
    }
    assert(match_views(out@) =~= match_views(v@));
    out
}

/// How many entries one worker scans in an index of `len` entries.
pub fn chunk_size(len: usize) -> (r: usize)
    ensures
        r == if len / WORKER_THREADS > CHUNK_SIZE {
            len / WORKER_THREADS
        } else {
            CHUNK_SIZE
        },
        r > 0,
{
    let share = len / WORKER_THREADS;
    if share > CHUNK_SIZE {
        share
    } else {
        CHUNK_SIZE
    }
}

/// Twice a count, or the largest count where that does not fit.
pub fn doubled(n: usize) -> (r: usize)
    ensures
        r == if 2 * n <= usize::MAX {
            2 * n
        } else {
            usize::MAX as int
        },
{
    if n > usize::MAX / 2 {
        usize::MAX
    } else {
        n * 2
    }
}

impl IndexView {
    /// Whether the lists are short enough to be held in memory.
    pub open spec fn fits(self) -> bool {
        self.entries.len() <= usize::MAX && self.last_results.len() <= usize::MAX
    }

    /// Whether the cache is what a full scan for the cached query left: its
    /// results stand in rank order, each is the fresh match of an indexed
    /// entry against the cached query, and no indexed entry stands there
    /// twice.
    pub open spec fn cache_ok(self) -> bool {
        &&& in_order(self.last_results, rank_rule())
        &&& from_distinct_slots(self.last_results, self.entries)
        &&& forall|k: int|
            0 <= k < self.last_results.len() ==> {
                let m = #[trigger] self.last_results[k];
                match_of(m.entry, self.last_query) == Some(m) && self.entries.contains(m.entry)
            }
    }
}

/// Whether every match of a list is a match of an entry of the index.
pub open spec fn all_indexed(results: Seq<MatchView>, entries: Seq<EntryView>) -> bool {
    forall|k: int| 0 <= k < results.len() ==> entries.contains((#[trigger] results[k]).entry)
}

/// The matches of a scan stand for entries of their own.
pub proof fn lemma_scan_drawn(entries: Seq<EntryView>, query: Seq<char>)
    ensures
        drawn_once(entries_of(full_scan(entries, query)), entries),
{
    lemma_filter_map_chosen(entries, scorer(query));
    let found = full_scan(entries, query);
    let a = choose|a: Seq<int>| chosen(a, entries, scorer(query), found);
    assert forall|k: int| 0 <= k < a.len() implies 0 <= #[trigger] a[k] < entries.len() && entries[a[k]]
        == entries_of(found)[k] by {
        assert(scorer(query)(entries[a[k]]) == Some(found[k]));
    }
    assert(picks(a, entries_of(found), entries));
}

/// The matches of a rescoring stand for cached results of their own.
pub proof fn lemma_rescored_drawn(cached: Seq<MatchView>, query: Seq<char>)
    ensures
        drawn_once(entries_of(rescored(cached, query)), entries_of(cached)),
{
    lemma_filter_map_chosen(cached, rescorer(query));
    let found = rescored(cached, query);
    let a = choose|a: Seq<int>| chosen(a, cached, rescorer(query), found);
    assert forall|k: int| 0 <= k < a.len() implies 0 <= #[trigger] a[k] < entries_of(cached).len()
        && entries_of(cached)[a[k]] == entries_of(found)[k] by {
        assert(rescorer(query)(cached[a[k]]) == Some(found[k]));
    }
    assert(picks(a, entries_of(found), entries_of(cached)));
}

/// The best matches stand for matches of their own among those given.
pub proof fn lemma_top_drawn(found: Seq<MatchView>, max: nat)
    requires
        found.len() <= usize::MAX,
    ensures
        drawn_once(entries_of(top_ranked(found, max)), entries_of(found)),
{
    lemma_rank_rule();
    lemma_stable_sorted(found, rank_rule());
    lemma_sorted_drawn(found, rank_rule(), entry_key());
    let all = stable_sorted(found, rank_rule());
    let n = if max < all.len() {
        max as int
    } else {
        all.len() as int
    };
    lemma_drawn_take(entries_of(all), entries_of(found), n);
    assert(entries_of(all).take(n) =~= entries_of(top_ranked(found, max)));
}

/// What browsing shows stands for entries of their own.
pub proof fn lemma_browse_drawn(entries: Seq<EntryView>, max: nat)
    requires
        entries.len() <= usize::MAX,
    ensures
        drawn_once(entries_of(browse(entries, max)), entries),
{
    lemma_name_rule();
    let shown = upto(entries, max);
    lemma_stable_sorted(shown, name_rule());
    lemma_sorted_drawn(shown, name_rule(), same_entry());
    let sorted = stable_sorted(shown, name_rule());
    assert(sorted.map_values(same_entry()) =~= entries_of(browse(entries, max)));
    assert(shown.map_values(same_entry()) =~= shown);
    let n = if max < entries.len() {
        max as int
    } else {
        entries.len() as int
    };
    lemma_drawn_front(entries, n);
    assert(entries.take(n) =~= shown);
    lemma_drawn_compose(entries_of(browse(entries, max)), shown, entries);
}

/// A search never invents an entry and never shows one twice, and neither
/// a search nor a batch of new entries spoils the cache: where the cache
/// was what a full scan left, every result is a match of an indexed entry,
/// the results stand for entries of the index of their own, and the cache
/// is again what a full scan left.
pub proof fn law_cache_stays_fresh(s: IndexView, query: Seq<char>, max: nat, batch: Seq<EntryView>)
    requires
        s.fits(),
        s.cache_ok(),
    ensures
        from_distinct_slots(search_result(s, query, max), s.entries),
        all_indexed(search_result(s, query, max), s.entries),
        search_state(s, query, max).cache_ok(),
        added(s, batch).cache_ok(),
{
    lemma_search_result(s, query, max);
    let out = search_result(s, query, max);
    if query.len() == 0 {
        lemma_browse_drawn(s.entries, max);
    } else if refines(s, query, max) {
        let cached = upto(s.last_results, 2 * max);
        let n = if 2 * max < s.last_results.len() {
            (2 * max) as int
        } else {
            s.last_results.len() as int
        };
        lemma_drawn_take(entries_of(s.last_results), s.entries, n);
        assert(entries_of(s.last_results).take(n) =~= entries_of(cached));
        lemma_rescored_drawn(cached, query);
        lemma_rescored_length(cached, query);
        let found = refinement(s, query, max);
        lemma_top_drawn(found, max);
        lemma_drawn_compose(entries_of(out), entries_of(found), entries_of(cached));
        lemma_drawn_compose(entries_of(out), entries_of(cached), s.entries);
    } else {
        let found = full_scan(s.entries, query);
        lemma_scan_length(s.entries, query);
        lemma_scan_drawn(s.entries, query);
        lemma_top_drawn(found, max);
        lemma_drawn_compose(entries_of(out), entries_of(found), s.entries);
        let after = search_state(s, query, max);
        assert(after.last_results == out);
        assert(in_order(out, rank_rule())) by {
            assert forall|i: int, j: int| 0 <= i < j < out.len() implies !rank_rule()(
                #[trigger] out[j],
                #[trigger] out[i],
            ) by {}
        }
    }
    lemma_distinct_is_indexed(out, s.entries);
    let more = added(s, batch);
    lemma_drawn_grow(entries_of(s.last_results), s.entries, survivors(batch, s.rules));
    assert forall|k: int| 0 <= k < more.last_results.len() implies more.entries.contains(
        (#[trigger] more.last_results[k]).entry,
    ) by {
        let e = s.last_results[k].entry;
        assert(s.entries.contains(e));
        let w = choose|w: int| 0 <= w < s.entries.len() && s.entries[w] == e;
        assert(more.entries[w] == e);
    }
}

/// Matches that stand for slots of the index are matches of indexed
/// entries.
pub proof fn lemma_distinct_is_indexed(results: Seq<MatchView>, entries: Seq<EntryView>)
    requires
        from_distinct_slots(results, entries),
    ensures
        all_indexed(results, entries),
{
    lemma_drawn_contains(entries_of(results), entries);
    assert forall|k: int| 0 <= k < results.len() implies entries.contains((#[trigger] results[k]).entry) by {
        assert(entries_of(results)[k] == results[k].entry);
    }
}

/// What browsing shows is made of the first `max` entries, ordered by name.
pub proof fn lemma_browse(entries: Seq<EntryView>, max: nat)
    requires
        entries.len() <= usize::MAX,
    ensures
        browse(entries, max).len() == if max < entries.len() {
            max
        } else {
            entries.len()
        },
        forall|k: int|
            0 <= k < browse(entries, max).len() ==> {
                let m = #[trigger] browse(entries, max)[k];
                m == plain_match(m.entry) && upto(entries, max).contains(m.entry)
            },
        forall|i: int, j: int|
            0 <= i < j < browse(entries, max).len() ==> !text_before(
                (#[trigger] browse(entries, max)[j]).entry.name,
                (#[trigger] browse(entries, max)[i]).entry.name,
            ),
        forall|k: int|
            0 <= k < upto(entries, max).len() ==> browse(entries, max).contains(
                plain_match(#[trigger] upto(entries, max)[k]),
            ),
{
    lemma_name_rule();
    let shown = upto(entries, max);
    lemma_stable_sorted(shown, name_rule());
    let sorted = stable_sorted(shown, name_rule());
    let out = browse(entries, max);
    assert forall|i: int, j: int| 0 <= i < j < out.len() implies !text_before(
        (#[trigger] out[j]).entry.name,
        (#[trigger] out[i]).entry.name,
    ) by {
        assert(!name_rule()(sorted[j], sorted[i]));
    }
    assert forall|k: int| 0 <= k < shown.len() implies out.contains(plain_match(#[trigger] shown[k])) by {
        assert(sorted.contains(shown[k]));
        let w = choose|w: int| 0 <= w < sorted.len() && sorted[w] == shown[k];
        assert(out[w] == plain_match(shown[k]));
    }
}

/// What every search result satisfies: it is never longer than asked for;
/// for the empty query it is the first entries by name; for any other query
/// each result is the fresh match of its entry and the results stand in rank
/// order; and on the incremental path each result's entry stood in the cache.
pub proof fn lemma_search_result(s: IndexView, query: Seq<char>, max: nat)
    requires
        s.fits(),
    ensures
        search_result(s, query, max).len() <= max,
        query.len() == 0 ==> search_result(s, query, max).len() == (if max < s.entries.len() {
            max
        } else {
            s.entries.len()
        }),
        query.len() == 0 ==> forall|i: int, j: int|
            0 <= i < j < search_result(s, query, max).len() ==> !text_before(
                (#[trigger] search_result(s, query, max)[j]).entry.name,
                (#[trigger] search_result(s, query, max)[i]).entry.name,
            ),
        query.len() > 0 ==> forall|k: int|
            0 <= k < search_result(s, query, max).len() ==> {
                let m = #[trigger] search_result(s, query, max)[k];
                match_of(m.entry, query) == Some(m)
            },
        query.len() > 0 ==> in_order(search_result(s, query, max), rank_rule()),
        query.len() > 0 && !refines(s, query, max) ==> forall|k: int|
            0 <= k < search_result(s, query, max).len() ==> s.entries.contains(
                (#[trigger] search_result(s, query, max)[k]).entry,
            ),
        refines(s, query, max) ==> forall|k: int|
            0 <= k < search_result(s, query, max).len() ==> holds_entry(
                s.last_results,
                (#[trigger] search_result(s, query, max)[k]).entry,
            ),
{
    let out = search_result(s, query, max);
    if query.len() == 0 {
        lemma_browse(s.entries, max);
    } else if refines(s, query, max) {
        let cached = upto(s.last_results, 2 * max);
        let found = refinement(s, query, max);
        lemma_rescored_length(cached, query);
        lemma_rescored_is_fresh(cached, query);
        lemma_top_ranked(found, max);
        assert forall|k: int| 0 <= k < out.len() implies ({
            let m = #[trigger] out[k];
            match_of(m.entry, query) == Some(m)
        }) && holds_entry(s.last_results, out[k].entry) by {
            let m = out[k];
            assert(found.contains(m));
            let w = choose|w: int| 0 <= w < found.len() && found[w] == m;
            let c = choose|c: MatchView| #[trigger] cached.contains(c) && c.entry == found[w].entry;
            let v = choose|v: int| 0 <= v < cached.len() && cached[v] == c;
            assert(s.last_results[v] == c);
            assert(s.last_results.contains(c));
        }
    } else {
        let found = full_scan(s.entries, query);
        lemma_scan_length(s.entries, query);
        lemma_scan_is_fresh(s.entries, query);
        lemma_top_ranked(found, max);
        assert forall|k: int| 0 <= k < out.len() implies ({
            let m = #[trigger] out[k];
            match_of(m.entry, query) == Some(m)
        }) && s.entries.contains(out[k].entry) by {
            let m = out[k];
            assert(found.contains(m));
            let w = choose|w: int| 0 <= w < found.len() && found[w] == m;
        }
    }
}

/// A scan reports at most one match per entry.
pub proof fn lemma_scan_length(entries: Seq<EntryView>, query: Seq<char>)
    ensures
        full_scan(entries, query).len() <= entries.len(),
    decreases entries.len(),
{
    if entries.len() > 0 {
        lemma_scan_length(entries.drop_last(), query);
    }
}

/// A rescoring reports at most one match per cached result.
pub proof fn lemma_rescored_length(cached: Seq<MatchView>, query: Seq<char>)
    ensures
        rescored(cached, query).len() <= cached.len(),
    decreases cached.len(),
{
    if cached.len() > 0 {
        lemma_rescored_length(cached.drop_last(), query);
    }
}

/// The index stays small enough to be held in memory over a search.
pub proof fn lemma_search_state_fits(s: IndexView, query: Seq<char>, max: nat)
    requires
        s.fits(),
    ensures
        search_state(s, query, max).fits(),
{
    lemma_scan_length(s.entries, query);
    lemma_top_ranked(full_scan(s.entries, query), max);
}

/// Searching twice for the same query, with nothing added in between, gives
/// the same results in the same order, and the second search leaves the
/// index as the first left it.
pub proof fn law_search_is_idempotent(s: IndexView, query: Seq<char>, max: nat)
    requires
        s.fits(),
    ensures
        search_result(search_state(s, query, max), query, max) == search_result(s, query, max),
        search_state(search_state(s, query, max), query, max) == search_state(s, query, max),
{
    if query.len() == 0 || refines(s, query, max) {
    } else {
        let found = full_scan(s.entries, query);
        let first = top_ranked(found, max);
        let after = search_state(s, query, max);
        lemma_scan_length(s.entries, query);
        lemma_scan_is_fresh(s.entries, query);
        lemma_top_ranked(found, max);
        assert(upto(first, 2 * max) == first);
        assert forall|k: int| 0 <= k < first.len() implies rescorer(query)(#[trigger] first[k]) == Some(
            first[k],
        ) by {
            let m = first[k];
            assert(found.contains(m));
            let w = choose|w: int| 0 <= w < found.len() && found[w] == m;
        }
        lemma_filter_map_identity(first, rescorer(query));
        assert(refinement(after, query, max) == first);
        assert(query.is_prefix_of(query));
        if first.len() > 0 {
            lemma_rank_rule();
            lemma_stable_sorted_fixpoint(first, rank_rule());
            assert(refines(after, query, max));
            assert(top_ranked(first, max) == first);
        } else {
            assert(!refines(after, query, max));
        }
    }
}

/// The index that holds nothing and filters by the rules given.
pub open spec fn empty_index(rules: Seq<Seq<char>>) -> IndexView {
    IndexView { entries: Seq::empty(), last_query: Seq::empty(), last_results: Seq::empty(), rules }
}

/// The index that holds nothing is in order.
pub proof fn lemma_empty_index_ok(rules: Seq<Seq<char>>)
    ensures
        empty_index(rules).fits(),
        empty_index(rules).cache_ok(),
{
    lemma_nothing_drawn(Seq::empty());
}

/// A copy of a list of entries with the same contents.
pub fn clone_entries(v: &Vec<FileEntry>) -> (r: Vec<FileEntry>)
    ensures
        entry_views(r@) == entry_views(v@),
{
    let mut out: Vec<FileEntry> = Vec::new();
    let mut i: usize = 0;
    while i < v.len()
        invariant
            i <= v.len(),
            out@.len() == i,
            forall|k: int| 0 <= k < i ==> (#[trigger] out@[k])@ == v@[k]@,
        decreases v.len() - i,
    {
        out.push(v[i].clone());
        i += 1;
    }
    assert(entry_views(out@) =~= entry_views(v@));
    out
}

/// The shared store of indexed entries with the cache of the last full scan.
pub struct SearchIndex {
    entries: Vec<FileEntry>,
    last_query: String,
    last_results: Vec<MatchResult>,
    config: Config,
}

impl View for SearchIndex {
    type V = IndexView;

    closed spec fn view(&self) -> IndexView {
        IndexView {
            entries: entry_views(self.entries@),
            last_query: self.last_query@,
            last_results: match_views(self.last_results@),
            rules: texts(self.config.listers.fuzzy.ignore_patterns@),
        }
    }
}

impl Clone for SearchIndex {
    /// An index of its own that holds what this one holds.
    fn clone(&self) -> (r: Self)
        ensures
            r@ == self@,
    {
        SearchIndex {
            entries: clone_entries(&self.entries),
            last_query: self.last_query.clone(),
            last_results: clone_matches(&self.last_results),
            config: self.config.clone(),
        }
    }
}

impl SearchIndex {
    /// An empty index that filters by the ignore rules of `config`.
    pub fn new(config: Config) -> (s: Self)
        ensures
            s@ == empty_index(config@.ignore_patterns),
            s@.fits(),
            s@.cache_ok(),
    {
        let s = SearchIndex {
            entries: Vec::new(),
            last_query: String::new(),
            last_results: Vec::new(),
            config,
        };
        assert(entry_views(s.entries@) =~= Seq::<EntryView>::empty());
        assert(match_views(s.last_results@) =~= Seq::<MatchView>::empty());
        proof {
            lemma_empty_index_ok(config@.ignore_patterns);
        }
        s
    }

    /// An index is always small enough to be held in memory.
    pub proof fn lemma_fits(&self)
        ensures
            self@.fits(),
    {
        vstd::std_specs::vec::axiom_spec_len(&self.entries);
        vstd::std_specs::vec::axiom_spec_len(&self.last_results);
        assert(entry_views(self.entries@).len() == self.entries.len());
        assert(match_views(self.last_results@).len() == self.last_results.len());
    }

    /// Whether any configured ignore rule, tried in order, excludes the path.
    pub fn should_ignore_path(&self, path: &str) -> (r: bool)
        ensures
            r == is_ignored(self@.rules, path@),
    {
        any_rule_matches(&self.config.listers.fuzzy.ignore_patterns, path)
    }

    /// How many entries are indexed.
    pub fn len(&self) -> (n: usize)
        ensures
            n == self@.entries.len(),
    {
        self.entries.len()
    }

    /// The query of the last full scan.
    pub fn last_query(&self) -> (q: &str)
        ensures
            q@ == self@.last_query,
    {
        self.last_query.as_str()
    }

    /// Appends the entries of the batch that no ignore rule excludes, in
    /// their order, and says whether any was added. The cache is untouched.
    pub fn add_entries(&mut self, new_entries: Vec<FileEntry>) -> (any: bool)
        ensures
            final(self)@ == added(old(self)@, entry_views(new_entries@)),
            any == (survivors(entry_views(new_entries@), old(self)@.rules).len() > 0),
            old(self)@.cache_ok() ==> final(self)@.cache_ok(),
    {
        let ghost batch = entry_views(new_entries@);
        proof {
            self.lemma_fits();
            if self@.cache_ok() {
                law_cache_stays_fresh(self@, Seq::empty(), 0, batch);
            }
        }
        let ghost rules = self@.rules;
        let ghost held = self@.entries;
        let mut filtered: Vec<FileEntry> = Vec::new();
        let mut i: usize = 0;
        assert(batch.take(0).filter_map(keeper(rules)) =~= Seq::<EntryView>::empty());
        assert(entry_views(filtered@) =~= Seq::<EntryView>::empty());
        while i < new_entries.len()
            invariant
                i <= new_entries.len(),
                batch == entry_views(new_entries@),
                rules == self@.rules,
                *self == *old(self),
                entry_views(filtered@) == batch.take(i as int).filter_map(keeper(rules)),
            decreases new_entries.len() - i,
        {
            let ghost before = filtered@;
            let entry = &new_entries[i];
            proof {
                batch.lemma_filter_map_take_succ(keeper(rules), i as int);
            }
            if !self.should_ignore_path(entry.path()) {
                filtered.push(entry.clone());
                assert(entry_views(filtered@) =~= entry_views(before).push(entry@));
            }
            i += 1;
        }
        assert(batch.take(batch.len() as int) =~= batch);
        if filtered.len() == 0 {
            assert(held + survivors(batch, rules) =~= held);
            return false;
        }
        let ghost kept = filtered@;
        let ghost start = self.entries@;
        self.entries.append(&mut filtered);
        assert(entry_views(self.entries@) =~= entry_views(start) + entry_views(kept));
        true
    }

    /// Searches the index for `query` and returns at most `max_results`
    /// matches.
    ///
    /// The empty query lists the first `max_results` entries by display
    /// name. A query that extends the cached one is answered from the first
    /// `2 * max_results` cached results where any of them still matches.
    /// Every other query scans all entries, and that result becomes the
    /// cache. Matches are ranked by score, then by shorter path; equal ranks
    /// keep the order in which they were found.
    pub fn search(&mut self, query: &str, max_results: usize) -> (r: Vec<MatchResult>)
        ensures
            match_views(r@) == search_result(old(self)@, query@, max_results as nat),
            final(self)@ == search_state(old(self)@, query@, max_results as nat),
            final(self)@.fits(),
            r@.len() <= max_results,
            query@.len() == 0 ==> r@.len() == (if max_results < old(self)@.entries.len() {
                max_results as int
            } else {
                old(self)@.entries.len() as int
            }),
            query@.len() == 0 ==> forall|i: int, j: int|
                0 <= i < j < r@.len() ==> !text_before(
                    (#[trigger] r@[j])@.entry.name,
                    (#[trigger] r@[i])@.entry.name,
                ),
            query@.len() > 0 ==> forall|k: int|
                0 <= k < r@.len() ==> match_of((#[trigger] r@[k])@.entry, query@) == Some(r@[k]@),
            query@.len() > 0 ==> forall|i: int, j: int|
                0 <= i < j < r@.len() ==> !ranks_before((#[trigger] r@[j])@, (#[trigger] r@[i])@),
            old(self)@.cache_ok() ==> final(self)@.cache_ok() && from_distinct_slots(
                match_views(r@),
                old(self)@.entries,
            ) && all_indexed(match_views(r@), old(self)@.entries),
    {
        let ghost s = self@;
        let ghost max = max_results as nat;
        proof {
            self.lemma_fits();
            lemma_search_result(s, query@, max);
            lemma_search_state_fits(s, query@, max);
            if s.cache_ok() {
                law_cache_stays_fresh(s, query@, max, Seq::empty());
            }
        }
        if query.is_empty() {
            let out = browse_entries(&self.entries, max_results);
            proof {
                lemma_views_index(out@, search_result(s, query@, max));
            }
            return out;
        }
        match strip_prefix(query, self.last_query.as_str()) {
            Some(rest) => {
                assert(self.last_query@.is_prefix_of(query@)) by {
                    assert(query@.subrange(0, self.last_query@.len() as int) =~= self.last_query@);
                }
                let refined = rescore(&self.last_results, doubled(max_results), query);
                proof {
                    assert(upto(s.last_results, doubled_spec(max)) == upto(s.last_results, 2 * max));
                }
                if refined.len() > 0 {
                    let out = rank_results(&refined, max_results);
                    proof {
                        lemma_views_index(out@, search_result(s, query@, max));
                    }
                    return out;
                }
            },
            None => {},
        }
        let found = par_scan(&self.entries, chunk_size(self.entries.len()), query);
        proof {
            lemma_chunked_scan(s.entries, chunk_size_spec(s.entries.len()), query@);
        }
        let out = rank_results(&found, max_results);
        self.last_query = query.to_owned();
        self.last_results = clone_matches(&out);
        proof {
            lemma_views_index(out@, search_result(s, query@, max));
        }
        out
    }
}

/// Twice a count, capped at the largest machine count.
pub open spec fn doubled_spec(n: nat) -> nat {
    if 2 * n <= usize::MAX {
        2 * n
    } else {
        usize::MAX as nat
    }
}

/// The chunk size for an index of `len` entries.
pub open spec fn chunk_size_spec(len: nat) -> nat {
    if len / (WORKER_THREADS as nat) > CHUNK_SIZE {
        len / (WORKER_THREADS as nat)
    } else {
        CHUNK_SIZE as nat
    }
}

/// The contents of a list of matches, element by element.
pub proof fn lemma_views_index(v: Seq<MatchResult>, views: Seq<MatchView>)
    requires
        match_views(v) == views,
    ensures
        v.len() == views.len(),
        forall|k: int| 0 <= k < v.len() ==> (#[trigger] v[k])@ == views[k],
{
}

} // verus!
