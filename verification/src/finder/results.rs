//! The result list of a session: the ranked results of the current query,
//! the selected row and the window of rows that is on screen.

use crate::finder::entry::{match_views, MatchResult, MatchView};
use crate::text::same_text;
use vstd::prelude::*;
use vstd::string::*;

verus! {

/// What the result list holds.
pub struct ListView {
    pub results: Seq<MatchView>,
    pub selected: nat,
    pub window_start: nat,
    pub max_visible: nat,
    pub total_indexed: nat,
    pub indexing_complete: bool,
}

/// The result list of a session.
#[derive(Debug)]
pub struct ResultList {
    results: Vec<MatchResult>,
    selected_idx: usize,
    window_start: usize,
    max_visible: usize,
    total_indexed: usize,
    indexing_complete: bool,
}

impl View for ResultList {
    type V = ListView;

    closed spec fn view(&self) -> ListView {
        ListView {
            results: match_views(self.results@),
            selected: self.selected_idx as nat,
            window_start: self.window_start as nat,
            max_visible: self.max_visible as nat,
            total_indexed: self.total_indexed as nat,
            indexing_complete: self.indexing_complete,
        }
    }
}

/// Whether two matches look the same on screen: same score, same highlighted
/// positions, same path.
pub open spec fn same_row(a: MatchView, b: MatchView) -> bool {
    a.score == b.score && a.positions == b.positions && a.entry.path == b.entry.path
}

/// Whether two result lists look the same on screen.
pub open spec fn same_rows(a: Seq<MatchView>, b: Seq<MatchView>) -> bool {
    a.len() == b.len() && forall|k: int| 0 <= k < a.len() ==> same_row(#[trigger] a[k], b[k])
}

/// The selection pulled back into a list of `len` rows.
pub open spec fn clamped(selected: nat, len: nat) -> nat {
    if len == 0 {
        0
    } else if selected < len {
        selected
    } else {
        (len - 1) as nat
    }
}

/// Where the window starts once it has followed the selection: it moves
/// down just far enough to show a selection below it, and up to a selection
/// above it.
pub open spec fn scrolled(window_start: nat, selected: nat, max_visible: nat) -> nat {
    if selected >= window_start + max_visible {
        (selected - max_visible + 1) as nat
    } else if selected < window_start {
        selected
    } else {
        window_start
    }
}

/// The list with its window moved to the selection.
pub open spec fn with_window(l: ListView) -> ListView {
    ListView { window_start: scrolled(l.window_start, l.selected, l.max_visible), ..l }
}

/// The list after new results have arrived: nothing changes where they look
/// the same as the old ones; otherwise they replace them, the selection is
/// pulled back into the list and the window follows it.
pub open spec fn after_update(l: ListView, results: Seq<MatchView>) -> ListView {
    if same_rows(l.results, results) {
        l
    } else {
        with_window(ListView { results, selected: clamped(l.selected, results.len()), ..l })
    }
}

/// The list after the selection was asked to move by `delta` rows: it moves
/// only where the target row exists, and the window follows it.
pub open spec fn after_move(l: ListView, delta: int) -> ListView {
    if 0 <= l.selected + delta < l.results.len() {
        with_window(ListView { selected: (l.selected + delta) as nat, ..l })
    } else {
        l
    }
}

/// The list with the selection and the window back at the top.
pub open spec fn at_top(l: ListView) -> ListView {
    ListView { selected: 0, window_start: 0, ..l }
}

/// The selected match, if the list has any.
pub open spec fn selected_of(l: ListView) -> Option<MatchView> {
    if l.selected < l.results.len() {
        Some(l.results[l.selected as int])
    } else {
        None
    }
}

impl ListView {
    /// The selection stands on a row (or at zero in an empty list), and a
    /// window of at least one row contains it.
    pub open spec fn wf(self) -> bool {
        &&& self.results.len() <= usize::MAX
        &&& self.selected == clamped(self.selected, self.results.len())
        &&& self.max_visible > 0 ==> self.window_start <= self.selected < self.window_start
            + self.max_visible
        &&& self.window_start <= self.selected + 1
    }
}

/// Moving the window to the selection makes a list well formed.
pub proof fn lemma_with_window_wf(l: ListView)
    requires
        l.results.len() <= usize::MAX,
        l.selected == clamped(l.selected, l.results.len()),
    ensures
        with_window(l).wf(),
{
}

/// Updates, moves and resets keep a list well formed.
pub proof fn lemma_list_steps_wf(l: ListView, results: Seq<MatchView>, delta: int)
    requires
        l.wf(),
        results.len() <= usize::MAX,
    ensures
        after_update(l, results).wf(),
        after_move(l, delta).wf(),
        at_top(l).wf(),
{
}

/// Moving the selection down twice and up once leaves it where moving it
/// down once leaves it, whenever the two downward moves find rows to go to.
pub proof fn law_net_movement(l: ListView)
    requires
        l.wf(),
        l.selected + 2 < l.results.len(),
    ensures
        after_move(after_move(after_move(l, 1), 1), -1).selected == after_move(l, 1).selected,
        selected_of(after_move(after_move(after_move(l, 1), 1), -1)) == selected_of(after_move(l, 1)),
{
}

/// Whether two lists of positions are equal.
pub fn same_positions(a: &Vec<usize>, b: &Vec<usize>) -> (r: bool)
    ensures
        r == (a@ == b@),
{
    if a.len() != b.len() {
        return false;
    }
    let mut i: usize = 0;
    while i < a.len()
        invariant
            i <= a.len(),
            a.len() == b.len(),
            forall|k: int| 0 <= k < i ==> a@[k] == b@[k],
        decreases a.len() - i,
    {
        if a[i] != b[i] {
            return false;
        }
        i += 1;
    }
    assert(a@ =~= b@);
    true
}

/// Whether two result lists look the same on screen.
pub fn rows_unchanged(a: &Vec<MatchResult>, b: &Vec<MatchResult>) -> (r: bool)
    ensures
        r == same_rows(match_views(a@), match_views(b@)),
{
    if a.len() != b.len() {
        return false;
    }
    let mut i: usize = 0;
    while i < a.len()
        invariant
            i <= a.len(),
            a.len() == b.len(),
            forall|k: int| 0 <= k < i ==> same_row(#[trigger] match_views(a@)[k], match_views(b@)[k]),
        decreases a.len() - i,
    {
        let x = &a[i];
        let y = &b[i];
        if x.score != y.score || !same_positions(&x.positions, &y.positions) || !same_text(
            x.entry.path(),
            y.entry.path(),
        ) {
            assert(!same_row(match_views(a@)[i as int], match_views(b@)[i as int]));
            return false;
        }
        i += 1;
    }
    true
}

impl ResultList {
    /// The list is well formed.
    pub open spec fn wf(&self) -> bool {
        self@.wf()
    }

    /// An empty list that shows `max_visible` rows at a time.
    pub fn new(max_visible: usize) -> (l: Self)
        ensures
            l@ == (ListView {
                results: Seq::empty(),
                selected: 0,
                window_start: 0,
                max_visible: max_visible as nat,
                total_indexed: 0,
                indexing_complete: false,
            }),
            l.wf(),
    {
        let l = ResultList {
            results: Vec::new(),
            selected_idx: 0,
            window_start: 0,
            max_visible,
            total_indexed: 0,
            indexing_complete: false,
        };
        assert(match_views(l.results@) =~= Seq::<MatchView>::empty());
        l
    }

    /// The selected match, if the list has any.
    pub fn get_selected(&self) -> (r: Option<&MatchResult>)
        ensures
            match r {
                Some(m) => selected_of(self@) == Some(m@),
                None => selected_of(self@).is_none(),
            },
    {
        if self.selected_idx < self.results.len() {
            Some(&self.results[self.selected_idx])
        } else {
            None
        }
    }

    /// Takes new results; says whether they look different from the old.
    pub fn update_results(&mut self, results: Vec<MatchResult>) -> (changed: bool)
        requires
            old(self).wf(),
        ensures
            final(self)@ == after_update(old(self)@, match_views(results@)),
            changed == !same_rows(old(self)@.results, match_views(results@)),
            final(self).wf(),
    {
        proof {
            assert(match_views(results@).len() == results.len());
            lemma_list_steps_wf(self@, match_views(results@), 0);
        }
        let changed = !rows_unchanged(&self.results, &results);
        if changed {
            self.results = results;
            let len = self.results.len();
            if len == 0 {
                self.selected_idx = 0;
            } else if self.selected_idx >= len {
                self.selected_idx = len - 1;
            }
            self.update_window();
        }
        changed
    }

    /// Moves the window so that it shows the selection.
    pub fn update_window(&mut self)
        requires
            old(self)@.results.len() <= usize::MAX,
            old(self)@.selected == clamped(old(self)@.selected, old(self)@.results.len()),
        ensures
            final(self)@ == with_window(old(self)@),
            final(self).wf(),
    {
        proof {
            lemma_with_window_wf(self@);
        }
        if self.selected_idx >= self.window_start && self.selected_idx - self.window_start
            >= self.max_visible {
            self.window_start = self.selected_idx - self.max_visible + 1;
        } else if self.selected_idx < self.window_start {
            self.window_start = self.selected_idx;
        }
    }

    /// Moves the selection by `delta` rows where the target row exists.
    pub fn move_selection(&mut self, delta: i32)
        requires
            old(self).wf(),
        ensures
            final(self)@ == after_move(old(self)@, delta as int),
            final(self).wf(),
    {
        proof {
            lemma_list_steps_wf(self@, self@.results, delta as int);
        }
        let len = self.results.len();
        if delta >= 0 {
            let step = delta as usize;
            if self.selected_idx < len && step < len - self.selected_idx {
                self.selected_idx = self.selected_idx + step;
                self.update_window();
            }
        } else {
            let wide: i64 = delta as i64;
            let back: usize = (0 - wide) as usize;
            if back <= self.selected_idx && self.selected_idx - back < len {
                self.selected_idx = self.selected_idx - back;
                self.update_window();
            }
        }
    }

    /// Puts the selection and the window back at the top.
    pub fn reset_selection(&mut self)
        requires
            old(self).wf(),
        ensures
            final(self)@ == at_top(old(self)@),
            final(self).wf(),
    {
        self.selected_idx = 0;
        self.window_start = 0;
    }

    /// Records how far indexing has come.
    pub fn set_progress(&mut self, total_indexed: usize, indexing_complete: bool)
        ensures
            final(self)@ == (ListView {
                total_indexed: total_indexed as nat,
                indexing_complete,
                ..old(self)@
            }),
    {
        self.total_indexed = total_indexed;
        self.indexing_complete = indexing_complete;
    }

    /// The results of the current query.
    pub fn results(&self) -> (r: &Vec<MatchResult>)
        ensures
            match_views(r@) == self@.results,
    {
        &self.results
    }

    /// The selected row.
    pub fn selected_idx(&self) -> (r: usize)
        ensures
            r == self@.selected,
    {
        self.selected_idx
    }

    /// The first row on screen.
    pub fn window_start(&self) -> (r: usize)
        ensures
            r == self@.window_start,
    {
        self.window_start
    }

    /// How many rows fit on screen.
    pub fn max_visible(&self) -> (r: usize)
        ensures
            r == self@.max_visible,
    {
        self.max_visible
    }

    /// How many files the walker has found so far.
    pub fn total_indexed(&self) -> (r: usize)
        ensures
            r == self@.total_indexed,
    {
        self.total_indexed
    }

    /// Whether the walker has finished.
    pub fn indexing_complete(&self) -> (r: bool)
        ensures
            r == self@.indexing_complete,
    {
        self.indexing_complete
    }
}

} // verus!
