//! The controller of an interactive session: what happens to the index, the
//! query line and the result list when batches arrive, keys are pressed and
//! time passes. The caller owns the terminal, the channel and the clock; it
//! reports what happened and does what it is told.

use crate::config::Config;
use crate::finder::entry::{entry_views, EntryView, FileEntry};
use crate::finder::index::{
    added, empty_index, law_cache_stays_fresh, lemma_distinct_is_indexed, lemma_empty_index_ok,
    search_result, search_state, survivors, IndexView, SearchIndex,
};
use crate::finder::distinct::{
    entries_of, from_distinct_slots, lemma_drawn_grow, lemma_nothing_drawn,
};
use crate::finder::keys::{Key, Modifiers};
use crate::finder::results::{
    after_move, after_update, at_top, lemma_list_steps_wf, selected_of, ListView, ResultList,
};
use crate::finder::search_bar::{edited, lemma_changes_text, BarView, SearchBar};
use vstd::prelude::*;
use vstd::string::*;

verus! {

/// Nanoseconds in a millisecond.
pub const NANOS_PER_MS: u64 = 1_000_000;

/// How long the query must rest before a search runs, in milliseconds.
pub const SEARCH_DEBOUNCE_MS: u64 = 50;

/// The least time between a render request and the repaint, in milliseconds.
pub const RENDER_DEBOUNCE_MS: u64 = 16;

/// The least time between two repaints, in milliseconds.
pub const RENDER_INTERVAL_MS: u64 = 16;

/// The least time between two drains of the channel, in milliseconds.
pub const BATCH_CHECK_INTERVAL_MS: u64 = 100;

/// How many results a session asks of the index.
pub const SESSION_MAX_RESULTS: usize = 1000;

/// How a key press ends a session, if it does.
#[derive(Debug)]
pub enum Outcome {
    /// The session goes on.
    Continue,
    /// The user left without choosing.
    Cancelled,
    /// The user chose this path.
    Committed(String),
}

/// What an outcome holds.
pub enum OutcomeView {
    Continue,
    Cancelled,
    Committed(Seq<char>),
}

impl View for Outcome {
    type V = OutcomeView;

    open spec fn view(&self) -> OutcomeView {
        match self {
            Outcome::Continue => OutcomeView::Continue,
            Outcome::Cancelled => OutcomeView::Cancelled,
            Outcome::Committed(p) => OutcomeView::Committed(p@),
        }
    }
}

/// What one turn of the loop decided.
#[derive(Debug)]
pub struct Step {
    /// Whether the session ends, and how.
    pub outcome: Outcome,
    /// Whether the screen is to be repainted now.
    pub render: bool,
}

/// What a session holds. Times are nanoseconds on the caller's monotonic
/// clock.
pub struct SessionView {
    pub index: IndexView,
    pub bar: BarView,
    pub list: ListView,
    pub last_query: Seq<char>,
    pub last_query_time: u64,
    pub last_render: u64,
    pub last_render_request: u64,
    pub last_batch_check: u64,
    pub pending_search: bool,
    pub pending_render: bool,
    pub received_new_files: bool,
}

/// The time from `since` to `now`; zero where `since` is the later.
pub open spec fn elapsed(now: u64, since: u64) -> int {
    if now >= since {
        now - since
    } else {
        0
    }
}

/// Whether it is time to drain the channel: no search is waiting and the
/// last drain is long enough ago.
pub open spec fn batch_check_is_due(s: SessionView, now: u64) -> bool {
    !s.pending_search && elapsed(now, s.last_batch_check) >= BATCH_CHECK_INTERVAL_MS * NANOS_PER_MS
}

/// The session with a repaint requested at `now`.
pub open spec fn with_render_request(s: SessionView, now: u64) -> SessionView {
    SessionView { pending_render: true, last_render_request: now, ..s }
}

/// The session after the index has been searched for the current query and
/// the list has taken the results.
pub open spec fn searched(s: SessionView) -> SessionView {
    SessionView {
        index: search_state(s.index, s.last_query, SESSION_MAX_RESULTS as nat),
        list: after_update(s.list, search_result(s.index, s.last_query, SESSION_MAX_RESULTS as nat)),
        ..s
    }
}

/// The session after one batch from the channel was offered to the index.
pub open spec fn after_batch(s: SessionView, batch: Seq<EntryView>) -> SessionView {
    SessionView {
        index: added(s.index, batch),
        received_new_files: s.received_new_files || survivors(batch, s.index.rules).len() > 0,
        ..s
    }
}

/// The session after the channel was drained at `now`: where anything was
/// added, the progress is recorded, the current query is searched again and
/// a repaint is requested.
pub open spec fn after_drain(s: SessionView, total_indexed: usize, indexing_complete: bool, now: u64) -> SessionView {
    let t = if s.received_new_files {
        with_render_request(
            searched(
                SessionView {
                    list: ListView {
                        total_indexed: total_indexed as nat,
                        indexing_complete,
                        ..s.list
                    },
                    ..s
                },
            ),
            now,
        )
    } else {
        s
    };
    SessionView { last_batch_check: now, received_new_files: false, ..t }
}

/// Whether the key press leaves the session without a choice: escape alone,
/// or `c` with control.
pub open spec fn cancels(key: Key, mods: Modifiers) -> bool {
    (key == Key::Esc && mods.is_none()) || (key == Key::Char('c') && mods.is_control())
}

/// How a key press ends the session, if it does.
pub open spec fn key_outcome(s: SessionView, key: Key, mods: Modifiers) -> OutcomeView {
    if cancels(key, mods) {
        OutcomeView::Cancelled
    } else if key == Key::Enter && mods.is_none() {
        match selected_of(s.list) {
            Some(m) => OutcomeView::Committed(m.entry.path),
            None => OutcomeView::Continue,
        }
    } else {
        OutcomeView::Continue
    }
}

/// The session after a key press at `now`. Up and down move the selection
/// and request a repaint. Any other key that does not end the session goes
/// to the query line: where it changes the text of the query, the query is
/// taken over, the debounce timer is armed and a repaint is requested;
/// where it moves the cursor alone, only a repaint is requested.
pub open spec fn after_key(s: SessionView, key: Key, mods: Modifiers, now: u64) -> SessionView {
    if cancels(key, mods) || (key == Key::Enter && mods.is_none()) {
        s
    } else if key == Key::Up && mods.is_none() {
        with_render_request(SessionView { list: after_move(s.list, -1), ..s }, now)
    } else if key == Key::Down && mods.is_none() {
        with_render_request(SessionView { list: after_move(s.list, 1), ..s }, now)
    } else {
        match edited(s.bar, key, mods) {
            Some(bar) => if bar.query != s.bar.query {
                with_render_request(
                    SessionView {
                        bar,
                        last_query: bar.query,
                        last_query_time: now,
                        pending_search: true,
                        ..s
                    },
                    now,
                )
            } else {
                with_render_request(SessionView { bar, ..s }, now)
            },
            None => s,
        }
    }
}

/// Whether a waiting search is to run now.
pub open spec fn search_is_due(s: SessionView, now: u64) -> bool {
    s.pending_search && elapsed(now, s.last_query_time) >= SEARCH_DEBOUNCE_MS * NANOS_PER_MS
}

/// The session after a due search has run: the selection is back at the
/// top, the list holds the new results and a repaint is requested.
pub open spec fn after_due_search(s: SessionView, now: u64) -> SessionView {
    if search_is_due(s, now) {
        with_render_request(
            SessionView {
                pending_search: false,
                ..searched(SessionView { list: at_top(s.list), ..s })
            },
            now,
        )
    } else {
        s
    }
}

/// Whether the screen is to be repainted now: a repaint is requested, the
/// request has rested and the last repaint is long enough ago.
pub open spec fn render_is_due(s: SessionView, now: u64) -> bool {
    s.pending_render && elapsed(now, s.last_render_request) >= RENDER_DEBOUNCE_MS * NANOS_PER_MS
        && elapsed(now, s.last_render) >= RENDER_INTERVAL_MS * NANOS_PER_MS
}

/// The session after a due repaint.
pub open spec fn after_render(s: SessionView, now: u64) -> SessionView {
    if render_is_due(s, now) {
        SessionView { last_render: now, pending_render: false, ..s }
    } else {
        s
    }
}

/// The session after the part of a turn that follows the drain: the key
/// press, then the due search, then the due repaint. A key press that ends
/// the session ends the turn at once.
pub open spec fn after_tick(s: SessionView, key: Option<(Key, Modifiers)>, now: u64) -> SessionView {
    let t = match key {
        Some((k, m)) => after_key(s, k, m, now),
        None => s,
    };
    if tick_outcome(s, key) != OutcomeView::Continue {
        t
    } else {
        after_render(after_due_search(t, now), now)
    }
}

/// How the turn ends the session, if it does.
pub open spec fn tick_outcome(s: SessionView, key: Option<(Key, Modifiers)>) -> OutcomeView {
    match key {
        Some((k, m)) => key_outcome(s, k, m),
        None => OutcomeView::Continue,
    }
}

/// Whether the turn asks for a repaint.
pub open spec fn tick_renders(s: SessionView, key: Option<(Key, Modifiers)>, now: u64) -> bool {
    let t = match key {
        Some((k, m)) => after_key(s, k, m, now),
        None => s,
    };
    tick_outcome(s, key) == OutcomeView::Continue && render_is_due(after_due_search(t, now), now)
}

/// The state in which a session over an index opens at `now`: the empty
/// query has been searched for and the list holds what was found.
pub open spec fn session_over(index: IndexView, max_visible: usize, now: u64) -> SessionView {
    searched(SessionView { index, ..fresh_session(index.rules, max_visible, now) })
}

/// The state of a fresh session at `now`.
pub open spec fn fresh_session(rules: Seq<Seq<char>>, max_visible: usize, now: u64) -> SessionView {
    SessionView {
        index: empty_index(rules),
        bar: BarView { query: Seq::empty(), cursor: 0 },
        list: ListView {
            results: Seq::empty(),
            selected: 0,
            window_start: 0,
            max_visible: max_visible as nat,
            total_indexed: 0,
            indexing_complete: false,
        },
        last_query: Seq::empty(),
        last_query_time: now,
        last_render: now,
        last_render_request: now,
        last_batch_check: now,
        pending_search: false,
        pending_render: false,
        received_new_files: false,
    }
}

/// Whether a session is in order: the cursor stands in the query, the
/// query that is searched for is the text of the query line, the selection
/// and the window fit the list, the cache of the index is what a full scan
/// left, and the results on the list stand for indexed entries, each for
/// one of its own.
pub open spec fn session_ok(s: SessionView) -> bool {
    &&& s.bar.cursor <= s.bar.query.len()
    &&& s.bar.query.len() <= usize::MAX
    &&& s.last_query == s.bar.query
    &&& s.list.wf()
    &&& s.index.fits()
    &&& s.index.cache_ok()
    &&& from_distinct_slots(s.list.results, s.index.entries)
}

/// Whether a path is that of an indexed entry.
pub open spec fn is_indexed_path(s: SessionView, path: Seq<char>) -> bool {
    exists|k: int| 0 <= k < s.index.entries.len() && (#[trigger] s.index.entries[k]).path == path
}

/// A session opens in order over an index whose cache is in order, and a
/// session over the empty index opens as the fresh session.
pub proof fn lemma_session_over(index: IndexView, max_visible: usize, now: u64)
    requires
        index.fits(),
        index.cache_ok(),
    ensures
        session_ok(session_over(index, max_visible, now)),
        index == empty_index(index.rules) ==> session_over(index, max_visible, now) == fresh_session(
            index.rules,
            max_visible,
            now,
        ),
{
    let base = SessionView { index, ..fresh_session(index.rules, max_visible, now) };
    lemma_nothing_drawn(index.entries);
    assert(session_ok(base));
    lemma_searched_ok(base);
    if index == empty_index(index.rules) {
        crate::finder::index::lemma_search_result(index, base.last_query, SESSION_MAX_RESULTS as nat);
        assert(search_result(index, base.last_query, SESSION_MAX_RESULTS as nat).len() == 0);
    }
}

/// Searching again keeps a session in order, whether the selection is put
/// back on top first or not.
pub proof fn lemma_searched_ok(s: SessionView)
    requires
        session_ok(s),
    ensures
        session_ok(searched(s)),
        session_ok(searched(SessionView { list: at_top(s.list), ..s })),
{
    let max = SESSION_MAX_RESULTS as nat;
    let out = search_result(s.index, s.last_query, max);
    law_cache_stays_fresh(s.index, s.last_query, max, Seq::empty());
    crate::finder::index::lemma_search_result(s.index, s.last_query, max);
    crate::finder::index::lemma_search_state_fits(s.index, s.last_query, max);
    lemma_list_steps_wf(s.list, out, 0);
    lemma_list_steps_wf(at_top(s.list), out, 0);
}

/// Whatever happens to a session in order leaves it in order: a batch, the
/// end of a drain, a key press, a due search, a repaint, a whole turn.
pub proof fn law_session_stays_ok(
    s: SessionView,
    batch: Seq<EntryView>,
    total_indexed: usize,
    indexing_complete: bool,
    key: Key,
    mods: Modifiers,
    pressed: Option<(Key, Modifiers)>,
    now: u64,
)
    requires
        session_ok(s),
    ensures
        added(s.index, batch).fits() ==> session_ok(after_batch(s, batch)),
        session_ok(after_drain(s, total_indexed, indexing_complete, now)),
        session_ok(after_key(s, key, mods, now)),
        session_ok(after_due_search(s, now)),
        session_ok(after_render(s, now)),
        session_ok(after_tick(s, pressed, now)),
{
    // a batch
    law_cache_stays_fresh(s.index, s.last_query, 0, batch);
    lemma_drawn_grow(entries_of(s.list.results), s.index.entries, survivors(batch, s.index.rules));
    // the end of a drain
    let told = SessionView {
        list: ListView { total_indexed: total_indexed as nat, indexing_complete, ..s.list },
        ..s
    };
    lemma_searched_ok(told);
    // a key press
    lemma_key_ok(s, key, mods, now);
    // a due search
    lemma_searched_ok(s);
    // a whole turn
    let t = match pressed {
        Some((k, m)) => after_key(s, k, m, now),
        None => s,
    };
    match pressed {
        Some((k, m)) => {
            lemma_key_ok(s, k, m, now);
        },
        None => {},
    }
    lemma_searched_ok(t);
}

/// A key press leaves a session in order.
pub proof fn lemma_key_ok(s: SessionView, key: Key, mods: Modifiers, now: u64)
    requires
        session_ok(s),
    ensures
        session_ok(after_key(s, key, mods, now)),
{
    lemma_list_steps_wf(s.list, s.list.results, 1);
    lemma_list_steps_wf(s.list, s.list.results, -1);
}

/// The path a key press commits is that of an indexed entry.
pub proof fn law_committed_path_is_indexed(s: SessionView, key: Key, mods: Modifiers)
    requires
        session_ok(s),
    ensures
        match key_outcome(s, key, mods) {
            OutcomeView::Committed(path) => is_indexed_path(s, path),
            _ => true,
        },
{
    match key_outcome(s, key, mods) {
        OutcomeView::Committed(path) => {
            let m = s.list.results[s.list.selected as int];
            lemma_distinct_is_indexed(s.list.results, s.index.entries);
            assert(s.index.entries.contains(m.entry));
            let w = choose|w: int| 0 <= w < s.index.entries.len() && s.index.entries[w] == m.entry;
            assert(s.index.entries[w].path == path);
        },
        _ => {},
    }
}

/// One interactive session.
pub struct Session {
    index: SearchIndex,
    bar: SearchBar,
    list: ResultList,
    last_query: String,
    last_query_time: u64,
    last_render: u64,
    last_render_request: u64,
    last_batch_check: u64,
    pending_search: bool,
    pending_render: bool,
    received_new_files: bool,
}

impl View for Session {
    type V = SessionView;

    closed spec fn view(&self) -> SessionView {
        SessionView {
            index: self.index@,
            bar: self.bar@,
            list: self.list@,
            last_query: self.last_query@,
            last_query_time: self.last_query_time,
            last_render: self.last_render,
            last_render_request: self.last_render_request,
            last_batch_check: self.last_batch_check,
            pending_search: self.pending_search,
            pending_render: self.pending_render,
            received_new_files: self.received_new_files,
        }
    }
}

/// Whether at least `ms` milliseconds lie between `since` and `now`.
pub fn at_least(now: u64, since: u64, ms: u64) -> (r: bool)
    ensures
        r == (elapsed(now, since) >= ms * NANOS_PER_MS),
{
    let passed = if now >= since {
        now - since
    } else {
        0
    };
    match ms.checked_mul(NANOS_PER_MS) {
        Some(limit) => passed >= limit,
        None => false,
    }
}

impl Session {
    /// The session is in order.
    pub open spec fn wf(&self) -> bool {
        session_ok(self@)
    }

    /// A session over an empty index that filters by the ignore rules of
    /// `config` and shows `max_visible` rows.
    pub fn new(config: Config, max_visible: usize, now: u64) -> (s: Self)
        ensures
            s@ == fresh_session(config@.ignore_patterns, max_visible, now),
            s.wf(),
    {
        let index = SearchIndex::new(config);
        proof {
            lemma_session_over(index@, max_visible, now);
        }
        Session::from_index(index, max_visible, now)
    }

    /// A session over the index given that shows `max_visible` rows: the
    /// empty query is searched for at once, so the list opens with the
    /// first entries by name.
    pub fn from_index(index: SearchIndex, max_visible: usize, now: u64) -> (s: Self)
        requires
            index@.cache_ok(),
        ensures
            s@ == session_over(index@, max_visible, now),
            s.wf(),
    {
        let mut index = index;
        let mut list = ResultList::new(max_visible);
        proof {
            reveal_strlit("");
            index.lemma_fits();
            lemma_session_over(index@, max_visible, now);
        }
        let results = index.search("", SESSION_MAX_RESULTS);
        list.update_results(results);
        Session {
            index,
            bar: SearchBar::new(),
            list,
            last_query: String::new(),
            last_query_time: now,
            last_render: now,
            last_render_request: now,
            last_batch_check: now,
            pending_search: false,
            pending_render: false,
            received_new_files: false,
        }
    }

    /// The query line.
    pub fn search_bar(&self) -> (r: &SearchBar)
        ensures
            r@ == self@.bar,
    {
        &self.bar
    }

    /// The result list.
    pub fn result_list(&self) -> (r: &ResultList)
        ensures
            r@ == self@.list,
    {
        &self.list
    }

    /// The index.
    pub fn index(&self) -> (r: &SearchIndex)
        ensures
            r@ == self@.index,
    {
        &self.index
    }

    /// Whether it is time to drain the channel.
    pub fn batch_check_due(&self, now: u64) -> (r: bool)
        ensures
            r == batch_check_is_due(self@, now),
    {
        !self.pending_search && at_least(now, self.last_batch_check, BATCH_CHECK_INTERVAL_MS)
    }

    /// Offers one batch from the channel to the index.
    pub fn add_batch(&mut self, batch: Vec<FileEntry>)
        requires
            old(self).wf(),
        ensures
            final(self)@ == after_batch(old(self)@, entry_views(batch@)),
            final(self).wf(),
    {
        let ghost before = self@;
        if self.index.add_entries(batch) {
            self.received_new_files = true;
        }
        proof {
            self.index.lemma_fits();
            law_session_stays_ok(
                before,
                entry_views(batch@),
                0,
                false,
                Key::Other,
                Modifiers { shift: false, control: false, alt: false, extra: false },
                None,
                0,
            );
        }
    }

    /// Ends a drain of the channel; the counters are the walker's.
    pub fn finish_batch_check(&mut self, total_indexed: usize, indexing_complete: bool, now: u64)
        requires
            old(self).wf(),
        ensures
            final(self)@ == after_drain(old(self)@, total_indexed, indexing_complete, now),
            final(self).wf(),
    {
        proof {
            law_session_stays_ok(
                self@,
                Seq::empty(),
                total_indexed,
                indexing_complete,
                Key::Other,
                Modifiers { shift: false, control: false, alt: false, extra: false },
                None,
                now,
            );
        }
        if self.received_new_files {
            self.list.set_progress(total_indexed, indexing_complete);
            let results = self.index.search(self.last_query.as_str(), SESSION_MAX_RESULTS);
            self.list.update_results(results);
            self.pending_render = true;
            self.last_render_request = now;
        }
        self.last_batch_check = now;
        self.received_new_files = false;
    }

    /// Applies a key press and says whether it ends the session.
    pub fn handle_key(&mut self, key: Key, modifiers: Modifiers, now: u64) -> (outcome: Outcome)
        requires
            old(self).wf(),
        ensures
            final(self)@ == after_key(old(self)@, key, modifiers, now),
            outcome@ == key_outcome(old(self)@, key, modifiers),
            cancels(key, modifiers) ==> outcome@ == OutcomeView::Cancelled && final(self)@ == old(
                self,
            )@,
            final(self)@.bar.query == old(self)@.bar.query ==> final(self)@.pending_search == old(
                self,
            )@.pending_search && final(self)@.last_query_time == old(self)@.last_query_time,
            match outcome@ {
                OutcomeView::Committed(path) => is_indexed_path(old(self)@, path),
                _ => true,
            },
            final(self).wf(),
    {
        proof {
            lemma_key_ok(self@, key, modifiers, now);
            law_committed_path_is_indexed(self@, key, modifiers);
            lemma_changes_text(self@.bar, key, modifiers);
        }
        let plain = modifiers.plain();
        match key {
            Key::Esc => {
                if plain {
                    return Outcome::Cancelled;
                }
            },
            Key::Char(c) => {
                if c == 'c' && modifiers.only_control() {
                    return Outcome::Cancelled;
                }
            },
            Key::Enter => {
                if plain {
                    return match self.list.get_selected() {
                        Some(m) => Outcome::Committed(m.entry.path().to_owned()),
                        None => Outcome::Continue,
                    };
                }
            },
            Key::Up => {
                if plain {
                    self.list.move_selection(-1);
                    self.pending_render = true;
                    self.last_render_request = now;
                    return Outcome::Continue;
                }
            },
            Key::Down => {
                if plain {
                    self.list.move_selection(1);
                    self.pending_render = true;
                    self.last_render_request = now;
                    return Outcome::Continue;
                }
            },
            _ => {},
        }
        if self.bar.handle_input(key, modifiers) {
            let text_changed = match key {
                Key::Char(_) => true,
                Key::Backspace => true,
                _ => false,
            };
            if text_changed {
                self.last_query = self.bar.query();
                self.last_query_time = now;
                self.pending_search = true;
            }
            self.pending_render = true;
            self.last_render_request = now;
        }
        Outcome::Continue
    }

    /// Runs the waiting search where the query has rested long enough.
    pub fn run_due_search(&mut self, now: u64)
        requires
            old(self).wf(),
        ensures
            final(self)@ == after_due_search(old(self)@, now),
            final(self).wf(),
    {
        proof {
            lemma_searched_ok(self@);
        }
        if self.pending_search && at_least(now, self.last_query_time, SEARCH_DEBOUNCE_MS) {
            let results = self.index.search(self.last_query.as_str(), SESSION_MAX_RESULTS);
            self.list.reset_selection();
            self.list.update_results(results);
            self.pending_search = false;
            self.pending_render = true;
            self.last_render_request = now;
        }
    }

    /// Whether the screen is to be repainted now.
    pub fn render_due(&self, now: u64) -> (r: bool)
        ensures
            r == render_is_due(self@, now),
    {
        self.pending_render && at_least(now, self.last_render_request, RENDER_DEBOUNCE_MS)
            && at_least(now, self.last_render, RENDER_INTERVAL_MS)
    }

    /// Records a repaint where one is due, and says whether it is.
    pub fn take_render(&mut self, now: u64) -> (r: bool)
        requires
            old(self).wf(),
        ensures
            r == render_is_due(old(self)@, now),
            final(self)@ == after_render(old(self)@, now),
            final(self).wf(),
    {
        if self.render_due(now) {
            self.last_render = now;
            self.pending_render = false;
            true
        } else {
            false
        }
    }

    /// The part of a turn of the loop that follows the drain: the key press
    /// if there was one, then the due search, then the due repaint.
    pub fn tick(&mut self, key: Option<(Key, Modifiers)>, now: u64) -> (step: Step)
        requires
            old(self).wf(),
        ensures
            final(self)@ == after_tick(old(self)@, key, now),
            step.outcome@ == tick_outcome(old(self)@, key),
            step.render == tick_renders(old(self)@, key, now),
            final(self).wf(),
    {
        let outcome = match key {
            Some((k, m)) => self.handle_key(k, m, now),
            None => Outcome::Continue,
        };
        match outcome {
            Outcome::Continue => {
                self.run_due_search(now);
                let render = self.take_render(now);
                Step { outcome: Outcome::Continue, render }
            },
            other => Step { outcome: other, render: false },
        }
    }
}

/// The entry point of the finder: the index sessions are started from and
/// the configuration it was made for.
pub struct FuzzyLister {
    index: SearchIndex,
    config: Config,
}

impl FuzzyLister {
    /// A finder configured by `config`, with an index that holds nothing
    /// yet.
    pub fn new(config: Config) -> (l: Self)
        ensures
            l.rules() == config@.ignore_patterns,
            l.wf(),
    {
        let index = SearchIndex::new(config.clone());
        FuzzyLister { index, config }
    }

    /// The ignore rules the finder filters by.
    pub closed spec fn rules(&self) -> Seq<Seq<char>> {
        self.config@.ignore_patterns
    }

    /// What the finder's index holds.
    pub closed spec fn index_view(&self) -> IndexView {
        self.index@
    }

    /// The finder's index holds nothing and filters by the finder's rules.
    pub open spec fn wf(&self) -> bool {
        self.index_view() == empty_index(self.rules())
    }

    /// The configuration.
    pub fn config(&self) -> (c: &Config)
        ensures
            c@.ignore_patterns == self.rules(),
    {
        &self.config
    }

    /// Starts a session that shows `max_visible` rows, over a copy of the
    /// finder's index.
    pub fn start(&self, max_visible: usize, now: u64) -> (s: Session)
        requires
            self.wf(),
        ensures
            s@ == fresh_session(self.rules(), max_visible, now),
            s.wf(),
    {
        let index = self.index.clone();
        proof {
            lemma_empty_index_ok(self.rules());
            lemma_session_over(index@, max_visible, now);
        }
        Session::from_index(index, max_visible, now)
    }
}

} // verus!
