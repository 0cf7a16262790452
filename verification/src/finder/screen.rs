//! What a session puts on screen, as plain values: the rows of the result
//! list, the status line and the layout of the query line. Colours, icons
//! and file metadata are added by whoever paints them.

use crate::finder::entry::{match_views, path_len, MatchResult, MatchView};
use crate::finder::results::{ListView, ResultList};
use crate::finder::search_bar::{BarView, SearchBar};
use vstd::prelude::*;
use vstd::string::*;

verus! {

/// The columns a row keeps for everything but the path.
pub const ROW_RESERVED_COLUMNS: usize = 60;

/// The terminal lines kept for the query line, the rule and the status.
pub const RESERVED_LINES: u16 = 4;

/// The columns before the query text.
pub const QUERY_COLUMN: usize = 4;

/// One row of the result list on screen.
#[derive(Debug)]
pub struct Row {
    /// Which result the row shows.
    pub index: usize,
    /// Whether the row is the selected one.
    pub selected: bool,
    /// The file's display name.
    pub name: String,
    /// The path as shown, shortened where it is too long.
    pub shown_path: String,
}

/// What the result list shows.
#[derive(Debug)]
pub enum Listing {
    /// Nothing to show yet; the walker has found this many files so far.
    Indexing(usize),
    /// Nothing matched among this many indexed files.
    NoMatches(usize),
    /// The rows in the window.
    Rows(Vec<Row>),
}

/// The numbers of the status line.
#[derive(Debug, Clone, Copy, PartialEq, Eq, Structural)]
pub struct StatusLine {
    /// How many results the query has.
    pub total: usize,
    /// The first row shown, counting from one.
    pub first: usize,
    /// The last row shown, counting from one.
    pub last: usize,
    /// How many files the walker has found.
    pub indexed: usize,
    /// Whether the walker is still at work.
    pub indexing: bool,
}

/// How the query line is laid out.
#[derive(Debug, Clone, Copy, PartialEq, Eq, Structural)]
pub struct BarLayout {
    /// Whether the hint is shown in place of the query.
    pub placeholder: bool,
    /// Whether the cursor mark is shown after the query.
    pub cursor_mark: bool,
    /// The terminal column of the cursor.
    pub cursor_column: u16,
}

/// The widest path a row shows unshortened.
pub open spec fn path_budget(width: u16) -> int {
    if width > ROW_RESERVED_COLUMNS {
        width - ROW_RESERVED_COLUMNS
    } else {
        0
    }
}

/// A long path in short: paths of one or two components stay whole; longer
/// ones keep the first component, the parent and the file's name, with an
/// ellipsis where components were left out.
pub open spec fn shortened(path: Seq<char>, parts: Seq<Seq<char>>, name: Seq<char>) -> Seq<char> {
    if parts.len() <= 2 {
        path
    } else if parts.len() == 3 {
        parts[0] + "/"@ + parts[1] + "/"@ + name
    } else {
        parts[0] + "/"@ + "..."@ + "/"@ + parts[parts.len() - 2] + "/"@ + name
    }
}

/// The components of a path as `std::path::Path::components` cuts it, each
/// as text.
pub uninterp spec fn components_of(path: Seq<char>) -> Seq<Seq<char>>;

/// Calls `std::path::Path::components` on the path and turns each component
/// into a string. The claim: the components depend on the path alone, cut
/// by the path rules of the platform the library is built for.
#[verifier::external_body]
pub(crate) fn path_components(path: &str) -> (parts: Vec<String>)
    ensures
        crate::text::texts(parts@) == components_of(path@),
{
    std::path::Path::new(path).components().map(
        |c| c.as_os_str().to_string_lossy().into_owned(),
    ).collect()
}

/// Shortens a path given its components and the file's name.
pub fn shorten_path(path: &str, parts: &Vec<String>, name: &str) -> (r: String)
    ensures
        r@ == shortened(path@, crate::text::texts(parts@), name@),
{
    let n = parts.len();
    if n <= 2 {
        return path.to_owned();
    }
    let mut out = parts[0].clone();
    out.append("/");
    if n > 3 {
        out.append("...");
        out.append("/");
    }
    out.append(parts[n - 2].as_str());
    out.append("/");
    out.append(name);
    out
}

/// The path of a match as a row of `width` columns shows it: the path
/// itself where it fits beside the other columns, else the path shortened
/// along its components.
pub open spec fn shown_as(m: MatchView, width: u16) -> Seq<char> {
    if path_len(m.entry) > path_budget(width) {
        shortened(m.entry.path, components_of(m.entry.path), m.entry.name)
    } else {
        m.entry.path
    }
}

/// The path of a match as a row of `width` columns shows it.
pub fn shown_path(m: &MatchResult, width: u16) -> (r: String)
    ensures
        r@ == shown_as(m@, width),
{
    let budget = (width as usize).saturating_sub(ROW_RESERVED_COLUMNS);
    if m.entry.path_len() > budget {
        let parts = path_components(m.entry.path());
        shorten_path(m.entry.path(), &parts, m.entry.name())
    } else {
        m.entry.path().to_owned()
    }
}

/// One past the last result in the window.
pub open spec fn window_end(l: ListView) -> nat {
    if l.window_start + l.max_visible < l.results.len() {
        l.window_start + l.max_visible
    } else {
        l.results.len()
    }
}

/// How many rows the window shows.
pub open spec fn window_rows(l: ListView) -> nat {
    if l.window_start < window_end(l) {
        (window_end(l) - l.window_start) as nat
    } else {
        0
    }
}

/// Whether `row` is row `k` of the window of `l` at `width` columns.
pub open spec fn is_row(row: Row, l: ListView, k: int, width: u16) -> bool {
    let at = l.window_start + k;
    &&& row.index == at
    &&& row.selected == (at == l.selected)
    &&& row.name@ == l.results[at].entry.name
    &&& row.shown_path@ == shown_as(l.results[at], width)
}

/// Whether `listing` is what the list `l` shows at `width` columns: a note
/// where there are no results, else the rows of the window in order.
pub open spec fn is_listing(listing: Listing, l: ListView, width: u16) -> bool {
    match listing {
        Listing::Indexing(found) => l.results.len() == 0 && !l.indexing_complete && found
            == l.total_indexed,
        Listing::NoMatches(indexed) => l.results.len() == 0 && l.indexing_complete && indexed
            == l.total_indexed,
        Listing::Rows(rows) => l.results.len() > 0 && rows@.len() == window_rows(l) && forall|k: int|
            0 <= k < rows@.len() ==> is_row(#[trigger] rows@[k], l, k, width),
    }
}

/// The status line of a list of which `available` rows fit on screen.
pub open spec fn status_of(l: ListView, available: nat) -> StatusLine {
    StatusLine {
        total: l.results.len() as usize,
        first: (if l.window_start + 1 <= usize::MAX {
            l.window_start + 1
        } else {
            usize::MAX as nat
        }) as usize,
        last: (if l.window_start + available < l.results.len() {
            l.window_start + available
        } else {
            l.results.len()
        }) as usize,
        indexed: l.total_indexed as usize,
        indexing: !l.indexing_complete,
    }
}

/// The layout of a query line.
pub open spec fn layout_of(bar: BarView) -> BarLayout {
    BarLayout {
        placeholder: bar.query.len() == 0,
        cursor_mark: bar.query.len() > 0 && bar.cursor == bar.query.len(),
        cursor_column: ((bar.cursor + QUERY_COLUMN) % 0x1_0000) as u16,
    }
}

/// How many result rows fit on a terminal of `height` lines.
pub fn available_rows(height: u16) -> (r: usize)
    ensures
        r == if height > RESERVED_LINES {
            height - RESERVED_LINES
        } else {
            0
        },
{
    height.saturating_sub(RESERVED_LINES) as usize
}

impl ResultList {
    /// What the list shows at `width` columns.
    pub fn render(&self, width: u16) -> (listing: Listing)
        requires
            self.wf(),
        ensures
            is_listing(listing, self@, width),
    {
        let results = self.results();
        let n = results.len();
        assert(n == self@.results.len());
        if n == 0 {
            return if self.indexing_complete() {
                Listing::NoMatches(self.total_indexed())
            } else {
                Listing::Indexing(self.total_indexed())
            };
        }
        let start = self.window_start();
        let room = self.max_visible();
        let end = if start < n && room < n - start {
            start + room
        } else {
            n
        };
        assert(end == window_end(self@));
        assert(start <= end);
        let mut rows: Vec<Row> = Vec::new();
        let mut at = start;
        while at < end
            invariant
                start <= end <= n,
                n == results@.len(),
                match_views(results@) == self@.results,
                start == self@.window_start,
                start <= at <= end,
                rows@.len() == at - start,
                forall|k: int| 0 <= k < rows@.len() ==> is_row(#[trigger] rows@[k], self@, k, width),
            decreases end - at,
        {
            let m = &results[at];
            let row = Row {
                index: at,
                selected: at == self.selected_idx(),
                name: m.entry.name().to_owned(),
                shown_path: shown_path(m, width),
            };
            assert(m@ == self@.results[at as int]);
            assert(is_row(row, self@, at - start, width));
            rows.push(row);
            at += 1;
        }
        Listing::Rows(rows)
    }

    /// The numbers of the status line when `available` rows fit on screen.
    pub fn status(&self, available: usize) -> (s: StatusLine)
        ensures
            s == status_of(self@, available as nat),
    {
        let n = self.results().len();
        let start = self.window_start();
        let last = if start < n && available < n - start {
            start + available
        } else {
            n
        };
        StatusLine {
            total: n,
            first: start.saturating_add(1),
            last,
            indexed: self.total_indexed(),
            indexing: !self.indexing_complete(),
        }
    }
}

impl SearchBar {
    /// How the query line is laid out.
    pub fn render(&self) -> (l: BarLayout)
        requires
            self.wf(),
        ensures
            l == layout_of(self@),
    {
        let column = self.cursor_pos() % 0x1_0000;
        let shifted = (column + QUERY_COLUMN) % 0x1_0000;
        BarLayout {
            placeholder: self.is_empty(),
            cursor_mark: self.cursor_at_end(),
            cursor_column: shifted as u16,
        }
    }
}

} // verus!
