//! The size map: how wide its columns are, how names are cut to fit, and
//! how a row is put together.

use crate::text::{chars_of, string_of};
use unicode_width::UnicodeWidthStr;
use vstd::prelude::*;
use vstd::string::*;

verus! {

/// The size map formatter's settings.
#[derive(Debug, Clone, Copy, PartialEq, Eq, Structural)]
pub struct SizeMapFormatter {
    pub show_icons: bool,
}

impl SizeMapFormatter {
    /// A size map formatter that shows icons or not.
    pub fn new(show_icons: bool) -> (f: Self)
        ensures
            f.show_icons == show_icons,
    {
        SizeMapFormatter { show_icons }
    }
}

/// A text without the ANSI escape sequences in it.
pub uninterp spec fn without_escapes(s: Seq<char>) -> Seq<char>;

/// The number of terminal columns a text takes.
pub uninterp spec fn columns(s: Seq<char>) -> nat;

/// Calls `strip_ansi_escapes::strip` and reads the bytes as UTF-8 (as the
/// empty text where they are none). The claim: the result depends on the
/// text alone.
#[verifier::external_body]
pub(crate) fn strip_ansi(s: &str) -> (r: String)
    ensures
        r@ == without_escapes(s@),
{
    String::from_utf8(strip_ansi_escapes::strip(s)).unwrap_or_default()
}

/// Calls `unicode_width::UnicodeWidthStr::width`. The claim: the width
/// depends on the text alone.
#[verifier::external_body]
pub(crate) fn text_width(s: &str) -> (w: usize)
    ensures
        w == columns(s@),
{
    s.width()
}

/// The number of columns a text takes on screen: its escape sequences take
/// none.
pub open spec fn visible_columns(s: Seq<char>) -> nat {
    columns(without_escapes(s))
}

/// The number of columns a text takes on screen.
pub fn visible_width(s: &str) -> (w: usize)
    ensures
        w == visible_columns(s@),
{
    let plain = strip_ansi(s);
    text_width(plain.as_str())
}

/// The number of columns one character takes.
pub fn char_width(c: char) -> (w: usize)
    ensures
        w == columns(seq![c]),
{
    let mut one: Vec<char> = Vec::new();
    one.push(c);
    assert(one@ =~= seq![c]);
    let s = string_of(&one);
    text_width(s.as_str())
}

/// The character that starts an escape sequence.
pub const ESCAPE: char = '\x1B';

/// How far a name has been cut.
pub struct Cut {
    /// What is kept so far.
    pub text: Seq<char>,
    /// How many columns the kept characters take.
    pub width: nat,
    /// Whether an escape sequence is being read.
    pub in_escape: bool,
    /// The escape sequence read so far.
    pub escape: Seq<char>,
    /// Whether a character did not fit any more.
    pub done: bool,
}

/// The cut after one more character: an escape sequence is kept whole and
/// takes no room; any other character is kept where it leaves room for an
/// ellipsis of three columns, and ends the cut where it does not.
pub open spec fn cut_step(c: Cut, ch: char, max: nat) -> Cut {
    if c.done {
        c
    } else if ch == ESCAPE {
        Cut { in_escape: true, escape: c.escape.push(ch), ..c }
    } else if c.in_escape {
        if ch == 'm' {
            Cut { in_escape: false, text: c.text + c.escape.push(ch), escape: Seq::empty(), ..c }
        } else {
            Cut { escape: c.escape.push(ch), ..c }
        }
    } else if c.width + columns(seq![ch]) + 3 <= max {
        Cut { text: c.text.push(ch), width: c.width + columns(seq![ch]), ..c }
    } else {
        Cut { done: true, ..c }
    }
}

/// The cut after the first `n` characters of a name.
pub open spec fn cut(name: Seq<char>, n: int, max: nat) -> Cut
    decreases n,
{
    if n <= 0 {
        Cut { text: Seq::empty(), width: 0, in_escape: false, escape: Seq::empty(), done: false }
    } else {
        cut_step(cut(name, n - 1, max), name[n - 1], max)
    }
}

/// A name cut to `max` columns: the name itself where it fits, else what
/// the cut keeps, an ellipsis, and a reset where an escape sequence was
/// left open.
pub open spec fn truncated(name: Seq<char>, max: nat) -> Seq<char> {
    if visible_columns(name) <= max {
        name
    } else {
        let c = cut(name, name.len() as int, max);
        if c.escape.len() > 0 {
            c.text + "..."@ + "\x1B[0m"@
        } else {
            c.text + "..."@
        }
    }
}

/// Cuts a name to `max_width` columns.
pub fn truncate_name(name: &str, max_width: usize) -> (r: String)
    ensures
        r@ == truncated(name@, max_width as nat),
{
    if visible_width(name) <= max_width {
        return name.to_owned();
    }
    let chars = chars_of(name);
    let ghost max = max_width as nat;
    let mut result: Vec<char> = Vec::new();
    let mut current_width: usize = 0;
    let mut in_ansi = false;
    let mut ansi_code: Vec<char> = Vec::new();
    let mut done = false;
    let mut i: usize = 0;
    while i < chars.len()
        invariant
            i <= chars@.len(),
            chars@ == name@,
            max == max_width,
            cut(name@, i as int, max) == (Cut {
                text: result@,
                width: current_width as nat,
                in_escape: in_ansi,
                escape: ansi_code@,
                done,
            }),
        decreases chars@.len() - i,
    {
        let c = chars[i];
        if done {
        } else if c == ESCAPE {
            in_ansi = true;
            ansi_code.push(c);
        } else if in_ansi {
            ansi_code.push(c);
            if c == 'm' {
                in_ansi = false;
                let ghost kept = result@;
                let ghost code = ansi_code@;
                result.append(&mut ansi_code);
                assert(result@ =~= kept + code);
            }
        } else {
            let w = char_width(c);
            let fits = match current_width.checked_add(w) {
                Some(sum) => match sum.checked_add(3) {
                    Some(with_dots) => with_dots <= max_width,
                    None => false,
                },
                None => false,
            };
            if fits {
                result.push(c);
                current_width = current_width + w;
            } else {
                done = true;
            }
        }
        i += 1;
    }
    let mut out = string_of(&result);
    out.append("...");
    if ansi_code.len() > 0 {
        out.append("\x1B[0m");
    }
    out
}

/// `n` blanks.
pub open spec fn blanks(n: nat) -> Seq<char> {
    Seq::new(n, |i: int| ' ')
}

/// `n` blanks.
pub fn spaces(n: usize) -> (r: String)
    ensures
        r@ == blanks(n as nat),
{
    proof {
        reveal_strlit(" ");
    }
    let mut out = String::new();
    let mut i: usize = 0;
    assert(out@ =~= blanks(0));
    while i < n
        invariant
            i <= n,
            out@ == blanks(i as nat),
            " "@ == seq![' '],
        decreases n - i,
    {
        out.append(" ");
        assert(out@ =~= blanks((i + 1) as nat));
        i += 1;
    }
    out
}

/// How many blanks bring `len` up to `width`.
pub open spec fn missing(width: nat, len: nat) -> nat {
    if width > len {
        (width - len) as nat
    } else {
        0
    }
}

/// A row of the size map: two blanks, the name cut to its column and
/// filled up with blanks, a blank, the size set to the right of its
/// column, two blanks, and the bar.
pub open spec fn entry_row(name: Seq<char>, size: Seq<char>, bar: Seq<char>, name_width: nat, size_width: nat) -> Seq<
    char,
> {
    let shown = truncated(name, name_width);
    "  "@ + shown + blanks(missing(name_width, visible_columns(shown))) + " "@ + blanks(
        missing(size_width, size.len()),
    ) + size + "  "@ + bar
}

/// Puts a row of the size map together.
pub fn format_entry(name: &str, size: &str, bar: &str, name_width: usize, size_width: usize) -> (r: String)
    ensures
        r@ == entry_row(name@, size@, bar@, name_width as nat, size_width as nat),
{
    let truncated_name = truncate_name(name, name_width);
    let visible_name_width = visible_width(truncated_name.as_str());
    let padding = spaces(name_width.saturating_sub(visible_name_width));
    let size_padding = spaces(size_width.saturating_sub(size.unicode_len()));
    let mut out = "  ".to_owned();
    out.append(truncated_name.as_str());
    out.append(padding.as_str());
    out.append(" ");
    out.append(size_padding.as_str());
    out.append(size);
    out.append("  ");
    out.append(bar);
    out
}

/// The smallest width of the name column.
pub const MIN_NAME_WIDTH: usize = 20;

/// The largest width of the name column.
pub const MAX_NAME_WIDTH: usize = 60;

/// The smallest width of the size column.
pub const MIN_SIZE_WIDTH: usize = 8;

/// The smallest width of the bar.
pub const MIN_BAR_WIDTH: usize = 20;

/// The blanks between the columns of a row.
pub const ROW_SPACING: usize = 6;

/// The largest of some widths, or `fallback` where there are none.
pub open spec fn widest(widths: Seq<usize>, fallback: usize) -> usize
    decreases widths.len(),
{
    if widths.len() == 0 {
        fallback
    } else if widths.len() == 1 {
        widths[0]
    } else {
        let rest = widest(widths.drop_last(), fallback);
        if widths.last() > rest {
            widths.last()
        } else {
            rest
        }
    }
}

/// The largest of some widths, or `fallback` where there are none.
pub fn max_width(widths: &Vec<usize>, fallback: usize) -> (r: usize)
    ensures
        r == widest(widths@, fallback),
{
    if widths.len() == 0 {
        return fallback;
    }
    let mut best = widths[0];
    let mut i: usize = 1;
    assert(widths@.take(1) =~= seq![widths@[0]]);
    while i < widths.len()
        invariant
            1 <= i <= widths@.len(),
            best == widest(widths@.take(i as int), fallback),
        decreases widths@.len() - i,
    {
        assert(widths@.take(i + 1).drop_last() =~= widths@.take(i as int));
        if widths[i] > best {
            best = widths[i];
        }
        i += 1;
    }
    assert(widths@.take(widths@.len() as int) =~= widths@);
    best
}

/// A number kept between two bounds.
pub open spec fn clamped(n: usize, low: usize, high: usize) -> usize {
    if n < low {
        low
    } else if n > high {
        high
    } else {
        n
    }
}

/// The widths of the name column, the size column and the bar on a
/// terminal of `term_width` columns. The name column takes the widest name
/// but no less than 20 columns and no more than `name_limit` or 60; the
/// size column takes the widest size but no less than 8; the bar takes
/// what is left of the terminal after six blanks, but no less than 20.
pub open spec fn layout(name_widths: Seq<usize>, size_widths: Seq<usize>, term_width: usize, name_limit: usize) -> (
    usize,
    usize,
    usize,
) {
    let cap = if name_limit < MAX_NAME_WIDTH {
        name_limit
    } else {
        MAX_NAME_WIDTH
    };
    let name_width = clamped(widest(name_widths, MIN_NAME_WIDTH), MIN_NAME_WIDTH, cap);
    let longest = widest(size_widths, MIN_SIZE_WIDTH);
    let size_width = if longest > MIN_SIZE_WIDTH {
        longest
    } else {
        MIN_SIZE_WIDTH
    };
    let taken = name_width + size_width + ROW_SPACING;
    let left = if term_width > taken {
        (term_width - taken) as usize
    } else {
        0usize
    };
    let bar_width = if left > MIN_BAR_WIDTH {
        left
    } else {
        MIN_BAR_WIDTH
    };
    (name_width, size_width, bar_width)
}

/// Lays out the columns of the size map. `name_limit` is the share of the
/// terminal the name column may take; it must leave room for the smallest
/// name column.
pub fn calculate_layout(name_widths: &Vec<usize>, size_widths: &Vec<usize>, term_width: usize, name_limit: usize) -> (r:
    (usize, usize, usize))
    requires
        name_limit >= MIN_NAME_WIDTH,
    ensures
        r == layout(name_widths@, size_widths@, term_width, name_limit),
{
    let cap = if name_limit < MAX_NAME_WIDTH {
        name_limit
    } else {
        MAX_NAME_WIDTH
    };
    let widest_name = max_width(name_widths, MIN_NAME_WIDTH);
    let name_width = if widest_name < MIN_NAME_WIDTH {
        MIN_NAME_WIDTH
    } else if widest_name > cap {
        cap
    } else {
        widest_name
    };
    let longest = max_width(size_widths, MIN_SIZE_WIDTH);
    let size_width = if longest > MIN_SIZE_WIDTH {
        longest
    } else {
        MIN_SIZE_WIDTH
    };
    let taken = name_width.saturating_add(size_width).saturating_add(ROW_SPACING);
    let left = term_width.saturating_sub(taken);
    let bar_width = if left > MIN_BAR_WIDTH {
        left
    } else {
        MIN_BAR_WIDTH
    };
    (name_width, size_width, bar_width)
}

/// How a bar is divided: full cells, one cell that marks the end of the
/// filled part, and empty cells.
#[derive(Debug, Clone, Copy, PartialEq, Eq, Structural)]
pub struct BarCells {
    pub full: usize,
    pub partial: usize,
    pub empty: usize,
}

/// The columns a bar keeps for the percentage after it.
pub const PERCENT_WIDTH: usize = 6;

/// Divides a bar of `width` columns of which `filled_width` cells are
/// filled: the last filled cell is the partial one.
pub fn bar_cells(width: usize, filled_width: usize) -> (r: BarCells)
    ensures
        r.full == (if filled_width > 0 {
            filled_width - 1
        } else {
            0
        }),
        r.partial == (if filled_width > 0 {
            1int
        } else {
            0
        }),
        r.empty == missing(missing(width as nat, PERCENT_WIDTH as nat), filled_width as nat),
{
    let bar_width = width.saturating_sub(PERCENT_WIDTH);
    BarCells {
        full: if filled_width > 0 {
            filled_width - 1
        } else {
            0
        },
        partial: if filled_width > 0 {
            1
        } else {
            0
        },
        empty: bar_width.saturating_sub(filled_width),
    }
}

} // verus!
