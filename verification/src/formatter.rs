//! Settings of the long listing and the octal form of a file mode.

use crate::sizemap::{max_width, missing, widest};
use crate::text::{concat2, join_texts, joined, texts};
use vstd::prelude::*;
use vstd::string::*;

verus! {

/// The long formatter's settings.
#[derive(Debug)]
pub struct LongFormatter {
    pub show_icons: bool,
    pub permission_format: String,
    pub hide_group: bool,
    pub relative_dates: bool,
}

impl LongFormatter {
    /// A long formatter with the settings given.
    pub fn new(show_icons: bool, permission_format: String, hide_group: bool, relative_dates: bool) -> (f:
        Self)
        ensures
            f.show_icons == show_icons,
            f.permission_format@ == permission_format@,
            f.hide_group == hide_group,
            f.relative_dates == relative_dates,
    {
        LongFormatter { show_icons, permission_format, hide_group, relative_dates }
    }
}

/// The character of an octal digit.
pub open spec fn octal_char(d: u32) -> char {
    if d == 0 {
        '0'
    } else if d == 1 {
        '1'
    } else if d == 2 {
        '2'
    } else if d == 3 {
        '3'
    } else if d == 4 {
        '4'
    } else if d == 5 {
        '5'
    } else if d == 6 {
        '6'
    } else {
        '7'
    }
}

/// The octal digit of `mode` at `place`, counting from the right.
pub open spec fn octal_digit(mode: u32, place: u32) -> u32 {
    (mode >> (3 * place) as u32) & 7
}

/// The permission bits of a mode as four octal digits.
pub open spec fn octal_mode(mode: u32) -> Seq<char> {
    seq![
        octal_char(octal_digit(mode, 3)),
        octal_char(octal_digit(mode, 2)),
        octal_char(octal_digit(mode, 1)),
        octal_char(octal_digit(mode, 0)),
    ]
}

/// The text of an octal digit.
pub fn digit_text(d: u32) -> (r: &'static str)
    ensures
        r@ == seq![octal_char(d)],
{
    proof {
        reveal_strlit("0");
        reveal_strlit("1");
        reveal_strlit("2");
        reveal_strlit("3");
        reveal_strlit("4");
        reveal_strlit("5");
        reveal_strlit("6");
        reveal_strlit("7");
    }
    let r = if d == 0 {
        "0"
    } else if d == 1 {
        "1"
    } else if d == 2 {
        "2"
    } else if d == 3 {
        "3"
    } else if d == 4 {
        "4"
    } else if d == 5 {
        "5"
    } else if d == 6 {
        "6"
    } else {
        "7"
    };
    assert(r@ =~= seq![octal_char(d)]);
    r
}

/// The permission bits of a mode, set-id and sticky bits included, as four
/// octal digits.
pub fn mode_to_octal(permissions: u32) -> (r: String)
    ensures
        r@ == octal_mode(permissions),
{
    let mut out = String::new();
    out.append(digit_text((permissions >> 9) & 7));
    out.append(digit_text((permissions >> 6) & 7));
    out.append(digit_text((permissions >> 3) & 7));
    out.append(digit_text(permissions & 7));
    assert(permissions >> 0 == permissions) by (bit_vector);
    assert(out@ =~= octal_mode(permissions));
    out
}

/// The least width of the size column of a long listing.
pub const MIN_SIZE_LEN: usize = 8;

/// The widths of the columns of a long listing that depend on its rows.
#[derive(Debug, Clone, Copy, PartialEq, Eq, Structural)]
pub struct LongColumns {
    pub date: usize,
    pub user: usize,
    pub group: usize,
}

/// The blanks that fill the cells of one row of a long listing up to their
/// columns: before the size, after the date, after the user and after the
/// group.
#[derive(Debug, Clone, Copy, PartialEq, Eq, Structural)]
pub struct LongPads {
    pub size: usize,
    pub date: usize,
    pub user: usize,
    pub group: usize,
}

/// What follows the name of a symbolic link.
#[derive(Debug)]
pub enum LinkNote {
    /// Nothing: the entry is no link, or nothing is known of its target.
    Plain,
    /// An arrow and the target.
    Target(String),
    /// An arrow, the target, and a note that it is broken.
    BrokenTarget(String),
    /// An arrow and a note that the link is broken.
    BrokenLink,
}

/// What a link note holds.
pub enum LinkNoteView {
    Plain,
    Target(Seq<char>),
    BrokenTarget(Seq<char>),
    BrokenLink,
}

impl View for LinkNote {
    type V = LinkNoteView;

    open spec fn view(&self) -> LinkNoteView {
        match self {
            LinkNote::Plain => LinkNoteView::Plain,
            LinkNote::Target(t) => LinkNoteView::Target(t@),
            LinkNote::BrokenTarget(t) => LinkNoteView::BrokenTarget(t@),
            LinkNote::BrokenLink => LinkNoteView::BrokenLink,
        }
    }
}

/// What follows the name of an entry: for a link its target, marked where
/// the link is known to be broken; for a broken link without a target a
/// note; nothing otherwise.
pub open spec fn note_of(is_symlink: bool, target: Option<Seq<char>>, invalid: bool) -> LinkNoteView {
    if !is_symlink {
        LinkNoteView::Plain
    } else {
        match target {
            Some(t) => if invalid {
                LinkNoteView::BrokenTarget(t)
            } else {
                LinkNoteView::Target(t)
            },
            None => if invalid {
                LinkNoteView::BrokenLink
            } else {
                LinkNoteView::Plain
            },
        }
    }
}

/// What follows the name of an entry.
pub fn link_note(is_symlink: bool, target: Option<&str>, invalid: bool) -> (n: LinkNote)
    ensures
        n@ == note_of(
            is_symlink,
            match target {
                Some(t) => Some(t@),
                None => None,
            },
            invalid,
        ),
{
    if !is_symlink {
        return LinkNote::Plain;
    }
    match target {
        Some(t) => {
            if invalid {
                LinkNote::BrokenTarget(t.to_owned())
            } else {
                LinkNote::Target(t.to_owned())
            }
        },
        None => {
            if invalid {
                LinkNote::BrokenLink
            } else {
                LinkNote::Plain
            }
        },
    }
}

/// What plugins add to a row: their fields with blanks between them, after
/// a blank; nothing where they add nothing.
pub open spec fn suffix_of(fields: Seq<Seq<char>>) -> Seq<char> {
    if joined(fields, " "@).len() == 0 {
        Seq::empty()
    } else {
        " "@ + joined(fields, " "@)
    }
}

/// What plugins add to a row.
pub fn plugin_suffix(fields: &Vec<String>) -> (r: String)
    ensures
        r@ == suffix_of(texts(fields@)),
{
    let all = join_texts(fields, " ");
    if all.as_str().is_empty() {
        String::new()
    } else {
        concat2(" ", all.as_str())
    }
}

impl LongFormatter {
    /// The columns of a listing, from the widths of the dates, the user
    /// names and the group names of its rows. A hidden group column takes
    /// no room.
    pub fn columns(&self, date_widths: &Vec<usize>, user_lens: &Vec<usize>, group_lens: &Vec<usize>) -> (c:
        LongColumns)
        ensures
            c.date == widest(date_widths@, 0),
            c.user == widest(user_lens@, 0),
            c.group == if self.hide_group {
                0
            } else {
                widest(group_lens@, 0)
            },
    {
        LongColumns {
            date: max_width(date_widths, 0),
            user: max_width(user_lens, 0),
            group: if self.hide_group {
                0
            } else {
                max_width(group_lens, 0)
            },
        }
    }

    /// The blanks of one row whose size, date, user and group take the
    /// widths given: the size is set to the right of at least eight columns,
    /// the other three to the left of theirs.
    pub fn pads(&self, columns: LongColumns, size_len: usize, date_width: usize, user_len: usize, group_len: usize) -> (p:
        LongPads)
        ensures
            p.size == missing(MIN_SIZE_LEN as nat, size_len as nat),
            p.date == missing(columns.date as nat, date_width as nat),
            p.user == missing(columns.user as nat, user_len as nat),
            p.group == if self.hide_group {
                0
            } else {
                missing(columns.group as nat, group_len as nat)
            },
    {
        LongPads {
            size: MIN_SIZE_LEN.saturating_sub(size_len),
            date: columns.date.saturating_sub(date_width),
            user: columns.user.saturating_sub(user_len),
            group: if self.hide_group {
                0
            } else {
                columns.group.saturating_sub(group_len)
            },
        }
    }
}

} // verus!
