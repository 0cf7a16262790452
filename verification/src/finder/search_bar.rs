//! The query line: the text typed so far and the cursor in it.

use crate::finder::keys::{Key, Modifiers};
use crate::text::string_of;
use vstd::prelude::*;
use vstd::string::*;

verus! {

/// What the query line holds. The cursor counts characters from the left.
pub struct BarView {
    pub query: Seq<char>,
    pub cursor: nat,
}

/// The query line of a session.
#[derive(Debug)]
pub struct SearchBar {
    query: Vec<char>,
    cursor_pos: usize,
}

impl View for SearchBar {
    type V = BarView;

    closed spec fn view(&self) -> BarView {
        BarView { query: self.query@, cursor: self.cursor_pos as nat }
    }
}

/// Whether a key press edits the query line or moves its cursor, and how.
/// What is left as it was is reported as `None`. (A query that fills the
/// machine's address space takes no further character.)
pub open spec fn edited(bar: BarView, key: Key, mods: Modifiers) -> Option<BarView> {
    match key {
        Key::Char(c) => if (mods.is_none() || mods.is_shift()) && bar.query.len() < usize::MAX {
            Some(BarView { query: bar.query.insert(bar.cursor as int, c), cursor: bar.cursor + 1 })
        } else {
            None
        },
        Key::Backspace => if mods.is_none() && bar.cursor > 0 {
            Some(
                BarView {
                    query: bar.query.remove(bar.cursor - 1),
                    cursor: (bar.cursor - 1) as nat,
                },
            )
        } else {
            None
        },
        Key::Left => if mods.is_none() && bar.cursor > 0 {
            Some(BarView { cursor: (bar.cursor - 1) as nat, ..bar })
        } else {
            None
        },
        Key::Right => if mods.is_none() && bar.cursor < bar.query.len() {
            Some(BarView { cursor: bar.cursor + 1, ..bar })
        } else {
            None
        },
        _ => None,
    }
}

/// Whether a key press changes the text of the query, and not the cursor
/// alone.
pub open spec fn changes_text(bar: BarView, key: Key, mods: Modifiers) -> bool {
    match edited(bar, key, mods) {
        Some(next) => next.query != bar.query,
        None => false,
    }
}

/// Whether a key is one that edits text: a character or backspace.
pub open spec fn is_text_key(key: Key) -> bool {
    key is Char || key == Key::Backspace
}

/// A key press that has an effect changes the text exactly when the key is a
/// character or backspace; the cursor keys leave the text as it is.
pub proof fn lemma_changes_text(bar: BarView, key: Key, mods: Modifiers)
    requires
        bar.cursor <= bar.query.len(),
    ensures
        changes_text(bar, key, mods) == (edited(bar, key, mods).is_some() && is_text_key(key)),
{
    match edited(bar, key, mods) {
        Some(next) => {
            if is_text_key(key) {
                assert(next.query.len() != bar.query.len());
            }
        },
        None => {},
    }
}

/// The query line after a key press.
pub open spec fn after_input(bar: BarView, key: Key, mods: Modifiers) -> BarView {
    match edited(bar, key, mods) {
        Some(next) => next,
        None => bar,
    }
}

impl SearchBar {
    /// The cursor stands inside the query or right after it, and the query
    /// has room for one more character.
    pub open spec fn wf(&self) -> bool {
        self@.cursor <= self@.query.len() && self@.query.len() <= usize::MAX
    }

    /// An empty query line.
    pub fn new() -> (bar: Self)
        ensures
            bar@ == (BarView { query: Seq::empty(), cursor: 0 }),
            bar.wf(),
    {
        SearchBar { query: Vec::new(), cursor_pos: 0 }
    }

    /// The query as text.
    pub fn query(&self) -> (q: String)
        ensures
            q@ == self@.query,
    {
        string_of(&self.query)
    }

    /// Where the cursor stands, in characters from the left.
    pub fn cursor_pos(&self) -> (c: usize)
        ensures
            c == self@.cursor,
    {
        self.cursor_pos
    }

    /// Whether nothing has been typed.
    pub fn is_empty(&self) -> (r: bool)
        ensures
            r == (self@.query.len() == 0),
    {
        self.query.len() == 0
    }

    /// Whether the cursor stands right after a query that is not empty.
    pub fn cursor_at_end(&self) -> (r: bool)
        ensures
            r == (self@.query.len() > 0 && self@.cursor == self@.query.len()),
    {
        self.query.len() > 0 && self.cursor_pos == self.query.len()
    }

    /// Applies a key press: a character, alone or with shift, is inserted at
    /// the cursor; backspace removes the character before the cursor; left
    /// and right move the cursor inside the query. Says whether anything
    /// changed.
    pub fn handle_input(&mut self, key: Key, modifiers: Modifiers) -> (changed: bool)
        requires
            old(self).wf(),
        ensures
            final(self).wf(),
            final(self)@ == after_input(old(self)@, key, modifiers),
            changed == edited(old(self)@, key, modifiers).is_some(),
    {
        match key {
            Key::Char(c) => {
                if (modifiers.plain() || modifiers.only_shift()) && self.query.len() < usize::MAX {
                    self.query.insert(self.cursor_pos, c);
                    self.cursor_pos += 1;
                    true
                } else {
                    false
                }
            },
            Key::Backspace => {
                if modifiers.plain() && self.cursor_pos > 0 {
                    self.cursor_pos -= 1;
                    self.query.remove(self.cursor_pos);
                    true
                } else {
                    false
                }
            },
            Key::Left => {
                if modifiers.plain() && self.cursor_pos > 0 {
                    self.cursor_pos -= 1;
                    true
                } else {
                    false
                }
            },
            Key::Right => {
                if modifiers.plain() && self.cursor_pos < self.query.len() {
                    self.cursor_pos += 1;
                    true
                } else {
                    false
                }
            },
            _ => false,
        }
    }
}

/// The blank columns that fill the query line up to the terminal's width:
/// the width less the prompt, the input, the cursor and a margin of four.
pub open spec fn bar_padding_spec(width: u16, prompt: usize, input: usize, cursor: usize) -> int {
    if width > prompt + input + cursor + 4 {
        width - (prompt + input + cursor + 4)
    } else {
        0
    }
}

/// The number of blank columns after the query line's content.
pub fn bar_padding(width: u16, prompt: usize, input: usize, cursor: usize) -> (r: usize)
    ensures
        r == bar_padding_spec(width, prompt, input, cursor),
{
    let content = prompt.saturating_add(input).saturating_add(cursor).saturating_add(4);
    (width as usize).saturating_sub(content)
}

} // verus!
