//! Indexed files and the transient results of matching them.

use crate::text::{lowercase, occurs_in, to_lowercase};
use vstd::prelude::*;
use vstd::string::*;

verus! {

/// What an indexed file holds: its path, its display name, the lowercase key
/// it is matched by, and when it was last modified (seconds since the epoch).
pub struct EntryView {
    pub path: Seq<char>,
    pub name: Seq<char>,
    pub key: Seq<char>,
    pub modified: u64,
}

/// The length in bytes of an entry's path, as the machine counts it.
pub open spec fn path_len(e: EntryView) -> usize {
    vstd::utf8::encode_utf8(e.path).len() as usize
}

/// An indexed file. It never changes once made.
#[derive(Debug)]
pub struct FileEntry {
    path_str: String,
    name_str: String,
    normalized_path: String,
    modified: u64,
}

impl View for FileEntry {
    type V = EntryView;

    closed spec fn view(&self) -> EntryView {
        EntryView {
            path: self.path_str@,
            name: self.name_str@,
            key: self.normalized_path@,
            modified: self.modified,
        }
    }
}

/// The final component of a path as `std::path::Path::file_name` finds it;
/// the empty text where the path has none.
pub uninterp spec fn final_component(path: Seq<char>) -> Seq<char>;

/// Calls `std::path::Path::file_name` on the path and turns the component
/// into a string (empty where the path has no final component). The
/// claims: the name depends on the path alone, found by the path rules of
/// the platform the library is built for, and it is a contiguous part of
/// the path.
#[verifier::external_body]
pub(crate) fn file_name_of(path: &str) -> (name: String)
    ensures
        name@ == final_component(path@),
        occurs_in(name@, path@),
{
    match std::path::Path::new(path).file_name() {
        Some(n) => n.to_string_lossy().into_owned(),
        None => String::new(),
    }
}

impl FileEntry {
    /// The matching key is the lowercase form of the path.
    pub open spec fn wf(&self) -> bool {
        self@.key == lowercase(self@.path)
    }

    /// An entry for `path` shown as `name`.
    pub fn from_parts(path: String, name: String, modified: u64) -> (e: Self)
        ensures
            e@ == (EntryView { path: path@, name: name@, key: lowercase(path@), modified }),
            e.wf(),
    {
        let normalized_path = to_lowercase(path.as_str());
        FileEntry { path_str: path, name_str: name, normalized_path, modified }
    }

    /// An entry for `path`, shown by its final component.
    pub fn new(path: String, modified: u64) -> (e: Self)
        ensures
            e@ == (EntryView {
                path: path@,
                name: final_component(path@),
                key: lowercase(path@),
                modified,
            }),
            occurs_in(e@.name, path@),
            e.wf(),
    {
        let name = file_name_of(path.as_str());
        Self::from_parts(path, name, modified)
    }

    /// The path as given.
    pub fn path(&self) -> (r: &str)
        ensures
            r@ == self@.path,
    {
        self.path_str.as_str()
    }

    /// The display name.
    pub fn name(&self) -> (r: &str)
        ensures
            r@ == self@.name,
    {
        self.name_str.as_str()
    }

    /// The lowercase key the matcher sees.
    pub fn key(&self) -> (r: &str)
        ensures
            r@ == self@.key,
    {
        self.normalized_path.as_str()
    }

    /// The length of the path in bytes.
    pub fn path_len(&self) -> (r: usize)
        ensures
            r == path_len(self@),
    {
        self.path_str.as_str().len()
    }

    /// Last modification, in seconds since the epoch.
    pub fn modified(&self) -> (r: u64)
        ensures
            r == self@.modified,
    {
        self.modified
    }
}

impl Clone for FileEntry {
    fn clone(&self) -> (r: Self)
        ensures
            r@ == self@,
    {
        FileEntry {
            path_str: self.path_str.clone(),
            name_str: self.name_str.clone(),
            normalized_path: self.normalized_path.clone(),
            modified: self.modified,
        }
    }
}

/// What a match holds: the score, the matched character positions in the
/// key, and the entry.
pub struct MatchView {
    pub score: i64,
    pub positions: Seq<usize>,
    pub entry: EntryView,
}

/// One entry that matched a query.
#[derive(Debug)]
pub struct MatchResult {
    pub score: i64,
    pub positions: Vec<usize>,
    pub entry: FileEntry,
}

impl View for MatchResult {
    type V = MatchView;

    open spec fn view(&self) -> MatchView {
        MatchView { score: self.score, positions: self.positions@, entry: self.entry@ }
    }
}

impl Clone for MatchResult {
    fn clone(&self) -> (r: Self)
        ensures
            r@ == self@,
    {
        let positions = self.positions.clone();
        assert(positions@ =~= self.positions@);
        MatchResult { score: self.score, positions, entry: self.entry.clone() }
    }
}

/// What a list of entries holds.
pub open spec fn entry_views(s: Seq<FileEntry>) -> Seq<EntryView> {
    s.map_values(|e: FileEntry| e@)
}

/// What a list of matches holds.
pub open spec fn match_views(s: Seq<MatchResult>) -> Seq<MatchView> {
    s.map_values(|m: MatchResult| m@)
}

/// The match that stands for an entry when nothing is being searched for:
/// score zero and no highlighted positions.
pub open spec fn plain_match(e: EntryView) -> MatchView {
    MatchView { score: 0, positions: Seq::empty(), entry: e }
}

} // verus!
