//! Grouping the files a walker finds into batches of a fixed size, so that
//! the channel to the index is used once per batch and not once per file.

use crate::finder::entry::{entry_views, EntryView, FileEntry};
use vstd::prelude::*;

verus! {

/// How many entries make a full batch.
pub const BATCH_SIZE: usize = 1000;

/// How many batches the channel to the index holds before the walker has
/// to wait.
pub const CHANNEL_BATCHES: usize = 50_000;

/// Collects entries until a batch is full.
pub struct Batcher {
    pending: Vec<FileEntry>,
}

impl View for Batcher {
    type V = Seq<EntryView>;

    closed spec fn view(&self) -> Seq<EntryView> {
        entry_views(self.pending@)
    }
}

/// What an optional batch holds.
pub open spec fn batch_view(b: Option<Vec<FileEntry>>) -> Option<Seq<EntryView>> {
    match b {
        Some(v) => Some(entry_views(v@)),
        None => None,
    }
}

/// The entries a batch hands on: its own, or none where there is no batch.
pub open spec fn handed_on(b: Option<Seq<EntryView>>) -> Seq<EntryView> {
    match b {
        Some(v) => v,
        None => Seq::empty(),
    }
}

impl Batcher {
    /// Fewer entries are waiting than make a full batch.
    pub open spec fn wf(&self) -> bool {
        self@.len() < BATCH_SIZE
    }

    /// A batcher with nothing waiting.
    pub fn new() -> (b: Self)
        ensures
            b@ == Seq::<EntryView>::empty(),
            b.wf(),
    {
        let b = Batcher { pending: Vec::new() };
        assert(entry_views(b.pending@) =~= Seq::<EntryView>::empty());
        b
    }

    /// How many entries are waiting.
    pub fn waiting(&self) -> (n: usize)
        ensures
            n == self@.len(),
    {
        self.pending.len()
    }

    /// Takes one more entry and hands out a batch where that fills one.
    /// Nothing is lost and nothing changes place: what was waiting,
    /// followed by the entry, is what is handed out followed by what waits
    /// now.
    pub fn push(&mut self, entry: FileEntry) -> (full: Option<Vec<FileEntry>>)
        requires
            old(self).wf(),
        ensures
            final(self).wf(),
            old(self)@.push(entry@) == handed_on(batch_view(full)) + final(self)@,
            match batch_view(full) {
                Some(b) => b.len() == BATCH_SIZE && final(self)@.len() == 0,
                None => final(self)@.len() == old(self)@.len() + 1,
            },
    {
        let ghost before = self@;
        self.pending.push(entry);
        assert(entry_views(self.pending@) =~= before.push(entry@));
        if self.pending.len() >= BATCH_SIZE {
            let mut full: Vec<FileEntry> = Vec::new();
            std::mem::swap(&mut full, &mut self.pending);
            assert(entry_views(self.pending@) =~= Seq::<EntryView>::empty());
            assert(before.push(entry@) =~= entry_views(full@) + entry_views(self.pending@));
            Some(full)
        } else {
            assert(before.push(entry@) =~= Seq::<EntryView>::empty() + entry_views(self.pending@));
            None
        }
    }

    /// Hands out what is waiting when the walk is over: a last, shorter
    /// batch, or nothing where nothing waits.
    pub fn finish(self) -> (last: Option<Vec<FileEntry>>)
        requires
            self.wf(),
        ensures
            handed_on(batch_view(last)) == self@,
            last.is_some() == (self@.len() > 0),
    {
        if self.pending.len() == 0 {
            assert(self@ =~= Seq::<EntryView>::empty());
            None
        } else {
            Some(self.pending)
        }
    }
}

} // verus!
