//! The queue of frames that wait for a smoothing decision.

use crate::crop::CropResult;
use crate::frame::Frame;
use std::collections::VecDeque;
use vstd::prelude::*;

verus! {

/// One frame that waits for a decision, with the crop and the object count
/// that are on record for it.
#[derive(Clone, Copy, Debug, PartialEq, Eq, Structural)]
pub struct HistoryEntry {
    pub image: Frame,
    pub crop: CropResult,
    pub object_count: usize,
}

/// A first-in, first-out queue of history entries. Its view is the sequence
/// of entries from the oldest to the newest.
pub struct CropHistory {
    entries: VecDeque<HistoryEntry>,
}

impl View for CropHistory {
    type V = Seq<HistoryEntry>;

    closed spec fn view(&self) -> Seq<HistoryEntry> {
        self.entries@
    }
}

impl CropHistory {
    /// An empty queue.
    pub fn new() -> (history: CropHistory)
        ensures
            history@ == Seq::<HistoryEntry>::empty(),
    {
        CropHistory { entries: VecDeque::new() }
    }

    /// Appends an entry behind the newest.
    pub fn add(&mut self, crop: CropResult, image: Frame, object_count: usize)
        ensures
            final(self)@ == old(self)@.push(HistoryEntry { image, crop, object_count }),
    {
        self.entries.push_back(HistoryEntry { image, crop, object_count });
    }

    /// Takes the oldest entry out, if there is one.
    pub fn pop_front(&mut self) -> (entry: Option<HistoryEntry>)
        ensures
            old(self)@.len() == 0 ==> entry is None && final(self)@ == old(self)@,
            old(self)@.len() > 0 ==> entry == Some(old(self)@[0]) && final(self)@ == old(self)@.skip(1),
    {
        let entry = self.entries.pop_front();
        proof {
            if old(self)@.len() > 0 {
                assert(old(self)@.subrange(1, old(self)@.len() as int) =~= old(self)@.skip(1));
            }
        }
        entry
    }

    /// The oldest entry, if there is one.
    pub fn peek_front(&self) -> (entry: Option<&HistoryEntry>)
        ensures
            self@.len() == 0 ==> entry is None,
            self@.len() > 0 ==> entry == Some(&self@[0]),
    {
        if self.entries.len() == 0 {
            None
        } else {
            Some(&self.entries[0])
        }
    }

    /// Whether the queue holds no entry.
    pub fn is_empty(&self) -> (empty: bool)
        ensures
            empty == (self@.len() == 0),
    {
        self.entries.len() == 0
    }

    /// How many entries the queue holds.
    pub fn len(&self) -> (len: usize)
        ensures
            len == self@.len(),
    {
        self.entries.len()
    }
}

} // verus!
