//! Sequencing: every emitted record carries an identifier that starts after
//! zero and rises by exactly one per emission, with no gaps and no reuse.

use vstd::prelude::*;

verus! {

/// The emission counter.  It only ever moves by `next_id`, so identifiers
/// are handed out consecutively: from a fresh sequencer the first three are
/// 1, 2 and 3, however many malformed frames were dropped in between
/// (dropped frames never reach the sequencer).  A session owns one
/// sequencer; a caller that shares it across threads wraps it in a lock.
pub struct Sequencer {
    count: u32,
}

impl Sequencer {
    /// How many identifiers have been handed out.
    pub closed spec fn current(&self) -> u32 {
        self.count
    }

    /// A fresh counter: the next identifier will be 1.
    pub fn new() -> (s: Sequencer)
        ensures
            s.current() == 0,
    {
        Sequencer { count: 0 }
    }

    /// Take the next identifier: the counter moves up by exactly one and
    /// the post-increment value is the identifier, so consecutive calls
    /// return consecutive values and no identifier is ever reused.
    pub fn next_id(&mut self) -> (id: u32)
        requires
            old(self).current() < u32::MAX,
        ensures
            final(self).current() == old(self).current() + 1,
            id == old(self).current() + 1,
    {
        self.count = self.count + 1;
        self.count
    }

    /// The most recently issued identifier (0 before the first).
    pub fn last_issued(&self) -> (c: u32)
        ensures
            c == self.current(),
    {
        self.count
    }
}

} // verus!
