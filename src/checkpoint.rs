use crate::model::{height_of, Checkpoint};
use vstd::prelude::*;

verus! {

/// Whether a tracker at `last` takes `c`: only a strictly higher height is
/// taken, so a replayed or lower candidate is dropped.
pub open spec fn adopts(last: Option<Checkpoint>, c: Checkpoint) -> bool {
    c.height > height_of(last)
}

/// The one `(height, hash)` pair acknowledged so far.
pub struct CheckpointTracker {
    last: Option<Checkpoint>,
}

impl View for CheckpointTracker {
    type V = Option<Checkpoint>;

    closed spec fn view(&self) -> Option<Checkpoint> {
        self.last
    }
}

impl CheckpointTracker {
    /// A tracker that has acknowledged nothing.
    pub fn new() -> (r: CheckpointTracker)
        ensures
            r@ == None::<Checkpoint>,
    {
        CheckpointTracker { last: None }
    }

    /// A tracker that resumes from the checkpoint the host stored.
    pub fn resume(stored: Checkpoint) -> (r: CheckpointTracker)
        ensures
            r@ == Some(stored),
    {
        CheckpointTracker { last: Some(stored) }
    }

    /// The checkpoint acknowledged last.
    pub fn last(&self) -> (r: Option<Checkpoint>)
        ensures
            r == self@,
    {
        self.last
    }

    /// Takes `candidate` and returns it for acknowledgment if it lies above
    /// the tracked height; otherwise changes nothing and returns `None`.
    pub fn advance(&mut self, candidate: Checkpoint) -> (r: Option<Checkpoint>)
        ensures
            adopts(old(self)@, candidate) ==> r == Some(candidate) && final(self)@ == Some(
                candidate,
            ),
            !adopts(old(self)@, candidate) ==> r == None::<Checkpoint> && final(self)@ == old(
                self,
            )@,
    {
        let take = match self.last {
            Some(c) => candidate.height > c.height,
            None => true,
        };
        if take {
            self.last = Some(candidate);
            Some(candidate)
        } else {
            None
        }
    }
}

} // verus!
