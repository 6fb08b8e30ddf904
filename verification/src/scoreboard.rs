//! The count of destroyed bricks.

use vstd::prelude::*;

verus! {

/// Running total of destroyed bricks. It starts at zero and only ever grows,
/// one brick at a time.
#[derive(Clone, Copy, Debug)]
pub struct Scoreboard {
    score: u64,
}

impl Scoreboard {
    /// The total as a mathematical number.
    pub closed spec fn view(&self) -> nat {
        self.score as nat
    }

    /// A scoreboard showing zero.
    pub fn new() -> (board: Scoreboard)
        ensures
            board@ == 0,
    {
        Scoreboard { score: 0 }
    }

    /// The current total.
    pub fn score(&self) -> (total: u64)
        ensures
            total == self@,
    {
        self.score
    }

    /// Whether one more brick can still be counted.
    pub open spec fn has_room(&self) -> bool {
        self@ < u64::MAX
    }

    /// Counts one destroyed brick.
    pub fn increment(&mut self)
        requires
            old(self).has_room(),
        ensures
            final(self)@ == old(self)@ + 1,
    {
        self.score = self.score + 1;
    }
}

} // verus!
