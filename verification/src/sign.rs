//! A word on the screen: its keys and the place where it is shown.

use vstd::prelude::*;
use crate::geometry::Pos;
use crate::sequence::TypingSequence;

verus! {

/// A sequence of keys and the position at which it is shown.
pub struct TypingSign {
    pub seq: TypingSequence,
    pub coord: Pos,
}

impl TypingSign {
    /// A sign that has not been placed yet.
    pub fn new(sequence: TypingSequence) -> (r: TypingSign)
        ensures
            r.seq == sequence,
            r.coord == (Pos { x: 0, y: 0 }),
    {
        TypingSign { seq: sequence, coord: Pos { x: 0, y: 0 } }
    }

    /// Places the sign.
    pub fn move_(&mut self, x: u16, y: u16)
        ensures
            final(self).coord == (Pos { x, y }),
            final(self).seq == old(self).seq,
    {
        self.coord = Pos { x, y };
    }
}

} // verus!
