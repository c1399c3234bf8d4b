//! One key of a sentence and what became of it.

use vstd::prelude::*;

verus! {

/// What became of a key.
#[derive(Debug, Clone, Copy, PartialEq, Eq, Structural)]
pub enum Status {
    Unvalidated,
    Passed,
    Missed,
}

/// A character to type, with its status.
#[derive(Debug, Clone, Copy, PartialEq, Eq, Structural)]
pub struct Key {
    pub code: char,
    pub status: Status,
}

impl Key {
    /// The same key with another status.
    pub open spec fn marked(self, status: Status) -> Key {
        Key { code: self.code, status }
    }

    /// A key that nobody has typed yet.
    pub open spec fn fresh(code: char) -> Key {
        Key { code, status: Status::Unvalidated }
    }
}

} // verus!
