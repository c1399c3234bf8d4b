//! The keys of one word of a training.

use vstd::prelude::*;
use crate::typing::fresh_keys;
use crate::typing::keys_of;
use crate::typing::key::{Key, Status};

verus! {

/// The keys of a word, each with its status.
pub struct TypingSequence {
    pub keys: Vec<Key>,
}

impl TypingSequence {
    pub fn new(sentence: &String) -> (r: TypingSequence)
        ensures
            r.keys@ == fresh_keys(sentence@),
    {
        TypingSequence { keys: keys_of(sentence.as_str()) }
    }

    pub fn len(&self) -> (r: usize)
        ensures
            r == self.keys@.len(),
    {
        self.keys.len()
    }

    /// The key at position `index`.
    pub fn index(&self, index: usize) -> (r: &Key)
        requires
            index < self.keys@.len(),
        ensures
            *r == self.keys@[index as int],
    {
        &self.keys[index]
    }

    /// Gives the key at position `index` another status.
    pub fn mark(&mut self, index: usize, status: Status)
        requires
            index < old(self).keys@.len(),
        ensures
            final(self).keys@ == old(self).keys@.update(
                index as int,
                old(self).keys@[index as int].marked(status),
            ),
    {
        let code: char = self.keys[index].code;
        self.keys.set(index, Key { code, status });
    }
}

} // verus!
