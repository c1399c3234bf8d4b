//! The characters of the word that is being typed.

use vstd::prelude::*;
use crate::word::Word;

verus! {

/// The characters of a word, in order.
pub struct Exercise(pub Vec<char>);

/// The exercise of typing `word`.
pub fn new(word: &Word) -> (r: Exercise)
    ensures
        r.0@ == word.raw@,
{
    let text: &str = word.raw.as_str();
    let n: usize = text.unicode_len();
    let mut chars: Vec<char> = Vec::new();
    let mut i: usize = 0;
    while i < n
        invariant
            n == text@.len(),
            i <= n,
            chars@.len() == i,
            forall|j: int| 0 <= j < i ==> chars@[j] == text@[j],
        decreases n - i,
    {
        chars.push(text.get_char(i));
        i += 1;
    }
    assert(chars@ =~= word.raw@);
    Exercise(chars)
}

impl Exercise {
    pub fn len(&self) -> (r: usize)
        ensures
            r == self.0@.len(),
    {
        self.0.len()
    }

    /// The number of characters typed once `typed` is entered after
    /// `progress` characters: the right character counts, a wrong one does
    /// not.
    pub fn advance(&self, progress: usize, typed: char) -> (r: usize)
        requires
            progress < self.0@.len(),
        ensures
            r == if typed == self.0@[progress as int] {
                progress + 1
            } else {
                progress as int
            },
    {
        assert(progress < self.0.len());
        if typed == self.0[progress] {
            progress + 1
        } else {
            progress
        }
    }

    /// The character at position `i`.
    pub fn index(&self, i: usize) -> (r: &char)
        requires
            i < self.0@.len(),
        ensures
            *r == self.0@[i as int],
    {
        &self.0[i]
    }
}

} // verus!
