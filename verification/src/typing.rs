//! A sentence that is typed key by key.

use vstd::prelude::*;
use crate::typing::key::{Key, Status};

pub mod key;

verus! {

/// The keys of a sentence that nobody has typed yet.
pub open spec fn fresh_keys(sentence: Seq<char>) -> Seq<Key> {
    Seq::new(sentence.len(), |i: int| Key::fresh(sentence[i]))
}

/// The number of sixteen-bit units that a character takes.
pub open spec fn utf16_units(c: char) -> int {
    if (c as u32) < 0x10000 {
        1
    } else {
        2
    }
}

/// The keys of the sentence, none of them typed yet.
pub fn keys_of(sentence: &str) -> (keys: Vec<Key>)
    ensures
        keys@ == fresh_keys(sentence@),
{
    let mut keys: Vec<Key> = Vec::new();
    let n: usize = sentence.unicode_len();
    let mut i: usize = 0;
    while i < n
        invariant
            n == sentence@.len(),
            i <= n,
            keys@.len() == i,
            forall|j: int| 0 <= j < i ==> keys@[j] == Key::fresh(sentence@[j]),
        decreases n - i,
    {
        keys.push(Key { code: sentence.get_char(i), status: Status::Unvalidated });
        i += 1;
    }
    assert(keys@ =~= fresh_keys(sentence@));
    keys
}

/// A sentence, the status of each of its keys, and the place of the key
/// that is due.
pub struct Typing {
    pub sentence: Vec<Key>,
    pub current: usize,
    pub raw: String,
}

impl Typing {
    pub fn new(sentence: String) -> (r: Typing)
        ensures
            r.raw@ == sentence@,
            r.current == 0,
            r.sentence@ == fresh_keys(sentence@),
    {
        let mut instance = Typing { sentence: Vec::new(), current: 0, raw: String::new() };
        instance.reset(sentence);
        instance
    }

    /// Starts over with another sentence.
    pub fn reset(&mut self, sentence: String)
        ensures
            final(self).raw@ == sentence@,
            final(self).current == 0,
            final(self).sentence@ == fresh_keys(sentence@),
    {
        self.sentence = keys_of(sentence.as_str());
        self.current = 0;
        self.raw = sentence;
    }

    /// Whether every key of the sentence lies behind.
    pub fn is_completed(&self) -> (r: bool)
        ensures
            r == (self.current >= self.sentence@.len()),
    {
        self.current >= self.sentence.len()
    }

    /// The key that is due, if the sentence is not finished.
    pub fn curr_ref(&self) -> (r: Option<&Key>)
        ensures
            self.current < self.sentence@.len() ==> r == Some(&self.sentence@[self.current as int]),
            self.current >= self.sentence@.len() ==> r is None,
    {
        if self.current < self.sentence.len() {
            Some(&self.sentence[self.current])
        } else {
            None
        }
    }

    /// Moves on by the width of the key that is due.
    pub fn forward(&mut self)
        requires
            old(self).current < old(self).sentence@.len(),
            old(self).current + utf16_units(old(self).sentence@[old(self).current as int].code)
                <= usize::MAX,
        ensures
            final(self).current == old(self).current + utf16_units(
                old(self).sentence@[old(self).current as int].code,
            ),
            final(self).sentence == old(self).sentence,
            final(self).raw == old(self).raw,
    {
        let code: char = self.sentence[self.current].code;
        let units: usize = if (code as u32) < 0x10000 { 1 } else { 2 };
        self.current = self.current + units;
    }

    /// Marks the key that is due as missed.
    pub fn miss(&mut self)
        requires
            old(self).current < old(self).sentence@.len(),
        ensures
            final(self).sentence@ == old(self).sentence@.update(
                old(self).current as int,
                old(self).sentence@[old(self).current as int].marked(Status::Missed),
            ),
            final(self).current == old(self).current,
            final(self).raw == old(self).raw,
    {
        let code: char = self.sentence[self.current].code;
        self.sentence.set(self.current, Key { code, status: Status::Missed });
    }

    /// Marks the key that is due as passed.
    pub fn pass(&mut self)
        requires
            old(self).current < old(self).sentence@.len(),
        ensures
            final(self).sentence@ == old(self).sentence@.update(
                old(self).current as int,
                old(self).sentence@[old(self).current as int].marked(Status::Passed),
            ),
            final(self).current == old(self).current,
            final(self).raw == old(self).raw,
    {
        let code: char = self.sentence[self.current].code;
        self.sentence.set(self.current, Key { code, status: Status::Passed });
    }
}

/// A typing exercise on a fixed sentence.
pub fn new(raw: &'static str) -> (r: Typing)
    ensures
        r.raw@ == raw@,
        r.current == 0,
        r.sentence@ == fresh_keys(raw@),
{
    Typing::new(raw.to_owned())
}

} // verus!
