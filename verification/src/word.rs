//! The words to be typed.

use vstd::prelude::*;

verus! {

/// One word of the exercise.
#[derive(Debug)]
pub struct Word {
    pub raw: String,
}

impl Word {
    /// The number of display cells the word occupies: its length in bytes.
    pub open spec fn cells(&self) -> nat {
        vstd::utf8::encode_utf8(self.raw@).len()
    }

    pub fn new(s: &'static str) -> (r: Word)
        ensures
            r.raw@ == s@,
    {
        Word { raw: s.to_owned() }
    }

    /// Measures the word.
    pub fn measure(&self) -> (r: usize)
        ensures
            r == self.cells(),
    {
        self.raw.as_str().as_bytes().len()
    }
}

/// An ordered collection of words.
#[derive(Debug)]
pub struct Bucket {
    pub words: Vec<Word>,
}

impl Bucket {
    /// The widths of the words, in order.
    pub open spec fn lens(&self) -> Seq<usize> {
        Seq::new(self.words@.len(), |i: int| self.words@[i].cells() as usize)
    }

    pub fn new(w: Vec<&'static str>) -> (r: Bucket)
        ensures
            r.words@.len() == w@.len(),
            forall|i: int| 0 <= i < w@.len() ==> (#[trigger] r.words@[i]).raw@ == w@[i]@,
    {
        let mut words: Vec<Word> = Vec::new();
        let mut i: usize = 0;
        while i < w.len()
            invariant
                i <= w@.len(),
                words@.len() == i,
                forall|j: int| 0 <= j < i ==> (#[trigger] words@[j]).raw@ == w@[j]@,
            decreases w@.len() - i,
        {
            words.push(Word::new(w[i]));
            i += 1;
        }
        Bucket { words }
    }

    pub fn len(&self) -> (r: usize)
        ensures
            r == self.words@.len(),
    {
        self.words.len()
    }

    /// The word at position `i`.
    pub fn index(&self, i: usize) -> (r: &Word)
        requires
            i < self.words@.len(),
        ensures
            *r == self.words@[i as int],
    {
        &self.words[i]
    }

    /// Measures every word.
    pub fn lengths(&self) -> (r: Vec<usize>)
        ensures
            r@ == self.lens(),
    {
        let mut out: Vec<usize> = Vec::new();
        let mut i: usize = 0;
        while i < self.words.len()
            invariant
                i <= self.words@.len(),
                out@.len() == i,
                forall|j: int| 0 <= j < i ==> out@[j] == self.words@[j].cells(),
            decreases self.words@.len() - i,
        {
            out.push(self.words[i].measure());
            i += 1;
        }
        assert(out@ =~= self.lens());
        out
    }
}

} // verus!
