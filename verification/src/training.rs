//! A training: the words to type, each with its place on the screen, and
//! the exercise on the word that is being typed.

use vstd::prelude::*;
use crate::escape::{emit, goto, goto_sequence};
use crate::format::colorized_text;
use crate::geometry::Pos;
use crate::print::SequencePrinter;
use crate::sequence::TypingSequence;
use crate::typing::fresh_keys;
use crate::typing::key::{Key, Status};

verus! {

/// Whether the word of an exercise is typed to its end.
#[derive(Debug, Clone, Copy, PartialEq, Eq, Structural)]
pub enum ExerciseStatus {
    Validated,
    NotYetDone,
}

/// What a keystroke meant to an exercise.
#[derive(Debug, Clone, Copy, PartialEq, Eq, Structural)]
pub enum InputStatus {
    Correct,
    Wrong,
    Unhandled,
}

/// A keystroke as far as the trainer cares: a character, the escape key, or
/// any other key.
#[derive(Debug, Clone, Copy, PartialEq, Eq, Structural)]
pub enum Keystroke {
    Char(char),
    Esc,
    Other,
}

/// What a keystroke means when `due` is the character to type.
pub open spec fn judged(due: char, key: Keystroke) -> InputStatus {
    match key {
        Keystroke::Char(c) => if c == due {
            InputStatus::Correct
        } else {
            InputStatus::Wrong
        },
        _ => InputStatus::Unhandled,
    }
}

/// The keys of a word after a keystroke, when the key at `curr` is due: a
/// right character passes the key, a wrong one misses it, any other
/// keystroke leaves the keys alone.
pub open spec fn keys_after(keys: Seq<Key>, curr: int, key: Keystroke) -> Seq<Key> {
    match judged(keys[curr].code, key) {
        InputStatus::Correct => keys.update(curr, keys[curr].marked(Status::Passed)),
        InputStatus::Wrong => keys.update(curr, keys[curr].marked(Status::Missed)),
        InputStatus::Unhandled => keys,
    }
}

/// The place in the word after a keystroke: only a right character moves on.
pub open spec fn curr_after(keys: Seq<Key>, curr: int, key: Keystroke) -> int {
    if judged(keys[curr].code, key) == InputStatus::Correct {
        curr + 1
    } else {
        curr
    }
}

/// The text that shows a word at its place, with the key at `current`
/// marked as due.
pub open spec fn piece_text(piece: (TypingSequence, Pos), current: usize) -> Seq<char> {
    goto_sequence(piece.1.x, piece.1.y) + colorized_text(piece.0.keys@, current as int)
}

/// The text that moves the cursor to the key that is due in an exercise.
pub open spec fn cursor_text(e: Exercise, pieces: Seq<(TypingSequence, Pos)>) -> Seq<char> {
    if e.subject < pieces.len() {
        goto_sequence((pieces[e.subject as int].1.x + e.curr) as u16, pieces[e.subject as int].1.y)
    } else {
        Seq::empty()
    }
}

/// The text that shows the first `n` words of a training, none of them with
/// a key marked as due.
pub open spec fn pieces_text(pieces: Seq<(TypingSequence, Pos)>, n: nat) -> Seq<char>
    decreases n,
{
    if n == 0 {
        Seq::empty()
    } else {
        pieces_text(pieces, (n - 1) as nat) + piece_text(pieces[n - 1], usize::MAX)
    }
}

/// The exercise on one word of a training: which word it is, and how many
/// of its keys are passed.
#[derive(Debug, Clone, Copy, PartialEq, Eq, Structural)]
pub struct Exercise {
    pub subject: usize,
    pub curr: usize,
}

impl Exercise {
    /// An exercise on the word at `subject`, with no key passed.
    pub fn new(subject: usize) -> (r: Exercise)
        ensures
            r.subject == subject,
            r.curr == 0,
    {
        Exercise { subject, curr: 0 }
    }

    /// Whether the exercise speaks of a word of `pieces` and of a place in
    /// that word or at its end.
    pub open spec fn fits(&self, pieces: Seq<(TypingSequence, Pos)>) -> bool {
        &&& self.subject < pieces.len()
        &&& self.curr <= pieces[self.subject as int].0.keys@.len()
    }

    /// Whether every key of the word is passed.
    pub fn is_done(&self, pieces: &Vec<(TypingSequence, Pos)>) -> (r: bool)
        requires
            self.subject < pieces@.len(),
        ensures
            r == (self.curr >= pieces@[self.subject as int].0.keys@.len()),
    {
        self.curr >= pieces[self.subject].0.len()
    }

    /// The cell of the key that is due.
    pub fn cursor(&self, pieces: &Vec<(TypingSequence, Pos)>) -> (r: Pos)
        requires
            self.subject < pieces@.len(),
            pieces@[self.subject as int].1.x + self.curr <= u16::MAX,
        ensures
            r.x == pieces@[self.subject as int].1.x + self.curr,
            r.y == pieces@[self.subject as int].1.y,
    {
        let pos: Pos = pieces[self.subject].1;
        Pos { x: pos.x + self.curr as u16, y: pos.y }
    }

    /// Moves the cursor to the key that is due. An exercise on a word that
    /// the training does not have moves nothing.
    pub fn update_cursor_pos(&self, pieces: &Vec<(TypingSequence, Pos)>, output: &mut String)
        requires
            self.subject < pieces@.len() ==> {
                &&& pieces@[self.subject as int].1.x + self.curr <= u16::MAX
                &&& pieces@[self.subject as int].1.x + self.curr != 0 || pieces@[self.subject
                    as int].1.y != 0
            },
        ensures
            final(output)@ == old(output)@ + cursor_text(*self, pieces@),
    {
        if self.subject < pieces.len() {
            let term_pos = self.cursor(pieces);
            let cursor = goto(term_pos.x, term_pos.y);
            emit(output, &cursor);
        } else {
            assert(output@ =~= old(output)@ + cursor_text(*self, pieces@));
        }
    }

    /// Shows the word of the exercise with the key that is due marked, and
    /// leaves the cursor on that key.
    pub fn write(&self, pieces: &Vec<(TypingSequence, Pos)>, output: &mut String)
        requires
            self.subject < pieces@.len(),
            pieces@[self.subject as int].1.x != 0 || pieces@[self.subject as int].1.y != 0,
            pieces@[self.subject as int].1.x + self.curr <= u16::MAX,
        ensures
            final(output)@ == old(output)@ + piece_text(pieces@[self.subject as int], self.curr)
                + cursor_text(*self, pieces@),
    {
        pieces[self.subject].0.write_seq(output, self.curr, &pieces[self.subject].1);
        self.update_cursor_pos(pieces, output);
    }

    /// Takes a keystroke: a right character passes the key that is due and
    /// moves on, a wrong character misses it, any other key does nothing.
    pub fn play(&mut self, pieces: &mut Vec<(TypingSequence, Pos)>, key: &Keystroke) -> (r:
        InputStatus)
        requires
            old(self).subject < old(pieces)@.len(),
            old(self).curr < old(pieces)@[old(self).subject as int].0.keys@.len(),
        ensures
            final(self).subject == old(self).subject,
            r == judged(
                old(pieces)@[old(self).subject as int].0.keys@[old(self).curr as int].code,
                *key,
            ),
            final(self).curr == curr_after(
                old(pieces)@[old(self).subject as int].0.keys@,
                old(self).curr as int,
                *key,
            ),
            final(pieces)@.len() == old(pieces)@.len(),
            forall|i: int|
                0 <= i < old(pieces)@.len() && i != old(self).subject ==> final(pieces)@[i] == old(
                    pieces,
                )@[i],
            final(pieces)@[old(self).subject as int].1 == old(pieces)@[old(self).subject as int].1,
            final(pieces)@[old(self).subject as int].0.keys@ == keys_after(
                old(pieces)@[old(self).subject as int].0.keys@,
                old(self).curr as int,
                *key,
            ),
    {
        let current: char = pieces[self.subject].0.index(self.curr).code;
        assert(self.curr < pieces[self.subject as int].0.keys.len());
        match key {
            Keystroke::Char(c) => {
                if *c == current {
                    pieces[self.subject].0.mark(self.curr, Status::Passed);
                    self.curr = self.curr + 1;
                    InputStatus::Correct
                } else {
                    pieces[self.subject].0.mark(self.curr, Status::Missed);
                    InputStatus::Wrong
                }
            },
            _ => InputStatus::Unhandled,
        }
    }
}

/// The words of a training with their places, the index of the word that
/// comes next, and the exercise on the word that is being typed.
pub struct Training {
    pub pieces: Vec<(TypingSequence, Pos)>,
    pub next_at: usize,
    pub exercise: Option<Exercise>,
}

impl Training {
    /// Whether the next word is a word of the training or its end, and the
    /// exercise, if there is one, speaks of a word of the training.
    pub open spec fn wf(&self) -> bool {
        &&& self.next_at <= self.pieces@.len()
        &&& self.exercise matches Some(e) ==> e.fits(self.pieces@)
    }

    /// Whether a word is being typed and is not typed to its end.
    pub open spec fn in_play(&self) -> bool {
        &&& self.exercise matches Some(e)
        &&& e.subject < self.pieces@.len()
        &&& e.curr < self.pieces@[e.subject as int].0.keys@.len()
    }

    /// Pairs each word with its place. Words without a place and places
    /// without a word are left out.
    pub fn new(words: Vec<String>, plan: Vec<Pos>) -> (r: Training)
        ensures
            r.wf(),
            r.next_at == 0,
            r.exercise is None,
            r.pieces@.len() == if words@.len() <= plan@.len() {
                words@.len()
            } else {
                plan@.len()
            },
            forall|i: int|
                0 <= i < r.pieces@.len() ==> {
                    &&& (#[trigger] r.pieces@[i]).0.keys@ == fresh_keys(words@[i]@)
                    &&& r.pieces@[i].1 == plan@[i]
                },
    {
        let count: usize = if words.len() <= plan.len() { words.len() } else { plan.len() };
        let mut pieces: Vec<(TypingSequence, Pos)> = Vec::new();
        let mut i: usize = 0;
        while i < count
            invariant
                count <= words@.len(),
                count <= plan@.len(),
                i <= count,
                pieces@.len() == i,
                forall|j: int|
                    0 <= j < i ==> {
                        &&& (#[trigger] pieces@[j]).0.keys@ == fresh_keys(words@[j]@)
                        &&& pieces@[j].1 == plan@[j]
                    },
            decreases count - i,
        {
            pieces.push((TypingSequence::new(&words[i]), plan[i]));
            i += 1;
        }
        Training { pieces, next_at: 0, exercise: None }
    }

    /// Starts the exercise on the next word.
    pub fn next(&mut self)
        requires
            old(self).next_at < old(self).pieces@.len(),
        ensures
            final(self).wf(),
            final(self).pieces == old(self).pieces,
            final(self).next_at == old(self).next_at + 1,
            final(self).exercise == Some(Exercise { subject: old(self).next_at, curr: 0 }),
    {
        assert(self.next_at < self.pieces.len());
        self.exercise = Some(Exercise::new(self.next_at));
        self.next_at = self.next_at + 1;
    }

    /// Whether a word is left to start.
    pub fn has_next(&mut self) -> (r: bool)
        ensures
            r == (old(self).next_at < old(self).pieces@.len()),
            *final(self) == *old(self),
    {
        self.next_at < self.pieces.len()
    }

    /// Shows the word that is being typed.
    pub fn write_current(&self, output: &mut String)
        requires
            self.exercise matches Some(e) && {
                &&& e.subject < self.pieces@.len()
                &&& self.pieces@[e.subject as int].1.x != 0 || self.pieces@[e.subject as int].1.y
                    != 0
                &&& self.pieces@[e.subject as int].1.x + e.curr <= u16::MAX
            },
        ensures
            self.exercise matches Some(e) && final(output)@ == old(output)@ + piece_text(
                self.pieces@[e.subject as int],
                e.curr,
            ) + cursor_text(e, self.pieces@),
    {
        let exercise: Exercise = self.exercise.unwrap();
        exercise.write(&self.pieces, output)
    }

    /// Shows every word of the training at its place.
    pub fn write_all(&self, output: &mut String)
        requires
            forall|i: int|
                0 <= i < self.pieces@.len() ==> (#[trigger] self.pieces@[i]).1.x != 0
                    || self.pieces@[i].1.y != 0,
        ensures
            final(output)@ == old(output)@ + pieces_text(self.pieces@, self.pieces@.len()),
    {
        let not_the_current: usize = usize::MAX;
        let mut i: usize = 0;
        while i < self.pieces.len()
            invariant
                i <= self.pieces@.len(),
                not_the_current == usize::MAX,
                forall|j: int|
                    0 <= j < self.pieces@.len() ==> (#[trigger] self.pieces@[j]).1.x != 0
                        || self.pieces@[j].1.y != 0,
                output@ == old(output)@ + pieces_text(self.pieces@, i as nat),
            decreases self.pieces@.len() - i,
        {
            let ghost before = output@;
            assert(self.pieces@[i as int].1.x != 0 || self.pieces@[i as int].1.y != 0);
            self.pieces[i].0.write_seq(output, not_the_current, &self.pieces[i].1);
            assert(output@ =~= before + piece_text(self.pieces@[i as int], usize::MAX));
            assert(output@ =~= old(output)@ + pieces_text(self.pieces@, (i + 1) as nat));
            i += 1;
        }
    }

    /// Hands a keystroke to the exercise. The word is validated by the
    /// keystroke that passes its last key.
    pub fn play(&mut self, key: &Keystroke) -> (r: ExerciseStatus)
        requires
            old(self).wf(),
            old(self).in_play(),
        ensures
            final(self).wf(),
            final(self).next_at == old(self).next_at,
            final(self).pieces@.len() == old(self).pieces@.len(),
            final(self).exercise matches Some(e) && old(self).exercise matches Some(before) && {
                let keys = old(self).pieces@[before.subject as int].0.keys@;
                &&& e.subject == before.subject
                &&& e.curr == curr_after(keys, before.curr as int, *key)
                &&& final(self).pieces@[e.subject as int].0.keys@ == keys_after(
                    keys,
                    before.curr as int,
                    *key,
                )
                &&& final(self).pieces@[e.subject as int].1 == old(self).pieces@[e.subject as int].1
                &&& forall|i: int|
                    0 <= i < old(self).pieces@.len() && i != e.subject ==> final(self).pieces@[i]
                        == old(self).pieces@[i]
                &&& r == if e.curr >= keys.len() {
                    ExerciseStatus::Validated
                } else {
                    ExerciseStatus::NotYetDone
                }
            },
    {
        let mut exercise: Exercise = self.exercise.unwrap();
        let status = exercise.play(&mut self.pieces, key);
        self.exercise = Some(exercise);
        match status {
            InputStatus::Correct => {
                if exercise.is_done(&self.pieces) {
                    ExerciseStatus::Validated
                } else {
                    ExerciseStatus::NotYetDone
                }
            },
            InputStatus::Wrong | InputStatus::Unhandled => ExerciseStatus::NotYetDone,
        }
    }
}

} // verus!
