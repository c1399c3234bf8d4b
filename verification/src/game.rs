//! The decisions of a game: what a keystroke does to the exercise at hand,
//! and how the game goes on after it.

use vstd::prelude::*;
use crate::positioning::Window;
use crate::training::{curr_after, keys_after, ExerciseStatus, Keystroke, Training};
use crate::typing::key::Status as KeyStatus;
use crate::typing::{utf16_units, Typing};
use crate::ui::Ui;

verus! {

/// How an exercise ended.
#[derive(Debug, Clone, Copy, PartialEq, Eq, Structural)]
pub enum Status {
    Aborted,
    Completed,
}

/// What a keystroke does to a sentence whose key at `current` is due: the
/// right character passes the key, a wrong one misses it, any other key
/// leaves the sentence alone.
pub open spec fn sentence_after(typing: Typing, key: Keystroke) -> Seq<crate::typing::key::Key> {
    let due = typing.sentence@[typing.current as int];
    match key {
        Keystroke::Char(c) => if c == due.code {
            typing.sentence@.update(typing.current as int, due.marked(KeyStatus::Passed))
        } else {
            typing.sentence@.update(typing.current as int, due.marked(KeyStatus::Missed))
        },
        _ => typing.sentence@,
    }
}

/// The place in a sentence after a keystroke: only the right character
/// moves on, by the width of the key that it passes.
pub open spec fn place_after(typing: Typing, key: Keystroke) -> int {
    let due = typing.sentence@[typing.current as int];
    if key == Keystroke::Char(due.code) {
        typing.current + utf16_units(due.code)
    } else {
        typing.current as int
    }
}

/// Takes one keystroke of an exercise on a sentence that is not finished.
/// The escape key aborts the exercise; the keystroke that passes the last
/// key completes it; after any other keystroke the exercise goes on.
pub fn exercise_step(seq: &mut Typing, key: &Keystroke) -> (r: Option<Status>)
    requires
        old(seq).current < old(seq).sentence@.len(),
        old(seq).current + 2 <= usize::MAX,
    ensures
        final(seq).raw == old(seq).raw,
        final(seq).sentence@ == sentence_after(*old(seq), *key),
        final(seq).current == place_after(*old(seq), *key),
        r == if *key == Keystroke::Esc {
            Some(Status::Aborted)
        } else if final(seq).current >= final(seq).sentence@.len() {
            Some(Status::Completed)
        } else {
            None
        },
{
    let current: char = seq.sentence[seq.current].code;
    match key {
        Keystroke::Esc => Some(Status::Aborted),
        Keystroke::Char(c) => {
            if *c == current {
                seq.pass();
                seq.forward();
                if seq.is_completed() {
                    Some(Status::Completed)
                } else {
                    None
                }
            } else {
                seq.miss();
                None
            }
        },
        Keystroke::Other => None,
    }
}

/// How a game goes on after a keystroke.
#[derive(Debug, Clone, Copy, PartialEq, Eq, Structural)]
pub enum Turn {
    /// The escape key was hit.
    Aborted,
    /// The word is typed to its end.
    Validated,
    /// The word is not typed to its end yet.
    NotYetDone,
}

/// How the wait between two words goes on after a keystroke.
#[derive(Debug, Clone, Copy, PartialEq, Eq, Structural)]
pub enum Pause {
    /// The escape key was hit.
    Aborted,
    /// The space bar was hit: the next word is due.
    Over,
    /// Any other key: the wait goes on.
    Waiting,
}

/// A training and the screen that shows it.
pub struct Game {
    pub ui: Ui,
    pub training: Training,
}

impl Game {
    pub fn new(ui: Ui, t: Training) -> (r: Game)
        ensures
            r.ui == ui,
            r.training == t,
    {
        Game { ui: ui, training: t }
    }

    /// Takes one keystroke while a word is being typed: the escape key
    /// aborts, any other key is handed to the exercise.
    pub fn on_key(&mut self, key: &Keystroke) -> (r: Turn)
        requires
            old(self).training.wf(),
            old(self).training.in_play(),
        ensures
            final(self).ui == old(self).ui,
            final(self).training.wf(),
            *key == Keystroke::Esc ==> r == Turn::Aborted && final(self).training == old(
                self,
            ).training,
            *key != Keystroke::Esc ==> {
                &&& final(self).training.next_at == old(self).training.next_at
                &&& final(self).training.pieces@.len() == old(self).training.pieces@.len()
                &&& final(self).training.exercise matches Some(e) && old(self).training.exercise
                    matches Some(before) && {
                    let keys = old(self).training.pieces@[before.subject as int].0.keys@;
                    &&& e.subject == before.subject
                    &&& e.curr == curr_after(keys, before.curr as int, *key)
                    &&& final(self).training.pieces@[e.subject as int].0.keys@ == keys_after(
                        keys,
                        before.curr as int,
                        *key,
                    )
                    &&& r == if e.curr >= keys.len() {
                        Turn::Validated
                    } else {
                        Turn::NotYetDone
                    }
                }
            },
    {
        match key {
            Keystroke::Esc => Turn::Aborted,
            _ => match self.training.play(key) {
                ExerciseStatus::Validated => Turn::Validated,
                ExerciseStatus::NotYetDone => Turn::NotYetDone,
            },
        }
    }
}

/// Takes one keystroke of the wait between two words.
pub fn wait_separator(key: &Keystroke) -> (r: Pause)
    ensures
        r == match *key {
            Keystroke::Esc => Pause::Aborted,
            Keystroke::Char(c) => if c == ' ' {
                Pause::Over
            } else {
                Pause::Waiting
            },
            Keystroke::Other => Pause::Waiting,
        },
{
    match key {
        Keystroke::Esc => Pause::Aborted,
        Keystroke::Char(c) => {
            if *c == ' ' {
                Pause::Over
            } else {
                Pause::Waiting
            }
        },
        Keystroke::Other => Pause::Waiting,
    }
}

/// The window for the words in a terminal of `size.0` columns and `size.1`
/// rows: the last row is kept free, and so is one cell on every side.
pub fn play_area(size: (u16, u16)) -> (r: Window)
    requires
        2 <= size.0,
        3 <= size.1,
    ensures
        r == (Window { x: 2, y: 2, w: (size.0 - 2) as u16, h: (size.1 - 3) as u16 }),
{
    Window { x: 1, y: 1, h: size.1 - 1, w: size.0 }.shrinked_uniform(1)
}

} // verus!
