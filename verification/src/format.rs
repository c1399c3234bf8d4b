//! Keys as coloured text: the background tells what became of each key.

use vstd::prelude::*;
use crate::escape::{
    background_green, background_light_red, background_magenta, background_reset, emit,
    palette_background, push_char, reset_background,
};
use crate::sequence::TypingSequence;
use crate::typing::Typing;
use crate::typing::key::{Key, Status};

verus! {

/// The background of a key: green once it is passed, light red once it is
/// missed; before that magenta where it is the key that is due, and the
/// default elsewhere.
pub open spec fn status_color(status: Status, is_curr: bool) -> Seq<char> {
    match status {
        Status::Unvalidated => if is_curr {
            palette_background('5')
        } else {
            reset_background()
        },
        Status::Missed => palette_background('9'),
        Status::Passed => palette_background('2'),
    }
}

/// The first `n` keys as coloured text: each key is its background followed
/// by its character.
pub open spec fn colored_keys(keys: Seq<Key>, current: int, n: nat) -> Seq<char>
    decreases n,
{
    if n == 0 {
        Seq::empty()
    } else {
        colored_keys(keys, current, (n - 1) as nat) + status_color(
            keys[n - 1].status,
            n - 1 == current,
        ).push(keys[n - 1].code)
    }
}

/// All keys as coloured text, followed by the default background.
pub open spec fn colorized_text(keys: Seq<Key>, current: int) -> Seq<char> {
    colored_keys(keys, current, keys.len()) + reset_background()
}

/// The background of a key as text.
pub fn color_text(status: &Status, is_curr: bool) -> (s: String)
    ensures
        s@ == status_color(*status, is_curr),
{
    match status {
        Status::Unvalidated => {
            if is_curr {
                background_magenta()
            } else {
                background_reset()
            }
        },
        Status::Missed => background_light_red(),
        Status::Passed => background_green(),
    }
}

/// The keys as coloured text, with the key at `current` marked as due. An
/// index beyond the keys marks none.
pub fn colorize(keys: &Vec<Key>, current: usize) -> (s: String)
    ensures
        s@ == colorized_text(keys@, current as int),
{
    let mut repr = String::new();
    let mut i: usize = 0;
    while i < keys.len()
        invariant
            i <= keys@.len(),
            repr@ == colored_keys(keys@, current as int, i as nat),
        decreases keys@.len() - i,
    {
        let ghost before = repr@;
        let color = color_text(&keys[i].status, i == current);
        emit(&mut repr, &color);
        push_char(&mut repr, keys[i].code);
        assert(repr@ =~= before + status_color(keys@[i as int].status, i == current).push(
            keys@[i as int].code,
        ));
        i += 1;
    }
    // reset after for sanity
    let reset = background_reset();
    emit(&mut repr, &reset);
    repr
}

/// A sentence as coloured text.
pub trait TypingFormat {
    /// The keys that are shown.
    spec fn shown(&self) -> Seq<Key>;

    /// The keys as coloured text; no key is marked as due.
    fn highlight_display(&self) -> (s: String)
        ensures
            s@ == colorized_text(self.shown(), self.shown().len() as int),
    ;
}

impl TypingFormat for Typing {
    open spec fn shown(&self) -> Seq<Key> {
        self.sentence@
    }

    fn highlight_display(&self) -> (s: String) {
        colorize(&self.sentence, self.sentence.len())
    }
}

/// A sequence of keys as coloured text.
pub trait SequenceFormat {
    /// The keys that are shown.
    spec fn shown(&self) -> Seq<Key>;

    /// The background of a key.
    fn color_of(status: &Status, is_curr: bool) -> (s: String)
        ensures
            s@ == status_color(*status, is_curr),
    ;

    /// The keys as coloured text, with the key at `current` marked as due.
    fn colorized(&self, current: usize) -> (s: String)
        ensures
            s@ == colorized_text(self.shown(), current as int),
    ;
}

impl SequenceFormat for TypingSequence {
    open spec fn shown(&self) -> Seq<Key> {
        self.keys@
    }

    fn color_of(status: &Status, is_curr: bool) -> (s: String) {
        color_text(status, is_curr)
    }

    fn colorized(&self, current: usize) -> (s: String) {
        colorize(&self.keys, current)
    }
}

} // verus!
