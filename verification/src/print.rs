//! Positions, windows, key sequences and signs that draw themselves.

use vstd::prelude::*;
use crate::brush::{
    cell_text, corners_text, edges_text, hline_text, moved, vline_text, write_at, write_hline,
    write_vline, ACS_BLCORNER, ACS_BRCORNER, ACS_HLINE, ACS_TLCORNER, ACS_TRCORNER, ACS_VLINE,
};
use crate::escape::{emit, goto, goto_sequence, push_char};
use crate::format::{colorized_text, SequenceFormat};
use crate::geometry::{Dim, Pos};
use crate::positioning::{PosMovement, Window, WindowCorner};
use crate::sequence::TypingSequence;
use crate::sign::TypingSign;

verus! {

/// Drawing that starts at a position.
pub trait PosPrinter: PosMovement {
    /// Shows `keycode` in `w` cells from the position to the right.
    fn write_hline(&self, keycode: char, w: u16, output: &mut String)
        requires
            self.place().x != 0 || self.place().y != 0,
        ensures
            final(output)@ == old(output)@ + hline_text(keycode, self.place(), w as nat),
    ;

    /// Shows `keycode` in `h` cells from the position downwards.
    fn write_vline(&self, keycode: char, h: u16, output: &mut String)
        requires
            h > 0 ==> self.place().x != 0 || self.place().y != 0,
            h > 0 ==> self.place().y + h - 1 <= u16::MAX,
        ensures
            final(output)@ == old(output)@ + vline_text(keycode, self.place(), h as nat),
    ;

    /// Shows `keycode` at the position.
    fn write_at(&self, keycode: char, output: &mut String)
        requires
            self.place().x != 0 || self.place().y != 0,
        ensures
            final(output)@ == old(output)@ + cell_text(keycode, self.place()),
    ;
}

impl PosPrinter for Pos {
    fn write_hline(&self, keycode: char, w: u16, output: &mut String) {
        write_hline(keycode, self, w, output)
    }

    fn write_vline(&self, keycode: char, h: u16, output: &mut String) {
        write_vline(keycode, self, h, output)
    }

    fn write_at(&self, keycode: char, output: &mut String) {
        write_at(keycode, self, output)
    }
}

/// The extent of a window.
pub open spec fn extent(win: Window) -> Dim {
    Dim { w: win.w, h: win.h }
}

/// The top-left cell of a window.
pub open spec fn corner(win: Window) -> Pos {
    Pos { x: win.x, y: win.y }
}

/// The text that draws the border of a window: the corners, the top and
/// bottom edges, then the left and the right side.
pub open spec fn rect_text(win: Window) -> Seq<char> {
    corners_text(corner(win), extent(win)) + edges_text(corner(win), extent(win)) + flanks_text(
        win,
    )
}

/// Whether the border of a window can be drawn: the window is at least two
/// cells wide and high, does not start at the cell (0, 0) and ends inside
/// the coordinate space.
pub open spec fn bordered(win: Window) -> bool {
    &&& 2 <= win.w
    &&& 2 <= win.h
    &&& win.x != 0 || win.y != 0
    &&& win.x + win.w - 1 <= u16::MAX
    &&& win.y + win.h - 1 <= u16::MAX
}

/// Drawing the border of a window.
pub trait WindowPrinter: WindowCorner {
    /// Draws the border of the window.
    fn write_rect(&self, output: &mut String)
        requires
            bordered(self.area()),
        ensures
            final(output)@ == old(output)@ + rect_text(self.area()),
    ;
}

/// The text that draws the left and then the right side of a window,
/// between its corners.
pub open spec fn flanks_text(win: Window) -> Seq<char> {
    vline_text(ACS_VLINE, moved(corner(win), 0, 1), (win.h - 2) as nat) + vline_text(
        ACS_VLINE,
        moved(corner(win), win.w - 1, 1),
        (win.h - 2) as nat,
    )
}

/// Draws the four corners of a window.
fn rect_corners(win: &Window, output: &mut String)
    requires
        bordered(*win),
    ensures
        final(output)@ == old(output)@ + corners_text(corner(*win), extent(*win)),
{
    win.top_left().write_at(ACS_TLCORNER, output);
    win.top_right().write_at(ACS_TRCORNER, output);
    let ghost upper = output@;
    win.bottom_left().write_at(ACS_BLCORNER, output);
    win.bottom_right().write_at(ACS_BRCORNER, output);
    assert(upper =~= old(output)@ + (cell_text(ACS_TLCORNER, corner(*win)) + cell_text(
        ACS_TRCORNER,
        moved(corner(*win), win.w - 1, 0),
    )));
    assert(output@ =~= old(output)@ + corners_text(corner(*win), extent(*win)));
}

/// Draws the top and the bottom edge of a window.
fn rect_edges(win: &Window, output: &mut String)
    requires
        bordered(*win),
    ensures
        final(output)@ == old(output)@ + edges_text(corner(*win), extent(*win)),
{
    win.top_left().shifted_x(1).write_hline(ACS_HLINE, win.w - 2, output);
    win.bottom_left().shifted_x(1).write_hline(ACS_HLINE, win.w - 2, output);
    assert(output@ =~= old(output)@ + edges_text(corner(*win), extent(*win)));
}

/// Draws the left and the right side of a window.
fn rect_flanks(win: &Window, output: &mut String)
    requires
        bordered(*win),
    ensures
        final(output)@ == old(output)@ + flanks_text(*win),
{
    win.top_left().shifted_y(1).write_vline(ACS_VLINE, win.h - 2, output);
    win.top_right().shifted_y(1).write_vline(ACS_VLINE, win.h - 2, output);
    assert(output@ =~= old(output)@ + flanks_text(*win));
}

impl WindowPrinter for Window {
    fn write_rect(&self, output: &mut String) {
        rect_corners(self, output);
        rect_edges(self, output);
        rect_flanks(self, output);
        assert(output@ =~= old(output)@ + rect_text(*self));
    }
}

/// Drawing a sequence of keys.
pub trait SequencePrinter: SequenceFormat {
    /// Shows the keys from `coord` on, with the key at `current` marked as
    /// due.
    fn write_seq(&self, output: &mut String, current: usize, coord: &Pos)
        requires
            coord.x != 0 || coord.y != 0,
        ensures
            final(output)@ == old(output)@ + goto_sequence(coord.x, coord.y) + colorized_text(
                self.shown(),
                current as int,
            ),
    ;
}

impl SequencePrinter for TypingSequence {
    fn write_seq(&self, output: &mut String, current: usize, coord: &Pos) {
        let cursor = goto(coord.x, coord.y);
        emit(output, &cursor);
        let text = self.colorized(current);
        emit(output, &text);
    }
}

/// The text that shows a sign: the move to its place, its keys with none
/// marked as due, and a line break.
pub open spec fn sign_text(sign: TypingSign) -> Seq<char> {
    (goto_sequence(sign.coord.x, sign.coord.y) + colorized_text(
        sign.seq.keys@,
        sign.seq.keys@.len() as int,
    )).push('\n')
}

/// Drawing a sign.
pub trait SignPrinter {
    /// The sign that is drawn.
    spec fn sign(&self) -> TypingSign;

    /// Shows the sign at its place.
    fn show(&self, output: &mut String)
        requires
            self.sign().coord.x != 0 || self.sign().coord.y != 0,
        ensures
            final(output)@ == old(output)@ + sign_text(self.sign()),
    ;
}

impl SignPrinter for TypingSign {
    open spec fn sign(&self) -> TypingSign {
        *self
    }

    fn show(&self, output: &mut String) {
        let cursor = goto(self.coord.x, self.coord.y);
        emit(output, &cursor);
        let text = self.seq.colorized(self.seq.len());
        emit(output, &text);
        push_char(output, '\n');
        assert(output@ =~= old(output)@ + sign_text(*self));
    }
}

} // verus!
