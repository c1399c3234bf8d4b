//! The screen of a training: the window that holds the words, and the
//! words to lay out in it.

use vstd::prelude::*;
use crate::escape::{
    clear_all, clear_sequence, emit, goto, goto_sequence, hide_cursor, hide_sequence, show_cursor,
    show_sequence,
};
use crate::flow::{laid_out, placeable, representable, row_count};
use crate::laws::law_frame_enclosed;
use crate::geometry::Pos;
use crate::positioning::{
    frame_of, turned_down, Constraint, Positioning, PostLayoutAction, Window,
};
use crate::print::{rect_text, WindowPrinter};

verus! {

/// The window of a training and the widths of its words.
pub struct Ui {
    pub constraints: Constraint,
    pub items: Vec<usize>,
}

/// The window after the action that follows a layout: shrunk to the frame
/// of the words plus a margin, or left as it is.
pub open spec fn window_after(action: Option<PostLayoutAction>, win: Window, frame: Window) -> Window {
    match action {
        Some(PostLayoutAction::ShrinkEmptySpaces(gapx, gapy)) => Window {
            x: (frame.x - gapx) as u16,
            y: (frame.y - gapy) as u16,
            w: (frame.w + 2 * gapx) as u16,
            h: (frame.h + 2 * gapy) as u16,
        },
        None => win,
    }
}

/// Whether the margin of the action fits around the frame.
pub open spec fn margin_fits(action: Option<PostLayoutAction>, frame: Window) -> bool {
    action matches Some(PostLayoutAction::ShrinkEmptySpaces(gapx, gapy)) ==> {
        &&& gapx <= frame.x
        &&& gapy <= frame.y
        &&& frame.w + 2 * gapx <= u16::MAX
        &&& frame.h + 2 * gapy <= u16::MAX
    }
}

/// Whether `positions` are the layout of the words in the window of
/// `before`, and `win` is that window after the action that follows a layout.
pub open spec fn arranged(before: Constraint, lens: Seq<usize>, positions: Seq<Pos>, win: Window) -> bool {
    exists|frame: Window| #[trigger]
        laid_out(before.request(), lens, positions, frame_of(frame)) && win == window_after(
            before.action,
            before.win,
            frame,
        )
}

/// Whether the margin of the action fits around the frame of any layout of
/// the words: it does not reach beyond the first column or row, and the
/// window it makes can be written in sixteen-bit coordinates.
pub open spec fn margin_allowed(c: Constraint, lens: Seq<usize>) -> bool {
    c.action matches Some(PostLayoutAction::ShrinkEmptySpaces(gapx, gapy)) ==> {
        &&& gapx <= c.win.x
        &&& gapy <= c.win.y
        &&& c.win.w + 2 * gapx <= u16::MAX
        &&& placeable(lens, c.request().dim) ==> row_count(lens, c.request().dim.width) + 2 * gapy
            <= u16::MAX
    }
}

impl Ui {
    pub fn new(c: Constraint, w: Vec<usize>) -> (r: Ui)
        ensures
            r.constraints == c,
            r.items == w,
    {
        Ui { constraints: c, items: w }
    }

    /// Clears the screen, moves the cursor to the first cell and hides it.
    pub fn clear_and_hide_cursor(&mut self, output: &mut String)
        ensures
            *final(self) == *old(self),
            final(output)@ == old(output)@ + clear_sequence() + goto_sequence(1, 1)
                + hide_sequence(),
    {
        let clear = clear_all();
        emit(output, &clear);
        let home = goto(1, 1);
        emit(output, &home);
        let hide = hide_cursor();
        emit(output, &hide);
    }

    /// Moves the cursor below the window and shows it.
    pub fn reset_cursor(&mut self, output: &mut String)
        requires
            old(self).constraints.win.y + old(self).constraints.win.h + 1 <= u16::MAX,
        ensures
            *final(self) == *old(self),
            final(output)@ == old(output)@ + goto_sequence(
                1,
                (old(self).constraints.win.y + old(self).constraints.win.h + 1) as u16,
            ) + show_sequence(),
    {
        let below = goto(1, self.height());
        emit(output, &below);
        let show = show_cursor();
        emit(output, &show);
    }

    /// Draws the border around the window, one cell away from it.
    pub fn refresh(&mut self, output: &mut String)
        requires
            1 <= old(self).constraints.win.x,
            1 <= old(self).constraints.win.y,
            old(self).constraints.win.x + old(self).constraints.win.w <= u16::MAX,
            old(self).constraints.win.y + old(self).constraints.win.h <= u16::MAX,
            old(self).constraints.win.w + 2 <= u16::MAX,
            old(self).constraints.win.h + 2 <= u16::MAX,
            old(self).constraints.win.x > 1 || old(self).constraints.win.y > 1,
        ensures
            *final(self) == *old(self),
            final(output)@ == old(output)@ + rect_text(
                Window {
                    x: (old(self).constraints.win.x - 1) as u16,
                    y: (old(self).constraints.win.y - 1) as u16,
                    w: (old(self).constraints.win.w + 2) as u16,
                    h: (old(self).constraints.win.h + 2) as u16,
                },
            ),
    {
        self.constraints.win.grown_uniform(1).write_rect(output)
    }

    /// The row below the window.
    pub fn height(&self) -> (r: u16)
        requires
            self.constraints.win.y + self.constraints.win.h + 1 <= u16::MAX,
        ensures
            r == self.constraints.win.y + self.constraints.win.h + 1,
    {
        self.constraints.win.y + self.constraints.win.h + 1
    }

    /// Applies the action that follows a layout and hands the positions on.
    pub fn post_actions(&mut self, poses: Vec<Pos>, bounding_box: &Window) -> (r: Vec<Pos>)
        requires
            margin_fits(old(self).constraints.action, *bounding_box),
        ensures
            r == poses,
            final(self).items == old(self).items,
            final(self).constraints.infinite_height == old(self).constraints.infinite_height,
            final(self).constraints.h_align == old(self).constraints.h_align,
            final(self).constraints.v_align == old(self).constraints.v_align,
            final(self).constraints.action == old(self).constraints.action,
            final(self).constraints.win == window_after(
                old(self).constraints.action,
                old(self).constraints.win,
                *bounding_box,
            ),
    {
        match self.constraints.action {
            Some(action) => {
                match action {
                    PostLayoutAction::ShrinkEmptySpaces(gapx, gapy) => {
                        self.constraints.win = bounding_box.grown_sym(gapx, gapy);
                    },
                }
            },
            None => (),
        }
        poses
    }

    /// Lays the words out in the window, then applies the action that
    /// follows a layout.
    pub fn do_layout(&mut self) -> (r: Result<Vec<Pos>, String>)
        requires
            representable(old(self).constraints.request(), old(self).items@),
            margin_allowed(old(self).constraints, old(self).items@),
        ensures
            final(self).items == old(self).items,
            match r {
                Ok(positions) => arranged(
                    old(self).constraints,
                    old(self).items@,
                    positions@,
                    final(self).constraints.win,
                ),
                Err(message) => {
                    &&& final(self).constraints == old(self).constraints
                    &&& turned_down(old(self).constraints.request(), old(self).items@, message@)
                },
            },
    {
        match self.constraints.organise(&self.items) {
            Ok((poses, win)) => {
                proof {
                    law_frame_enclosed(
                        self.constraints.request(),
                        self.items@,
                        poses@,
                        frame_of(win),
                    );
                }
                let positions = self.post_actions(poses, &win);
                assert(laid_out(
                    old(self).constraints.request(),
                    old(self).items@,
                    positions@,
                    frame_of(win),
                ) && self.constraints.win == window_after(
                    old(self).constraints.action,
                    old(self).constraints.win,
                    win,
                ));
                assert(arranged(
                    old(self).constraints,
                    old(self).items@,
                    positions@,
                    self.constraints.win,
                ));
                Ok(positions)
            },
            Err(s) => {
                assert(self.constraints.asked() == self.constraints.request());
                Err(s)
            },
        }
    }
}

} // verus!
