//! Windows on the screen, their corners, and moves of a position.

use vstd::prelude::*;
use crate::constraint::{Alignment, HAlignment, LayoutError, VAlignment};
use crate::escape::{decimal, decimal_text, emit};
use crate::flow::{laid_out, rejected, representable};
use crate::geometry::{AdaptativeDim, BoundingBox, Measurement, Pos};

verus! {

/// Moves of a position to the right and down.
pub trait PosMovement {
    /// The position that is moved.
    spec fn place(&self) -> Pos;

    /// The position `dx` cells to the right.
    fn shifted_x(&self, dx: u16) -> (r: Pos)
        requires
            self.place().x + dx <= u16::MAX,
        ensures
            r.x == self.place().x + dx,
            r.y == self.place().y,
    ;

    /// The position `dy` cells further down.
    fn shifted_y(&self, dy: u16) -> (r: Pos)
        requires
            self.place().y + dy <= u16::MAX,
        ensures
            r.x == self.place().x,
            r.y == self.place().y + dy,
    ;
}

impl PosMovement for Pos {
    open spec fn place(&self) -> Pos {
        *self
    }

    fn shifted_x(&self, dx: u16) -> (r: Pos) {
        Pos { x: self.x + dx, y: self.y }
    }

    fn shifted_y(&self, dy: u16) -> (r: Pos) {
        Pos { x: self.x, y: self.y + dy }
    }
}

/// A rectangle of cells: its top-left cell and its extent.
#[derive(Debug, Clone, Copy, PartialEq, Eq, Structural)]
pub struct Window {
    pub x: u16,
    pub y: u16,
    pub w: u16,
    pub h: u16,
}

impl Window {
    /// The window made larger by `incr` cells on every side.
    pub fn grown_uniform(&self, incr: u16) -> (r: Window)
        requires
            incr <= self.x,
            incr <= self.y,
            self.w + 2 * incr <= u16::MAX,
            self.h + 2 * incr <= u16::MAX,
        ensures
            r.x == self.x - incr,
            r.y == self.y - incr,
            r.w == self.w + 2 * incr,
            r.h == self.h + 2 * incr,
    {
        Window {
            x: self.x - incr,
            y: self.y - incr,
            w: self.w + incr * 2,
            h: self.h + incr * 2,
        }
    }

    /// The window made larger by `gapx` cells to the left and to the right
    /// and by `gapy` cells above and below.
    pub fn grown_sym(&self, gapx: u16, gapy: u16) -> (r: Window)
        requires
            gapx <= self.x,
            gapy <= self.y,
            self.w + 2 * gapx <= u16::MAX,
            self.h + 2 * gapy <= u16::MAX,
        ensures
            r.x == self.x - gapx,
            r.y == self.y - gapy,
            r.w == self.w + 2 * gapx,
            r.h == self.h + 2 * gapy,
    {
        Window {
            x: self.x - gapx,
            y: self.y - gapy,
            w: self.w + gapx * 2,
            h: self.h + gapy * 2,
        }
    }

    /// The window made smaller by `decr` cells on every side.
    pub fn shrinked_uniform(&self, decr: u16) -> (r: Window)
        requires
            self.x + decr <= u16::MAX,
            self.y + decr <= u16::MAX,
            2 * decr <= self.w,
            2 * decr <= self.h,
        ensures
            r.x == self.x + decr,
            r.y == self.y + decr,
            r.w == self.w - 2 * decr,
            r.h == self.h - 2 * decr,
    {
        Window {
            x: self.x + decr,
            y: self.y + decr,
            w: self.w - decr * 2,
            h: self.h - decr * 2,
        }
    }
}

/// The four corner cells of a rectangle.
pub trait WindowCorner {
    /// The rectangle whose corners are asked for.
    spec fn area(&self) -> Window;

    /// Whether the rectangle holds a cell and its far corner lies inside
    /// the coordinate space.
    open spec fn cornered(&self) -> bool {
        &&& 0 < self.area().w
        &&& 0 < self.area().h
        &&& self.area().x + self.area().w - 1 <= u16::MAX
        &&& self.area().y + self.area().h - 1 <= u16::MAX
    }

    fn top_left(&self) -> (r: Pos)
        ensures
            r.x == self.area().x,
            r.y == self.area().y,
    ;

    fn top_right(&self) -> (r: Pos)
        requires
            self.cornered(),
        ensures
            r.x == self.area().x + self.area().w - 1,
            r.y == self.area().y,
    ;

    fn bottom_left(&self) -> (r: Pos)
        requires
            self.cornered(),
        ensures
            r.x == self.area().x,
            r.y == self.area().y + self.area().h - 1,
    ;

    fn bottom_right(&self) -> (r: Pos)
        requires
            self.cornered(),
        ensures
            r.x == self.area().x + self.area().w - 1,
            r.y == self.area().y + self.area().h - 1,
    ;
}

impl WindowCorner for Window {
    open spec fn area(&self) -> Window {
        *self
    }

    fn top_left(&self) -> (r: Pos) {
        Pos { x: self.x, y: self.y }
    }

    fn top_right(&self) -> (r: Pos) {
        Pos { x: self.x + (self.w - 1), y: self.y }
    }

    fn bottom_left(&self) -> (r: Pos) {
        Pos { x: self.x, y: self.y + (self.h - 1) }
    }

    fn bottom_right(&self) -> (r: Pos) {
        Pos { x: self.x + (self.w - 1), y: self.y + (self.h - 1) }
    }
}

/// What is done to the window once the words are laid out.
#[derive(Debug, Clone, Copy, PartialEq, Eq, Structural)]
pub enum PostLayoutAction {
    /// Shrinks the window to the frame of the words, with a margin of so
    /// many columns and rows.
    ShrinkEmptySpaces(u16, u16),
}

/// A layout request in terms of a window on the screen.
#[derive(Debug)]
pub struct Constraint {
    pub win: Window,
    pub infinite_height: bool,
    pub h_align: HAlignment,
    pub v_align: VAlignment,
    pub action: Option<PostLayoutAction>,
}

impl Constraint {
    /// The request that the window stands for: the space starts at its
    /// top-left cell, is as wide as the window, and as high unless the
    /// height is unbounded.
    pub open spec fn request(&self) -> crate::constraint::Constraint {
        crate::constraint::Constraint {
            origin: Pos { x: self.win.x, y: self.win.y },
            dim: AdaptativeDim {
                width: Measurement::Value(self.win.w),
                height: if self.infinite_height {
                    Measurement::Infinite
                } else {
                    Measurement::Value(self.win.h)
                },
            },
            align: Alignment { vert: self.v_align, hori: self.h_align },
        }
    }

    /// The request that the window stands for.
    pub fn to_request(&self) -> (r: crate::constraint::Constraint)
        ensures
            r == self.request(),
    {
        let height = if self.infinite_height {
            Measurement::Infinite
        } else {
            Measurement::Value(self.win.h)
        };
        crate::constraint::Constraint {
            origin: Pos { x: self.win.x, y: self.win.y },
            dim: AdaptativeDim { width: Measurement::Value(self.win.w), height },
            align: Alignment { vert: self.v_align, hori: self.h_align },
        }
    }
}

/// The frame that a window covers.
pub open spec fn frame_of(win: Window) -> BoundingBox {
    BoundingBox { x: win.x, y: win.y, w: win.w, h: win.h }
}

/// What is said of a refused layout: of a word that is too wide its width,
/// of a word too many its index.
pub open spec fn complaint(e: LayoutError, words: Seq<usize>) -> Seq<char> {
    match e {
        LayoutError::TooWide(i) => "too narrow to fit a word of '"@ + decimal(words[i as int] as nat)
            + "' length"@,
        LayoutError::TooManyWords(i) => "too many word, overflow from the "@ + decimal(i as nat)
            + "th"@,
    }
}

/// Whether `message` says why the layout of the words is refused.
pub open spec fn turned_down(
    c: crate::constraint::Constraint,
    words: Seq<usize>,
    message: Seq<char>,
) -> bool {
    exists|e: LayoutError| #[trigger] rejected(c, words, e) && message == complaint(e, words)
}

/// Says why a layout is refused.
pub fn describe(e: &LayoutError, words: &Vec<usize>) -> (s: String)
    requires
        e.index() < words@.len(),
    ensures
        s@ == complaint(*e, words@),
{
    match e {
        LayoutError::TooWide(i) => {
            let mut s = "too narrow to fit a word of '".to_owned();
            let number = decimal_text(words[*i]);
            emit(&mut s, &number);
            let tail = "' length".to_owned();
            emit(&mut s, &tail);
            s
        },
        LayoutError::TooManyWords(i) => {
            let mut s = "too many word, overflow from the ".to_owned();
            let number = decimal_text(*i);
            emit(&mut s, &number);
            let tail = "th".to_owned();
            emit(&mut s, &tail);
            s
        },
    }
}

/// Laying out words that are known by their widths.
pub trait Positioning {
    /// The request that is answered.
    spec fn asked(&self) -> crate::constraint::Constraint;

    /// Lays the words out. Gives the position of every word and the window
    /// that frames them, or says why the words do not fit.
    fn organise(&self, words: &Vec<usize>) -> (r: Result<(Vec<Pos>, Window), String>)
        requires
            representable(self.asked(), words@),
        ensures
            match r {
                Ok((positions, win)) => laid_out(self.asked(), words@, positions@, frame_of(win)),
                Err(message) => turned_down(self.asked(), words@, message@),
            },
    ;
}

impl Positioning for Constraint {
    open spec fn asked(&self) -> crate::constraint::Constraint {
        self.request()
    }

    fn organise(&self, words: &Vec<usize>) -> (r: Result<(Vec<Pos>, Window), String>) {
        let request = self.to_request();
        match request.organize_lengths(words) {
            Ok((positions, frame)) => {
                let win = Window { x: frame.x, y: frame.y, w: frame.w, h: frame.h };
                assert(frame_of(win) == frame);
                Ok((positions, win))
            },
            Err(e) => {
                let message = describe(&e, words);
                assert(rejected(self.asked(), words@, e));
                Err(message)
            },
        }
    }
}

} // verus!
