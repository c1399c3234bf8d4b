//! Geometry primitives: positions, dimensions, bounding boxes and bounds
//! that may be absent.

use vstd::prelude::*;

verus! {

/// A screen coordinate.
#[derive(Debug, Clone, Copy, PartialEq, Eq, Structural)]
pub struct Pos {
    pub x: u16,
    pub y: u16,
}

/// The coordinate `base + incr`, wrapped into the sixteen-bit coordinate space.
pub open spec fn shifted(base: u16, incr: i16) -> int {
    (base + incr) % 0x10000
}

fn shift_coord(base: u16, incr: i16) -> (r: u16)
    ensures
        r == shifted(base, incr),
{
    let sum: i32 = base as i32 + incr as i32;
    if sum < 0 {
        (sum + 0x10000) as u16
    } else if sum > 0xffff {
        (sum - 0x10000) as u16
    } else {
        sum as u16
    }
}

impl Pos {
    /// Moves the position by a signed increment on each axis.
    pub fn shift(&self, incrx: i16, incry: i16) -> (r: Pos)
        ensures
            r.x == shifted(self.x, incrx),
            r.y == shifted(self.y, incry),
            0 <= self.x + incrx <= u16::MAX ==> r.x == self.x + incrx,
            0 <= self.y + incry <= u16::MAX ==> r.y == self.y + incry,
    {
        Pos { x: shift_coord(self.x, incrx), y: shift_coord(self.y, incry) }
    }
}

/// A width and a height.
#[derive(Debug, Clone, Copy, PartialEq, Eq, Structural)]
pub struct Dim {
    pub w: u16,
    pub h: u16,
}

impl Dim {
    /// The dimension made smaller by `incrw` columns and `incrh` rows.
    pub fn shrink(&self, incrw: u16, incrh: u16) -> (r: Dim)
        requires
            incrw <= self.w,
            incrh <= self.h,
        ensures
            r.w == self.w - incrw,
            r.h == self.h - incrh,
    {
        Dim { w: self.w - incrw, h: self.h - incrh }
    }

    /// The dimension made larger by `incrw` columns and `incrh` rows.
    pub fn grow(&self, incrw: u16, incrh: u16) -> (r: Dim)
        requires
            self.w + incrw <= u16::MAX,
            self.h + incrh <= u16::MAX,
        ensures
            r.w == self.w + incrw,
            r.h == self.h + incrh,
    {
        Dim { w: self.w + incrw, h: self.h + incrh }
    }
}

/// The room for words in a terminal of `size.0` columns and `size.1` rows:
/// one column and two rows are kept free.
pub fn term_dim(size: (u16, u16)) -> (r: Dim)
    requires
        1 <= size.0,
        2 <= size.1,
    ensures
        r.w == size.0 - 1,
        r.h == size.1 - 2,
{
    Dim { h: size.1 - 2, w: size.0 - 1 }
}

/// A bound that is either a concrete value or absent.
#[derive(Debug, PartialEq, Eq, Structural)]
pub enum Measurement<T> {
    Value(T),
    Infinite,
}

/// A width and a height, each of which may be unbounded.
#[derive(Debug, PartialEq, Eq, Structural)]
pub struct AdaptativeDim {
    pub width: Measurement<u16>,
    pub height: Measurement<u16>,
}

impl From<Dim> for AdaptativeDim {
    fn from(d: Dim) -> (r: AdaptativeDim) {
        AdaptativeDim { width: Measurement::Value(d.w), height: Measurement::Value(d.h) }
    }
}

impl vstd::std_specs::convert::FromSpecImpl<Dim> for AdaptativeDim {
    open spec fn obeys_from_spec() -> bool {
        true
    }

    open spec fn from_spec(d: Dim) -> AdaptativeDim {
        AdaptativeDim { width: Measurement::Value(d.w), height: Measurement::Value(d.h) }
    }
}

/// An axis-aligned rectangle: its top-left corner and its extent.
#[derive(Debug, Clone, Copy, PartialEq, Eq, Structural)]
pub struct BoundingBox {
    pub x: u16,
    pub y: u16,
    pub w: u16,
    pub h: u16,
}

impl BoundingBox {
    /// The top-left corner.
    pub fn pos(&self) -> (r: Pos)
        ensures
            r == (Pos { x: self.x, y: self.y }),
    {
        Pos { x: self.x, y: self.y }
    }

    /// The extent.
    pub fn dim(&self) -> (r: Dim)
        ensures
            r == (Dim { w: self.w, h: self.h }),
    {
        Dim { w: self.w, h: self.h }
    }
}

} // verus!
