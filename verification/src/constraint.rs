//! What a layout request asks for: where the space starts, how large it is,
//! and how the content is aligned inside it.

use vstd::prelude::*;
use crate::geometry::{AdaptativeDim, Pos};

verus! {

/// Horizontal placement of a row inside the available width.
#[derive(Debug, Clone, Copy, PartialEq, Eq, Structural)]
pub enum HAlignment {
    AlignLeft,
    AlignMiddle,
    AlignRight,
}

/// Vertical placement of the block of rows inside the available height.
#[derive(Debug, Clone, Copy, PartialEq, Eq, Structural)]
pub enum VAlignment {
    AlignTop,
    AlignCenter,
    AlignBottom,
}

/// An alignment policy on both axes.
#[derive(Debug, Clone, Copy, PartialEq, Eq, Structural)]
pub struct Alignment {
    pub vert: VAlignment,
    pub hori: HAlignment,
}

impl Alignment {
    pub fn centered() -> (r: Alignment)
        ensures
            r.vert == VAlignment::AlignCenter,
            r.hori == HAlignment::AlignMiddle,
    {
        Alignment { vert: VAlignment::AlignCenter, hori: HAlignment::AlignMiddle }
    }

    pub fn top_left() -> (r: Alignment)
        ensures
            r.vert == VAlignment::AlignTop,
            r.hori == HAlignment::AlignLeft,
    {
        Alignment { vert: VAlignment::AlignTop, hori: HAlignment::AlignLeft }
    }

    pub fn bottom_right() -> (r: Alignment)
        ensures
            r.vert == VAlignment::AlignBottom,
            r.hori == HAlignment::AlignRight,
    {
        Alignment { vert: VAlignment::AlignBottom, hori: HAlignment::AlignRight }
    }
}

/// A layout request: the top-left anchor of the space, its extent and the
/// alignment of the content inside it.
#[derive(Debug)]
pub struct Constraint {
    pub origin: Pos,
    pub dim: AdaptativeDim,
    pub align: Alignment,
}

impl Constraint {
    /// A constraint anchored at the first cell of a terminal, which counts
    /// its cells from one.
    pub fn new(f: AdaptativeDim, alg: Alignment) -> (r: Constraint)
        ensures
            r.origin == (Pos { x: 1, y: 1 }),
            r.dim == f,
            r.align == alg,
    {
        Constraint { origin: Pos { x: 1, y: 1 }, dim: f, align: alg }
    }
}

/// Why a sequence of words cannot be laid out. Each variant carries the
/// index of the first word that does not fit.
#[derive(Debug, PartialEq, Eq, Structural)]
pub enum LayoutError {
    /// The word is wider than the available width.
    TooWide(usize),
    /// The word would open a row below the available height.
    TooManyWords(usize),
}

impl LayoutError {
    /// The index of the word that is blamed.
    pub open spec fn index(&self) -> int {
        match self {
            LayoutError::TooWide(i) => *i as int,
            LayoutError::TooManyWords(i) => *i as int,
        }
    }
}

} // verus!
