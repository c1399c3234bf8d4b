//! The flow-layout engine: a greedy pass that wraps the words into rows, and
//! a second pass that aligns the rows inside the constraint.

use vstd::prelude::*;
use crate::constraint::{Constraint, HAlignment, LayoutError, VAlignment};
use crate::flow::{
    col_of, failure_at, laid_out, lemma_extent_within, lemma_placeable_contained,
    lemma_rough_bounds, lemma_row_end_of_last, lemma_rows_monotone,
    lemma_representable_measurable, lemma_unbounded_width_placeable, measurable, placeable,
    placed_x, placed_y, rejected, representable,
    h_offset, row_count, row_end, row_of, rows_allowed, v_offset, within,
};
use crate::geometry::{BoundingBox, Dim, Measurement, Pos};
use crate::laws::{enclosed, law_frame_enclosed};
use crate::word::Bucket;

verus! {

/// Column and row of a word before alignment, counted from the origin.
pub struct Slot {
    pub col: u16,
    pub row: usize,
}

/// Whether slots, content size and row lengths are the outcome of greedy
/// wrapping.
pub open spec fn roughed(
    c: Constraint,
    lens: Seq<usize>,
    slots: Seq<Slot>,
    size: Dim,
    rows: Seq<u16>,
) -> bool {
    &&& placeable(lens, c.dim)
    &&& slots.len() == lens.len()
    &&& forall|i: int|
        0 <= i < lens.len() ==> {
            &&& (#[trigger] slots[i]).col == col_of(lens, c.dim.width, i)
            &&& slots[i].row == row_of(lens, c.dim.width, i)
        }
    &&& rows.len() == row_count(lens, c.dim.width)
    &&& forall|i: int|
        0 <= i < lens.len() ==> rows[row_of(lens, c.dim.width, i)] == #[trigger] row_end(
            lens,
            c.dim.width,
            i,
        )
    &&& size.h == row_count(lens, c.dim.width)
    &&& forall|i: int| 0 <= i < lens.len() ==> #[trigger] row_end(lens, c.dim.width, i) <= size.w
    &&& lens.len() == 0 ==> size.w == 0
    &&& lens.len() > 0 ==> exists|i: int|
        0 <= i < lens.len() && size.w == #[trigger] row_end(lens, c.dim.width, i)
}

/// How far a row of length `row_len` is moved to the right in a space of
/// width `w`.
pub fn h_shift(align: &HAlignment, w: u16, row_len: u16) -> (r: u16)
    requires
        row_len <= w,
    ensures
        r == h_offset(*align, Measurement::Value(w), row_len as int),
        r + row_len <= w,
{
    match align {
        HAlignment::AlignLeft => 0,
        HAlignment::AlignMiddle => (w - row_len) / 2,
        HAlignment::AlignRight => w - row_len,
    }
}

/// How far a block of `rows` rows is moved down in a space of height `h`.
/// A block that is higher than the space stays where it is.
pub fn v_shift(align: &VAlignment, h: u16, rows: u16) -> (r: u16)
    ensures
        r == v_offset(*align, Measurement::Value(h), rows as int),
        rows <= h ==> r + rows <= h,
{
    if rows > h {
        0
    } else {
        match align {
            VAlignment::AlignTop => 0,
            VAlignment::AlignCenter => (h - rows) / 2,
            VAlignment::AlignBottom => h - rows,
        }
    }
}

/// The screen column of a slot once its row is aligned.
pub open spec fn aligned_x(c: Constraint, slot: Slot, rows: Seq<u16>) -> int {
    c.origin.x + slot.col + h_offset(c.align.hori, c.dim.width, rows[slot.row as int] as int)
}

/// The screen row of a slot once a block of `size.h` rows is aligned.
pub open spec fn aligned_y(c: Constraint, slot: Slot, size: Dim) -> int {
    c.origin.y + slot.row + v_offset(c.align.vert, c.dim.height, size.h as int)
}

/// Whether slots can be aligned: every slot names a row whose length is
/// known and within the width, the block is allowed under the height, the
/// last slot does not stand above the first, and the aligned slots and the
/// height of their box can be written in sixteen-bit coordinates.
pub open spec fn alignable(c: Constraint, slots: Seq<Slot>, size: Dim, rows: Seq<u16>) -> bool {
    &&& rows_allowed(c.dim.height, size.h as int)
    &&& forall|i: int|
        0 <= i < slots.len() ==> {
            &&& (#[trigger] slots[i]).row < rows.len()
            &&& within(rows[slots[i].row as int] as int, c.dim.width)
            &&& aligned_x(c, slots[i], rows) <= u16::MAX
            &&& aligned_y(c, slots[i], size) <= u16::MAX
        }
    &&& slots.len() > 0 ==> {
        &&& slots[0].row <= slots.last().row
        &&& slots.last().row - slots[0].row + 1 <= u16::MAX
    }
}

/// Whether `positions` and `frame` are the slots aligned: every slot is
/// moved right by the offset of its row and down by the offset of the block;
/// the frame starts at the row of the first position and at the leftmost
/// position, reaches down to the row of the last position, and is as wide
/// as the longest row that holds a slot. Without slots the frame is the
/// empty box at the origin.
pub open spec fn aligned(
    c: Constraint,
    slots: Seq<Slot>,
    size: Dim,
    rows: Seq<u16>,
    positions: Seq<Pos>,
    frame: BoundingBox,
) -> bool {
    &&& positions.len() == slots.len()
    &&& forall|i: int|
        0 <= i < slots.len() ==> {
            &&& (#[trigger] positions[i]).x == aligned_x(c, slots[i], rows)
            &&& positions[i].y == aligned_y(c, slots[i], size)
        }
    &&& if slots.len() == 0 {
        frame == (BoundingBox { x: c.origin.x, y: c.origin.y, w: 0, h: 0 })
    } else {
        &&& frame.y == positions[0].y
        &&& frame.h == positions.last().y - positions[0].y + 1
        &&& forall|i: int| 0 <= i < slots.len() ==> frame.x <= (#[trigger] positions[i]).x
        &&& exists|i: int| 0 <= i < slots.len() && frame.x == (#[trigger] positions[i]).x
        &&& forall|i: int|
            0 <= i < slots.len() ==> rows[(#[trigger] slots[i]).row as int] <= frame.w
        &&& exists|i: int|
            0 <= i < slots.len() && frame.w == rows[(#[trigger] slots[i]).row as int]
    }
}

/// What greedy wrapping gives can be aligned, where the layout can be
/// written in sixteen-bit coordinates.
pub proof fn lemma_rough_is_alignable(
    c: Constraint,
    lens: Seq<usize>,
    slots: Seq<Slot>,
    size: Dim,
    rows: Seq<u16>,
)
    requires
        representable(c, lens),
        roughed(c, lens, slots, size, rows),
    ensures
        alignable(c, slots, size, rows),
{
    lemma_placeable_contained(lens, c.dim);
    assert forall|i: int| 0 <= i < slots.len() implies {
        &&& (#[trigger] slots[i]).row < rows.len()
        &&& within(rows[slots[i].row as int] as int, c.dim.width)
        &&& aligned_x(c, slots[i], rows) <= u16::MAX
        &&& aligned_y(c, slots[i], size) <= u16::MAX
    } by {
        lemma_rough_bounds(lens, c.dim.width, i);
        lemma_rows_monotone(lens, c.dim.width, i, lens.len() - 1);
        assert(within(row_end(lens, c.dim.width, i), c.dim.width));
        assert(placed_x(c, lens, i) <= u16::MAX);
    }
    if slots.len() > 0 {
        lemma_rough_bounds(lens, c.dim.width, lens.len() - 1);
        assert(slots[0].row == row_of(lens, c.dim.width, 0));
        assert(slots.last() == slots[lens.len() - 1]);
    }
}

/// The slots of greedy wrapping, once aligned, are the layout of the words.
pub proof fn lemma_aligned_is_laid_out(
    c: Constraint,
    lens: Seq<usize>,
    slots: Seq<Slot>,
    size: Dim,
    rows: Seq<u16>,
    positions: Seq<Pos>,
    frame: BoundingBox,
)
    requires
        roughed(c, lens, slots, size, rows),
        aligned(c, slots, size, rows, positions, frame),
    ensures
        laid_out(c, lens, positions, frame),
{
    assert forall|i: int| 0 <= i < lens.len() implies {
        &&& (#[trigger] positions[i]).x == placed_x(c, lens, i)
        &&& positions[i].y == placed_y(c, lens, i)
    } by {
        lemma_rough_bounds(lens, c.dim.width, i);
        assert(slots[i].row == row_of(lens, c.dim.width, i));
        assert(rows[row_of(lens, c.dim.width, i)] == row_end(lens, c.dim.width, i));
    }
    if lens.len() > 0 {
        let n = lens.len() as int;
        lemma_rough_bounds(lens, c.dim.width, n - 1);
        assert(positions.last() == positions[n - 1]);
        assert(slots[0].row == row_of(lens, c.dim.width, 0));
        assert forall|i: int| 0 <= i < n implies frame.x <= #[trigger] placed_x(c, lens, i) by {
            assert(frame.x <= positions[i].x);
        }
        let left = choose|i: int| 0 <= i < n && frame.x == (#[trigger] positions[i]).x;
        assert(frame.x == placed_x(c, lens, left));
        assert forall|i: int| 0 <= i < n implies #[trigger] row_end(lens, c.dim.width, i)
            <= frame.w by {
            lemma_rough_bounds(lens, c.dim.width, i);
            assert(rows[slots[i].row as int] <= frame.w);
        }
        let wide = choose|i: int| 0 <= i < n && frame.w == rows[(#[trigger] slots[i]).row as int];
        lemma_rough_bounds(lens, c.dim.width, wide);
        assert(frame.w == row_end(lens, c.dim.width, wide));
    }
}

impl Constraint {
    /// Wraps the words greedily into rows. Gives the slot of every word, the
    /// size of the content and the length of every row, or the complaint of
    /// the first word that does not fit.
    pub fn split_roughly(&self, lens: &Vec<usize>) -> (r: Result<(Vec<Slot>, Dim, Vec<u16>), LayoutError>)
        requires
            measurable(lens@, self.dim),
        ensures
            match r {
                Ok((slots, size, rows)) => roughed(*self, lens@, slots@, size, rows@),
                Err(e) => rejected(*self, lens@, e),
            },
    {
        let n: usize = lens.len();
        let mut slots: Vec<Slot> = Vec::new();
        let mut rows_length: Vec<u16> = Vec::new();
        let mut end: u32 = 0;
        let mut row: usize = 0;
        let mut widest: u16 = 0;
        let mut i: usize = 0;
        while i < n
            invariant
                n == lens@.len(),
                i <= n,
                measurable(lens@, self.dim),
                slots@.len() == i,
                forall|j: int| 0 <= j < i ==> (#[trigger] failure_at(lens@, self.dim, j)) is None,
                forall|j: int|
                    0 <= j < i ==> {
                        &&& (#[trigger] slots@[j]).col == col_of(lens@, self.dim.width, j)
                        &&& slots@[j].row == row_of(lens@, self.dim.width, j)
                    },
                i == 0 ==> end == 0 && row == 0,
                i > 0 ==> end == col_of(lens@, self.dim.width, i - 1) + lens@[i - 1] && row
                    == row_of(lens@, self.dim.width, i - 1),
                end <= 2 * u16::MAX,
                rows_length@.len() == row,
                forall|j: int|
                    0 <= j < i && row_of(lens@, self.dim.width, j) < row ==> {
                        &&& rows_length@[row_of(lens@, self.dim.width, j)] == #[trigger] row_end(
                            lens@,
                            self.dim.width,
                            j,
                        )
                        &&& row_end(lens@, self.dim.width, j) <= widest
                    },
                widest == 0 || exists|j: int|
                    0 <= j < i && widest == #[trigger] row_end(lens@, self.dim.width, j),
            decreases n - i,
        {
            let word: usize = lens[i];
            proof {
                lemma_rough_bounds(lens@, self.dim.width, i as int);
                if i > 0 {
                    lemma_rough_bounds(lens@, self.dim.width, i - 1);
                    assert(failure_at(lens@, self.dim, i - 1) is None);
                    lemma_extent_within(lens@, self.dim.width, i - 1);
                }
                if self.dim.width is Infinite {
                    lemma_unbounded_width_placeable(lens@, self.dim);
                    lemma_placeable_contained(lens@, self.dim);
                    assert(row_end(lens@, self.dim.width, i as int) <= u16::MAX);
                }
            }
            let wraps: bool = match self.dim.width {
                // if the word itself is too wide for the constraint
                Measurement::Value(w) => {
                    if word > w as usize {
                        return Err(LayoutError::TooWide(i));
                    }
                    i > 0 && end + 1 + word as u32 > w as u32
                },
                Measurement::Infinite => false,
            };
            let len: u16 = word as u16;
            let new_row: usize = if wraps { row + 1 } else { row };
            if wraps {
                // check if this fit vertically
                match self.dim.height {
                    Measurement::Value(h) => {
                        if new_row >= h as usize {
                            return Err(LayoutError::TooManyWords(i));
                        }
                    },
                    Measurement::Infinite => {},
                }
            }
            assert(failure_at(lens@, self.dim, i as int) is None);
            if wraps {
                let ghost closed = rows_length@;
                rows_length.push(end as u16);
                if end as u16 > widest {
                    widest = end as u16;
                }
                proof {
                    lemma_row_end_of_last(lens@, self.dim.width, i - 1, i - 1);
                    assert forall|j: int|
                        0 <= j < i && row_of(lens@, self.dim.width, j) < new_row implies {
                        &&& rows_length@[row_of(lens@, self.dim.width, j)] == #[trigger] row_end(
                            lens@,
                            self.dim.width,
                            j,
                        )
                        &&& row_end(lens@, self.dim.width, j) <= widest
                    } by {
                        lemma_rough_bounds(lens@, self.dim.width, j);
                        lemma_rows_monotone(lens@, self.dim.width, j, i - 1);
                        if row_of(lens@, self.dim.width, j) == row {
                            lemma_row_end_of_last(lens@, self.dim.width, j, i - 1);
                        } else {
                            assert(rows_length@[row_of(lens@, self.dim.width, j)]
                                == closed[row_of(lens@, self.dim.width, j)]);
                        }
                    }
                }
            }
            let new_col: u32 = if i == 0 || wraps { 0 } else { end + 1 };
            proof {
                assert forall|j: int| 0 <= j < i implies row_of(lens@, self.dim.width, j)
                    <= row by {
                    lemma_rows_monotone(lens@, self.dim.width, j, i - 1);
                }
            }
            slots.push(Slot { col: new_col as u16, row: new_row });
            end = new_col + len as u32;
            row = new_row;
            i += 1;
        }
        if n == 0 {
            return Ok((slots, Dim { w: 0, h: 0 }, rows_length));
        }
        let ghost closed = rows_length@;
        proof {
            assert(placeable(lens@, self.dim));
            assert(row_end(lens@, self.dim.width, n - 1) <= u16::MAX);
            lemma_row_end_of_last(lens@, self.dim.width, n - 1, n - 1);
        }
        rows_length.push(end as u16);
        if end as u16 > widest {
            widest = end as u16;
        }
        proof {
            assert forall|j: int| 0 <= j < n implies {
                &&& rows_length@[row_of(lens@, self.dim.width, j)] == #[trigger] row_end(
                    lens@,
                    self.dim.width,
                    j,
                )
                &&& row_end(lens@, self.dim.width, j) <= widest
            } by {
                lemma_rough_bounds(lens@, self.dim.width, j);
                lemma_rows_monotone(lens@, self.dim.width, j, n - 1);
                if row_of(lens@, self.dim.width, j) == row {
                    lemma_row_end_of_last(lens@, self.dim.width, j, n - 1);
                } else {
                    assert(rows_length@[row_of(lens@, self.dim.width, j)]
                        == closed[row_of(lens@, self.dim.width, j)]);
                }
            }
        }
        let height: u16 = rows_length.len() as u16;
        Ok((slots, Dim { w: widest, h: height }, rows_length))
    }

    /// Aligns the rows inside the constraint. Gives the final position of
    /// every slot and the box around them.
    pub fn align(&self, slots: &Vec<Slot>, size: &Dim, rows_length: &Vec<u16>) -> (r: (
        Vec<Pos>,
        BoundingBox,
    ))
        requires
            alignable(*self, slots@, *size, rows_length@),
        ensures
            aligned(*self, slots@, *size, rows_length@, r.0@, r.1),
    {
        let n: usize = slots.len();
        let mut positions: Vec<Pos> = Vec::new();
        if n == 0 {
            return (positions, BoundingBox { x: self.origin.x, y: self.origin.y, w: 0, h: 0 });
        }
        let offset_y: u16 = match self.dim.height {
            Measurement::Infinite => 0,
            Measurement::Value(height) => v_shift(&self.align.vert, height, size.h),
        };
        assert(slots@.last() == slots@[n - 1]);
        let first_row: usize = slots[0].row;
        let last_row: usize = slots[n - 1].row;
        let mut frame = BoundingBox {
            x: u16::MAX,
            y: self.origin.y + first_row as u16 + offset_y,
            w: 0,
            h: (last_row - first_row + 1) as u16,
        };
        let ghost mut leftmost: int = 0;
        let ghost mut longest: int = 0;
        let mut i: usize = 0;
        while i < n
            invariant
                n == slots@.len(),
                0 < n,
                i <= n,
                alignable(*self, slots@, *size, rows_length@),
                offset_y == v_offset(self.align.vert, self.dim.height, size.h as int),
                positions@.len() == i,
                forall|j: int|
                    0 <= j < i ==> {
                        &&& (#[trigger] positions@[j]).x == aligned_x(
                            *self,
                            slots@[j],
                            rows_length@,
                        )
                        &&& positions@[j].y == aligned_y(*self, slots@[j], *size)
                    },
                forall|j: int| 0 <= j < i ==> frame.x <= (#[trigger] positions@[j]).x,
                i == 0 ==> frame.x == u16::MAX && frame.w == 0,
                i > 0 ==> 0 <= leftmost < i && frame.x == positions@[leftmost].x,
                forall|j: int|
                    0 <= j < i ==> rows_length@[(#[trigger] slots@[j]).row as int] <= frame.w,
                i > 0 ==> 0 <= longest < i && frame.w == rows_length@[slots@[longest].row as int],
                frame.y == aligned_y(*self, slots@[0], *size),
                frame.h == slots@[n - 1].row - slots@[0].row + 1,
            decreases n - i,
        {
            assert(slots@[i as int].row < rows_length@.len());
            let col: u16 = slots[i].col;
            let row: usize = slots[i].row;
            let row_length: u16 = rows_length[row];
            if row_length > frame.w || i == 0 {
                frame.w = row_length;
                proof {
                    longest = i as int;
                }
            }
            let offset_x: u16 = match self.dim.width {
                Measurement::Infinite => 0,
                Measurement::Value(width) => h_shift(&self.align.hori, width, row_length),
            };
            let x: u16 = self.origin.x + col + offset_x;
            let y: u16 = self.origin.y + row as u16 + offset_y;
            assert(x == aligned_x(*self, slots@[i as int], rows_length@));
            if x < frame.x || i == 0 {
                frame.x = x;
                proof {
                    leftmost = i as int;
                }
            }
            positions.push(Pos { x, y });
            i += 1;
        }
        assert(positions@.last() == positions@[n - 1]);
        assert(frame.x == positions@[leftmost].x);
        assert(frame.w == rows_length@[slots@[longest].row as int]);
        (positions, frame)
    }

    /// Lays the words of the bucket out inside the constraint: wraps them
    /// greedily into rows, then aligns the rows. Gives the position of every
    /// word, in the order of the words, and the box around them; or the
    /// complaint of the first word that does not fit.
    pub fn organize(&self, bucket: &Bucket) -> (r: Result<(Vec<Pos>, BoundingBox), LayoutError>)
        requires
            representable(*self, bucket.lens()),
        ensures
            match r {
                Ok((positions, frame)) => laid_out(*self, bucket.lens(), positions@, frame),
                Err(e) => rejected(*self, bucket.lens(), e),
            },
    {
        let lens = bucket.lengths();
        self.organize_lengths(&lens)
    }

    /// Lays out words that are known by their widths.
    pub fn organize_lengths(&self, lens: &Vec<usize>) -> (r: Result<(Vec<Pos>, BoundingBox), LayoutError>)
        requires
            representable(*self, lens@),
        ensures
            match r {
                Ok((positions, frame)) => laid_out(*self, lens@, positions@, frame),
                Err(e) => rejected(*self, lens@, e),
            },
    {
        proof {
            lemma_representable_measurable(*self, lens@);
        }
        match self.split_roughly(lens) {
            Ok((slots, surface, rows)) => {
                proof {
                    lemma_rough_is_alignable(*self, lens@, slots@, surface, rows@);
                }
                let (positions, frame) = self.align(&slots, &surface, &rows);
                proof {
                    lemma_aligned_is_laid_out(
                        *self,
                        lens@,
                        slots@,
                        surface,
                        rows@,
                        positions@,
                        frame,
                    );
                }
                Ok((positions, frame))
            },
            Err(e) => Err(e),
        }
    }
}

/// A finished layout: the position of every word and the frame around them.
#[derive(Debug)]
pub struct Layout {
    pub frame: BoundingBox,
    pub positions: Vec<Pos>,
}

/// Lays the words of the bucket out inside the constraint. The frame of a
/// layout starts at or after the origin and stays within the bounds of the
/// constraint.
pub fn layout(constraint: &Constraint, bucket: &Bucket) -> (r: Result<Layout, LayoutError>)
    requires
        representable(*constraint, bucket.lens()),
    ensures
        match r {
            Ok(l) => {
                &&& laid_out(*constraint, bucket.lens(), l.positions@, l.frame)
                &&& enclosed(*constraint, l.frame)
            },
            Err(e) => rejected(*constraint, bucket.lens(), e),
        },
{
    match constraint.organize(bucket) {
        Ok((poses, bbox)) => {
            proof {
                law_frame_enclosed(*constraint, bucket.lens(), poses@, bbox);
            }
            Ok(Layout { frame: bbox, positions: poses })
        },
        Err(e) => Err(e),
    }
}

} // verus!
