//! Whether a layout can be written in the sixteen-bit coordinates of the
//! screen, told before the layout is made.

use vstd::prelude::*;
use crate::constraint::{Constraint, LayoutError};
use crate::flow::{
    col_of, failure_at, laid_out, lemma_placeable_contained, lemma_rough_bounds,
    lemma_row_end_of_last, lemma_row_extent_grows, lemma_rows_monotone,
    lemma_unbounded_single_row, lemma_unbounded_width_placeable, placeable, placed_x, placed_y,
    rejected, representable, row_end, row_of, v_offset, within,
};
use crate::geometry::{BoundingBox, Measurement, Pos};
use crate::layout::{h_shift, v_shift};
use crate::word::Bucket;

verus! {

impl Constraint {
    /// Whether the last row of a block of `rows` rows lies inside the
    /// coordinate space once the block is aligned.
    fn rows_fit(&self, rows: usize) -> (b: bool)
        requires
            1 <= rows,
        ensures
            b == (rows <= u16::MAX && self.origin.y + (rows - 1) + v_offset(
                self.align.vert,
                self.dim.height,
                rows as int,
            ) <= u16::MAX),
    {
        if rows > 0xffff {
            return false;
        }
        let down: u16 = match self.dim.height {
            Measurement::Infinite => 0,
            Measurement::Value(h) => v_shift(&self.align.vert, h, rows as u16),
        };
        self.origin.y as u32 + (rows as u32 - 1) + down as u32 <= 0xffff
    }

    /// The answer for a space without a bound on its width, where all words
    /// share one row.
    fn admits_unbounded(&self, lens: &Vec<usize>) -> (b: bool)
        requires
            self.dim.width is Infinite,
            lens@.len() > 0,
        ensures
            b == representable(*self, lens@),
    {
        let n: usize = lens.len();
        proof {
            lemma_unbounded_width_placeable(lens@, self.dim);
            lemma_unbounded_single_row(lens@, n - 1);
            assert forall|j: int| 0 <= j < n implies row_of(lens@, self.dim.width, j) == 0 by {
                lemma_unbounded_single_row(lens@, j);
            }
            assert forall|j: int| 0 <= j < n implies #[trigger] row_end(lens@, self.dim.width, j)
                == row_end(lens@, self.dim.width, n - 1) && col_of(lens@, self.dim.width, j)
                <= col_of(lens@, self.dim.width, n - 1) by {
                lemma_row_end_of_last(lens@, self.dim.width, j, n - 1);
                lemma_row_end_of_last(lens@, self.dim.width, n - 1, n - 1);
                lemma_row_extent_grows(lens@, self.dim.width, j, n - 1);
            }
            lemma_row_end_of_last(lens@, self.dim.width, n - 1, n - 1);
        }
        let mut col: u32 = 0;
        let mut i: usize = 1;
        while i < n
            invariant
                n == lens@.len(),
                1 <= i <= n,
                self.dim.width is Infinite,
                col == col_of(lens@, self.dim.width, i - 1),
                col <= u16::MAX,
                placeable(lens@, self.dim),
                forall|j: int| 0 <= j < n ==> row_of(lens@, self.dim.width, j) == 0,
                row_end(lens@, self.dim.width, n - 1) == col_of(lens@, self.dim.width, n - 1)
                    + lens@[n - 1],
            decreases n - i,
        {
            let word: usize = lens[i - 1];
            if word > 0xffff || col + word as u32 + 1 > 0xffff {
                proof {
                    lemma_row_extent_grows(lens@, self.dim.width, i - 1, n - 1);
                    lemma_row_extent_grows(lens@, self.dim.width, i as int, n - 1);
                    assert(row_end(lens@, self.dim.width, n - 1) > u16::MAX);
                    assert(placed_x(*self, lens@, n - 1) >= 0);
                }
                return false;
            }
            col = col + word as u32 + 1;
            i += 1;
        }
        if lens[n - 1] > 0xffff {
            proof {
                assert(row_end(lens@, self.dim.width, n - 1) > u16::MAX);
                assert(placed_x(*self, lens@, n - 1) >= 0);
            }
            return false;
        }
        let total: u32 = col + lens[n - 1] as u32;
        let fits: bool = total <= 0xffff && self.origin.x as u32 + col <= 0xffff;
        let rows_fit: bool = self.rows_fit(1);
        proof {
            lemma_rough_bounds(lens@, self.dim.width, n - 1);
            assert(placed_x(*self, lens@, n - 1) == self.origin.x + col);
            assert(placed_y(*self, lens@, n - 1) == self.origin.y + v_offset(
                self.align.vert,
                self.dim.height,
                1,
            ));
            if fits && rows_fit {
                assert forall|j: int| 0 <= j < n implies {
                    &&& #[trigger] placed_x(*self, lens@, j) <= u16::MAX
                    &&& placed_y(*self, lens@, j) <= u16::MAX
                    &&& row_end(lens@, self.dim.width, j) <= u16::MAX
                } by {
                    assert(row_end(lens@, self.dim.width, j) == row_end(
                        lens@,
                        self.dim.width,
                        n - 1,
                    ));
                }
            }
        }
        fits && rows_fit
    }

    /// The answer for a space of width `w`.
    fn admits_bounded(&self, lens: &Vec<usize>, w: u16) -> (b: bool)
        requires
            self.dim.width == Measurement::Value(w),
            lens@.len() > 0,
        ensures
            b == representable(*self, lens@),
    {
        let n: usize = lens.len();
        let mut start: u16 = 0;
        let mut end: u16 = 0;
        let mut row: usize = 0;
        let mut ok: bool = true;
        let mut i: usize = 0;
        while i < n
            invariant
                n == lens@.len(),
                i <= n,
                self.dim.width == Measurement::Value(w),
                forall|j: int| 0 <= j < i ==> (#[trigger] failure_at(lens@, self.dim, j)) is None,
                i == 0 ==> start == 0 && end == 0 && row == 0,
                i > 0 ==> start == col_of(lens@, self.dim.width, i - 1) && end == start + lens@[i
                    - 1] && row == row_of(lens@, self.dim.width, i - 1),
                end <= w,
                row <= i,
                ok <==> forall|j: int|
                    0 <= j < i && row_of(lens@, self.dim.width, j) < row ==> #[trigger] placed_x(
                        *self,
                        lens@,
                        j,
                    ) <= u16::MAX,
            decreases n - i,
        {
            let word: usize = lens[i];
            proof {
                lemma_rough_bounds(lens@, self.dim.width, i as int);
                if i > 0 {
                    lemma_rough_bounds(lens@, self.dim.width, i - 1);
                }
            }
            if word > w as usize {
                assert(failure_at(lens@, self.dim, i as int) is Some);
                return true;
            }
            let len: u16 = word as u16;
            let wraps: bool = i > 0 && end as u32 + 1 + len as u32 > w as u32;
            let new_row: usize = if wraps { row + 1 } else { row };
            if wraps {
                match self.dim.height {
                    Measurement::Value(h) => {
                        if new_row >= h as usize {
                            assert(failure_at(lens@, self.dim, i as int) is Some);
                            return true;
                        }
                    },
                    Measurement::Infinite => {},
                }
            }
            assert(failure_at(lens@, self.dim, i as int) is None);
            if wraps {
                let shift: u16 = h_shift(&self.align.hori, w, end);
                let last_fits: bool = self.origin.x as u32 + start as u32 + shift as u32 <= 0xffff;
                proof {
                    self.lemma_row_fits_by_last(lens@, i - 1, i - 1);
                    assert forall|j: int|
                        0 <= j < i && row_of(lens@, self.dim.width, j) == row implies (
                    #[trigger] placed_x(*self, lens@, j) <= placed_x(*self, lens@, i - 1)) by {
                        self.lemma_row_fits_by_last(lens@, j, i - 1);
                    }
                    assert forall|j: int| 0 <= j < i implies row_of(lens@, self.dim.width, j)
                        <= row by {
                        lemma_rows_monotone(lens@, self.dim.width, j, i - 1);
                    }
                    assert(placed_x(*self, lens@, i - 1) == self.origin.x + start + shift);
                }
                ok = ok && last_fits;
            }
            start = if i == 0 || wraps { 0 } else { end + 1 };
            end = start + len;
            row = new_row;
            i += 1;
        }
        let shift: u16 = h_shift(&self.align.hori, w, end);
        let last_fits: bool = self.origin.x as u32 + start as u32 + shift as u32 <= 0xffff;
        proof {
            assert(placeable(lens@, self.dim));
            lemma_placeable_contained(lens@, self.dim);
            lemma_rough_bounds(lens@, self.dim.width, n - 1);
            self.lemma_row_fits_by_last(lens@, n - 1, n - 1);
            assert(placed_x(*self, lens@, n - 1) == self.origin.x + start + shift);
            assert forall|j: int| 0 <= j < n implies {
                &&& row_of(lens@, self.dim.width, j) <= row
                &&& placed_y(*self, lens@, j) <= placed_y(*self, lens@, n - 1)
                &&& row_of(lens@, self.dim.width, j) == row ==> #[trigger] placed_x(*self, lens@, j)
                    <= placed_x(*self, lens@, n - 1)
            } by {
                lemma_rows_monotone(lens@, self.dim.width, j, n - 1);
                if row_of(lens@, self.dim.width, j) == row {
                    self.lemma_row_fits_by_last(lens@, j, n - 1);
                }
            }
        }
        let rows_fit: bool = self.rows_fit(row + 1);
        proof {
            assert(placed_y(*self, lens@, n - 1) == self.origin.y + row + v_offset(
                self.align.vert,
                self.dim.height,
                row + 1,
            ));
            if ok && last_fits && rows_fit {
                assert forall|j: int| 0 <= j < n implies {
                    &&& #[trigger] placed_x(*self, lens@, j) <= u16::MAX
                    &&& placed_y(*self, lens@, j) <= u16::MAX
                    &&& row_end(lens@, self.dim.width, j) <= u16::MAX
                } by {
                    assert(within(row_end(lens@, self.dim.width, j), self.dim.width));
                }
            } else {
                assert(placed_x(*self, lens@, n - 1) >= 0);
            }
        }
        ok && last_fits && rows_fit
    }

    /// On a shared row no word is placed to the right of a later one, and
    /// the last word of a row sees the row end where it ends itself.
    proof fn lemma_row_fits_by_last(&self, lens: Seq<usize>, j: int, k: int)
        requires
            0 <= j <= k < lens.len(),
            row_of(lens, self.dim.width, j) == row_of(lens, self.dim.width, k),
            k + 1 == lens.len() || row_of(lens, self.dim.width, k + 1) != row_of(
                lens,
                self.dim.width,
                k,
            ),
        ensures
            row_end(lens, self.dim.width, k) == col_of(lens, self.dim.width, k) + lens[k],
            row_end(lens, self.dim.width, j) == row_end(lens, self.dim.width, k),
            placed_x(*self, lens, j) <= placed_x(*self, lens, k),
    {
        lemma_row_end_of_last(lens, self.dim.width, j, k);
        lemma_row_end_of_last(lens, self.dim.width, k, k);
        lemma_row_extent_grows(lens, self.dim.width, j, k);
    }

    /// The complaint of the first word that does not fit, if there is one.
    pub fn first_refusal(&self, lens: &Vec<usize>) -> (r: Option<LayoutError>)
        ensures
            match r {
                Some(e) => rejected(*self, lens@, e),
                None => placeable(lens@, self.dim),
            },
    {
        let w: u16 = match self.dim.width {
            Measurement::Infinite => {
                proof {
                    lemma_unbounded_width_placeable(lens@, self.dim);
                }
                return None;
            },
            Measurement::Value(w) => w,
        };
        let n: usize = lens.len();
        let mut end: u16 = 0;
        let mut row: usize = 0;
        let mut i: usize = 0;
        while i < n
            invariant
                n == lens@.len(),
                i <= n,
                self.dim.width == Measurement::Value(w),
                forall|j: int| 0 <= j < i ==> (#[trigger] failure_at(lens@, self.dim, j)) is None,
                i == 0 ==> end == 0 && row == 0,
                i > 0 ==> end == col_of(lens@, self.dim.width, i - 1) + lens@[i - 1] && row
                    == row_of(lens@, self.dim.width, i - 1),
                end <= w,
                row <= i,
            decreases n - i,
        {
            let word: usize = lens[i];
            proof {
                lemma_rough_bounds(lens@, self.dim.width, i as int);
            }
            if word > w as usize {
                return Some(LayoutError::TooWide(i));
            }
            let len: u16 = word as u16;
            let wraps: bool = i > 0 && end as u32 + 1 + len as u32 > w as u32;
            if wraps {
                match self.dim.height {
                    Measurement::Value(h) => {
                        if row + 1 >= h as usize {
                            return Some(LayoutError::TooManyWords(i));
                        }
                    },
                    Measurement::Infinite => {},
                }
                row = row + 1;
            }
            assert(failure_at(lens@, self.dim, i as int) is None);
            end = if i == 0 || wraps { len } else { end + 1 + len };
            i += 1;
        }
        None
    }

    /// Whether the layout of words of these widths, where there is one, can
    /// be written in sixteen-bit coordinates.
    pub fn admits_lengths(&self, lens: &Vec<usize>) -> (b: bool)
        ensures
            b == representable(*self, lens@),
    {
        if lens.len() == 0 {
            return true;
        }
        match self.dim.width {
            Measurement::Infinite => self.admits_unbounded(lens),
            Measurement::Value(w) => self.admits_bounded(lens, w),
        }
    }

    /// Lays the words of the bucket out where the layout can be written in
    /// sixteen-bit coordinates, and says so where it cannot.
    pub fn try_organize(&self, bucket: &Bucket) -> (r: Option<
        Result<(Vec<Pos>, BoundingBox), LayoutError>,
    >)
        ensures
            match r {
                Some(Ok((positions, frame))) => laid_out(*self, bucket.lens(), positions@, frame),
                Some(Err(e)) => rejected(*self, bucket.lens(), e),
                None => !representable(*self, bucket.lens()),
            },
            r is Some <==> representable(*self, bucket.lens()),
    {
        let lens = bucket.lengths();
        if self.admits_lengths(&lens) {
            Some(self.organize_lengths(&lens))
        } else {
            None
        }
    }

    /// Whether the layout of the words of the bucket, where there is one,
    /// can be written in sixteen-bit coordinates. Only then can the words be
    /// handed to the engine.
    pub fn admits(&self, bucket: &Bucket) -> (b: bool)
        ensures
            b == representable(*self, bucket.lens()),
    {
        let lens = bucket.lengths();
        self.admits_lengths(&lens)
    }
}

} // verus!
