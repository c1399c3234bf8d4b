//! The mathematics of the flow layout: where greedy wrapping puts each word,
//! which word is blamed when the words do not fit, and where alignment moves
//! the rows.
//!
//! Words are known by their widths alone, which are not bounded by the
//! screen. Columns and rows are counted from the origin of the constraint.

use vstd::prelude::*;
use crate::constraint::{Constraint, HAlignment, LayoutError, VAlignment};
use crate::geometry::{AdaptativeDim, BoundingBox, Measurement, Pos};

verus! {

/// The separator between two neighbours on a row, in cells.
pub open spec fn gap() -> int {
    1
}

/// Whether an extent stays within a bound.
pub open spec fn within(extent: int, bound: Measurement<u16>) -> bool {
    match bound {
        Measurement::Value(v) => extent <= v,
        Measurement::Infinite => true,
    }
}

/// Column and row of word `i` under greedy wrapping: a word follows its
/// predecessor after a gap while the row can hold it, and opens the next row
/// otherwise.
pub open spec fn rough_at(lens: Seq<usize>, width: Measurement<u16>, i: int) -> (int, int)
    decreases i,
{
    if i <= 0 {
        (0, 0)
    } else {
        let prev = rough_at(lens, width, i - 1);
        let candidate = prev.0 + lens[i - 1] + gap();
        if within(candidate + lens[i], width) {
            (candidate, prev.1)
        } else {
            (0, prev.1 + 1)
        }
    }
}

/// The column at which word `i` starts.
pub open spec fn col_of(lens: Seq<usize>, width: Measurement<u16>, i: int) -> int {
    rough_at(lens, width, i).0
}

/// The row that holds word `i`.
pub open spec fn row_of(lens: Seq<usize>, width: Measurement<u16>, i: int) -> int {
    rough_at(lens, width, i).1
}

/// Whether word `i` is the first of its row.
pub open spec fn starts_row(lens: Seq<usize>, width: Measurement<u16>, i: int) -> bool {
    i == 0 || row_of(lens, width, i) != row_of(lens, width, i - 1)
}

/// Whether word `i` opens a row because the row before it cannot hold it.
pub open spec fn wraps(lens: Seq<usize>, width: Measurement<u16>, i: int) -> bool {
    i > 0 && row_of(lens, width, i) != row_of(lens, width, i - 1)
}

/// The complaint that word `i` raises, if any: it is wider than the space,
/// or it wraps into a row that the height does not allow. The width is
/// looked at first. The first row is granted whatever the height: only a
/// wrap is held against it.
pub open spec fn failure_at(lens: Seq<usize>, dim: AdaptativeDim, i: int) -> Option<LayoutError> {
    if !within(lens[i] as int, dim.width) {
        Some(LayoutError::TooWide(i as usize))
    } else if wraps(lens, dim.width, i) && !within(row_of(lens, dim.width, i) + 1, dim.height) {
        Some(LayoutError::TooManyWords(i as usize))
    } else {
        None
    }
}

/// Whether so many rows are allowed under a height: as many as the height
/// holds, and the first row in any case.
pub open spec fn rows_allowed(height: Measurement<u16>, rows: int) -> bool {
    within(rows, height) || rows <= 1
}

/// Whether every word finds its place.
pub open spec fn placeable(lens: Seq<usize>, dim: AdaptativeDim) -> bool {
    forall|i: int| 0 <= i < lens.len() ==> (#[trigger] failure_at(lens, dim, i)) is None
}

/// Whether word `k` is the first one that raises a complaint.
pub open spec fn fails_first_at(lens: Seq<usize>, dim: AdaptativeDim, k: int) -> bool {
    &&& 0 <= k < lens.len()
    &&& failure_at(lens, dim, k) is Some
    &&& forall|i: int| 0 <= i < k ==> (#[trigger] failure_at(lens, dim, i)) is None
}

/// The number of rows that the words occupy.
pub open spec fn row_count(lens: Seq<usize>, width: Measurement<u16>) -> int {
    if lens.len() == 0 {
        0
    } else {
        row_of(lens, width, lens.len() - 1) + 1
    }
}

/// The length of the row that holds word `i`: the column at which the last
/// word of that row ends.
pub open spec fn row_end(lens: Seq<usize>, width: Measurement<u16>, i: int) -> int
    decreases lens.len() - i,
{
    if 0 <= i && i + 1 < lens.len() && row_of(lens, width, i + 1) == row_of(lens, width, i) {
        row_end(lens, width, i + 1)
    } else {
        col_of(lens, width, i) + lens[i]
    }
}

/// How far a row of the given length is moved to the right.
pub open spec fn h_offset(align: HAlignment, width: Measurement<u16>, row_len: int) -> int {
    match width {
        Measurement::Infinite => 0,
        Measurement::Value(w) => match align {
            HAlignment::AlignLeft => 0,
            HAlignment::AlignMiddle => (w - row_len) / 2,
            HAlignment::AlignRight => w - row_len,
        },
    }
}

/// How far a block of the given number of rows is moved down. A block that
/// is higher than the space, as a single row is under a height of zero,
/// stays where it is.
pub open spec fn v_offset(align: VAlignment, height: Measurement<u16>, rows: int) -> int {
    match height {
        Measurement::Infinite => 0,
        Measurement::Value(h) => if rows <= h {
            match align {
                VAlignment::AlignTop => 0,
                VAlignment::AlignCenter => (h - rows) / 2,
                VAlignment::AlignBottom => h - rows,
            }
        } else {
            0
        },
    }
}

/// The screen column of word `i` once its row is aligned.
pub open spec fn placed_x(c: Constraint, lens: Seq<usize>, i: int) -> int {
    c.origin.x + col_of(lens, c.dim.width, i) + h_offset(
        c.align.hori,
        c.dim.width,
        row_end(lens, c.dim.width, i),
    )
}

/// The screen row of word `i` once the block is aligned.
pub open spec fn placed_y(c: Constraint, lens: Seq<usize>, i: int) -> int {
    c.origin.y + row_of(lens, c.dim.width, i) + v_offset(
        c.align.vert,
        c.dim.height,
        row_count(lens, c.dim.width),
    )
}

/// Whether the rows of the words, where every word finds its place, can be
/// counted and measured in sixteen-bit numbers.
pub open spec fn measurable(lens: Seq<usize>, dim: AdaptativeDim) -> bool {
    placeable(lens, dim) ==> {
        &&& row_count(lens, dim.width) <= u16::MAX
        &&& forall|i: int|
            0 <= i < lens.len() ==> #[trigger] row_end(lens, dim.width, i) <= u16::MAX
    }
}

/// A layout that can be written in sixteen-bit coordinates has rows that can
/// be counted and measured in sixteen-bit numbers.
pub proof fn lemma_representable_measurable(c: Constraint, lens: Seq<usize>)
    requires
        representable(c, lens),
    ensures
        measurable(lens, c.dim),
{
    if placeable(lens, c.dim) {
        assert forall|i: int| 0 <= i < lens.len() implies #[trigger] row_end(
            lens,
            c.dim.width,
            i,
        ) <= u16::MAX by {
            assert(placed_x(c, lens, i) <= u16::MAX);
        }
    }
}

/// Whether the layout, where there is one, can be written in sixteen-bit
/// coordinates.
pub open spec fn representable(c: Constraint, lens: Seq<usize>) -> bool {
    placeable(lens, c.dim) ==> {
        &&& row_count(lens, c.dim.width) <= u16::MAX
        &&& forall|i: int|
            0 <= i < lens.len() ==> {
                &&& #[trigger] placed_x(c, lens, i) <= u16::MAX
                &&& placed_y(c, lens, i) <= u16::MAX
                &&& row_end(lens, c.dim.width, i) <= u16::MAX
            }
    }
}

/// Whether `frame` is the smallest box around the aligned rows: it starts at
/// the first row and at the leftmost row start, it is as wide as the longest
/// row and as high as the number of rows. Without words it is the empty box
/// at the origin.
pub open spec fn framed(c: Constraint, lens: Seq<usize>, frame: BoundingBox) -> bool {
    if lens.len() == 0 {
        frame == (BoundingBox { x: c.origin.x, y: c.origin.y, w: 0, h: 0 })
    } else {
        &&& frame.y == placed_y(c, lens, 0)
        &&& frame.h == row_count(lens, c.dim.width)
        &&& forall|i: int| 0 <= i < lens.len() ==> frame.x <= #[trigger] placed_x(c, lens, i)
        &&& exists|i: int| 0 <= i < lens.len() && frame.x == #[trigger] placed_x(c, lens, i)
        &&& forall|i: int|
            0 <= i < lens.len() ==> #[trigger] row_end(lens, c.dim.width, i) <= frame.w
        &&& exists|i: int|
            0 <= i < lens.len() && frame.w == #[trigger] row_end(lens, c.dim.width, i)
    }
}

/// Whether `positions` and `frame` are the layout of the words: every word
/// finds its place, the positions answer the words one for one and in order,
/// and the frame encloses them.
pub open spec fn laid_out(
    c: Constraint,
    lens: Seq<usize>,
    positions: Seq<Pos>,
    frame: BoundingBox,
) -> bool {
    &&& placeable(lens, c.dim)
    &&& positions.len() == lens.len()
    &&& forall|i: int|
        0 <= i < lens.len() ==> {
            &&& (#[trigger] positions[i]).x == placed_x(c, lens, i)
            &&& positions[i].y == placed_y(c, lens, i)
        }
    &&& framed(c, lens, frame)
}

/// Whether `e` is the complaint of the first word that does not fit.
pub open spec fn rejected(c: Constraint, lens: Seq<usize>, e: LayoutError) -> bool {
    &&& fails_first_at(lens, c.dim, e.index())
    &&& failure_at(lens, c.dim, e.index()) == Some(e)
}

/// Without a bound on the width all words share the first row.
pub proof fn lemma_unbounded_single_row(lens: Seq<usize>, i: int)
    requires
        0 <= i,
    ensures
        row_of(lens, Measurement::Infinite, i) == 0,
    decreases i,
{
    if i > 0 {
        lemma_unbounded_single_row(lens, i - 1);
    }
}

/// Without a bound on the width no word is refused.
pub proof fn lemma_unbounded_width_placeable(lens: Seq<usize>, dim: AdaptativeDim)
    requires
        dim.width is Infinite,
    ensures
        placeable(lens, dim),
{
    assert forall|i: int| 0 <= i < lens.len() implies (#[trigger] failure_at(lens, dim, i))
        is None by {
        if i > 0 {
            lemma_unbounded_single_row(lens, i);
            lemma_unbounded_single_row(lens, i - 1);
        }
    }
}

/// Columns are not negative, and word `i` lies in one of the first `i + 1`
/// rows.
pub proof fn lemma_rough_bounds(lens: Seq<usize>, width: Measurement<u16>, i: int)
    requires
        0 <= i,
    ensures
        0 <= col_of(lens, width, i),
        0 <= row_of(lens, width, i) <= i,
    decreases i,
{
    if i > 0 {
        lemma_rough_bounds(lens, width, i - 1);
    }
}

/// Rows never go back, and they advance by at most one per word.
pub proof fn lemma_rows_monotone(lens: Seq<usize>, width: Measurement<u16>, a: int, b: int)
    requires
        0 <= a <= b,
    ensures
        row_of(lens, width, a) <= row_of(lens, width, b) <= row_of(lens, width, a) + (b - a),
    decreases b - a,
{
    if a < b {
        lemma_rows_monotone(lens, width, a, b - 1);
    }
}

/// A word that is not wider than the space ends within it.
pub proof fn lemma_extent_within(lens: Seq<usize>, width: Measurement<u16>, i: int)
    requires
        0 <= i < lens.len(),
        within(lens[i] as int, width),
    ensures
        within(col_of(lens, width, i) + lens[i], width),
{
}

/// Every word of a row sees the same row length: the end of the row's last
/// word.
pub proof fn lemma_row_end_of_last(lens: Seq<usize>, width: Measurement<u16>, j: int, k: int)
    requires
        0 <= j <= k < lens.len(),
        row_of(lens, width, j) == row_of(lens, width, k),
        k + 1 == lens.len() || row_of(lens, width, k + 1) != row_of(lens, width, k),
    ensures
        row_end(lens, width, j) == col_of(lens, width, k) + lens[k],
    decreases k - j,
{
    if j < k {
        lemma_rows_monotone(lens, width, j, j + 1);
        lemma_rows_monotone(lens, width, j + 1, k);
        lemma_row_end_of_last(lens, width, j + 1, k);
    }
}

/// The length of a row is the end of one of its words, at or after word `i`.
pub proof fn lemma_row_end_witness(lens: Seq<usize>, width: Measurement<u16>, i: int) -> (k: int)
    requires
        0 <= i < lens.len(),
    ensures
        i <= k < lens.len(),
        row_of(lens, width, k) == row_of(lens, width, i),
        k + 1 == lens.len() || row_of(lens, width, k + 1) != row_of(lens, width, k),
        row_end(lens, width, i) == col_of(lens, width, k) + lens[k],
    decreases lens.len() - i,
{
    if i + 1 < lens.len() && row_of(lens, width, i + 1) == row_of(lens, width, i) {
        lemma_row_end_witness(lens, width, i + 1)
    } else {
        i
    }
}

/// Every row has a first word.
pub proof fn lemma_row_start_witness(lens: Seq<usize>, width: Measurement<u16>, i: int) -> (j: int)
    requires
        0 <= i,
    ensures
        0 <= j <= i,
        starts_row(lens, width, j),
        row_of(lens, width, j) == row_of(lens, width, i),
    decreases i,
{
    if starts_row(lens, width, i) {
        i
    } else {
        lemma_row_start_witness(lens, width, i - 1)
    }
}

/// Where every word finds its place, no row is longer than the width and
/// there are no more rows than the height allows, the first row counted as
/// allowed.
pub proof fn lemma_placeable_contained(lens: Seq<usize>, dim: AdaptativeDim)
    requires
        placeable(lens, dim),
    ensures
        rows_allowed(dim.height, row_count(lens, dim.width)),
        forall|i: int|
            0 <= i < lens.len() ==> within(#[trigger] row_end(lens, dim.width, i), dim.width),
        forall|i: int|
            0 <= i < lens.len() ==> col_of(lens, dim.width, i) + lens[i] <= #[trigger] row_end(
                lens,
                dim.width,
                i,
            ),
{
    if lens.len() > 0 {
        let j = lemma_row_start_witness(lens, dim.width, lens.len() - 1);
        assert(failure_at(lens, dim, j) is None);
        if j == 0 {
            assert(row_of(lens, dim.width, 0) == 0);
        }
    }
    assert forall|i: int| 0 <= i < lens.len() implies within(
        #[trigger] row_end(lens, dim.width, i),
        dim.width,
    ) && col_of(lens, dim.width, i) + lens[i] <= row_end(lens, dim.width, i) by {
        let k = lemma_row_end_witness(lens, dim.width, i);
        assert(failure_at(lens, dim, k) is None);
        lemma_extent_within(lens, dim.width, k);
        lemma_row_extent_grows(lens, dim.width, i, k);
    }
}

/// Within a row, each word starts after the end of the one before it.
pub proof fn lemma_row_extent_grows(lens: Seq<usize>, width: Measurement<u16>, i: int, k: int)
    requires
        0 <= i <= k < lens.len(),
        row_of(lens, width, i) == row_of(lens, width, k),
    ensures
        i < k ==> col_of(lens, width, i) + lens[i] < col_of(lens, width, k),
        col_of(lens, width, i) + lens[i] <= col_of(lens, width, k) + lens[k],
    decreases k - i,
{
    if i < k {
        lemma_rows_monotone(lens, width, i, k - 1);
        lemma_rows_monotone(lens, width, k - 1, k);
        lemma_row_extent_grows(lens, width, i, k - 1);
    }
}

/// Two words of one row see the same row length.
pub proof fn lemma_row_end_shared(lens: Seq<usize>, width: Measurement<u16>, a: int, b: int)
    requires
        0 <= a <= b < lens.len(),
        row_of(lens, width, a) == row_of(lens, width, b),
    ensures
        row_end(lens, width, a) == row_end(lens, width, b),
    decreases b - a,
{
    if a < b {
        lemma_rows_monotone(lens, width, a, a + 1);
        lemma_rows_monotone(lens, width, a + 1, b);
        lemma_row_end_shared(lens, width, a + 1, b);
    }
}

} // verus!
