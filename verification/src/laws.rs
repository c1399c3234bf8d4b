//! What holds of every layout.

use vstd::prelude::*;
use crate::constraint::{Constraint, HAlignment, LayoutError, VAlignment};
use crate::flow::{
    col_of, failure_at, fails_first_at, laid_out, lemma_placeable_contained, lemma_rough_bounds,
    lemma_row_end_shared, lemma_row_extent_grows, lemma_row_start_witness, lemma_rows_monotone,
    lemma_unbounded_single_row, lemma_unbounded_width_placeable,
    placeable, placed_x, placed_y, rejected, representable, row_count, row_end, row_of,
    rows_allowed, within, wraps,
};
use crate::geometry::{AdaptativeDim, BoundingBox, Measurement, Pos};

verus! {

/// An outcome of a layout request, over plain sequences.
pub enum Outcome {
    Placed(Seq<Pos>, BoundingBox),
    Refused(LayoutError),
}

/// Whether `o` is what the engine answers to the request.
pub open spec fn answers(c: Constraint, lens: Seq<usize>, o: Outcome) -> bool {
    match o {
        Outcome::Placed(positions, frame) => laid_out(c, lens, positions, frame),
        Outcome::Refused(e) => rejected(c, lens, e),
    }
}

/// Whether a frame starts at or after the origin of the constraint and ends
/// within its bounds. The first row is within any height.
pub open spec fn enclosed(c: Constraint, frame: BoundingBox) -> bool {
    &&& c.origin.x <= frame.x
    &&& c.origin.y <= frame.y
    &&& within(frame.x + frame.w - c.origin.x, c.dim.width)
    &&& rows_allowed(c.dim.height, frame.y + frame.h - c.origin.y)
}

/// The engine is a function of its input: a request has one answer. Two
/// answers to the same words and the same constraint are the same answer.
pub proof fn law_answer_unique(c: Constraint, lens: Seq<usize>, a: Outcome, b: Outcome)
    requires
        answers(c, lens, a),
        answers(c, lens, b),
    ensures
        a == b,
{
    match (a, b) {
        (Outcome::Placed(pa, fa), Outcome::Placed(pb, fb)) => {
            assert(pa =~= pb);
            if lens.len() > 0 {
                let ia = choose|i: int| 0 <= i < lens.len() && fa.x == #[trigger] placed_x(c, lens, i);
                let ib = choose|i: int| 0 <= i < lens.len() && fb.x == #[trigger] placed_x(c, lens, i);
                assert(fb.x <= placed_x(c, lens, ia));
                assert(fa.x <= placed_x(c, lens, ib));
                let ka = choose|i: int|
                    0 <= i < lens.len() && fa.w == #[trigger] row_end(lens, c.dim.width, i);
                let kb = choose|i: int|
                    0 <= i < lens.len() && fb.w == #[trigger] row_end(lens, c.dim.width, i);
                assert(row_end(lens, c.dim.width, ka) <= fb.w);
                assert(row_end(lens, c.dim.width, kb) <= fa.w);
            }
        },
        (Outcome::Refused(ea), Outcome::Refused(eb)) => {
            let ka = ea.index();
            let kb = eb.index();
            if ka < kb {
                assert(failure_at(lens, c.dim, ka) is None);
            }
            if kb < ka {
                assert(failure_at(lens, c.dim, kb) is None);
            }
        },
        (Outcome::Placed(_, _), Outcome::Refused(e)) => {
            assert(failure_at(lens, c.dim, e.index()) is None);
        },
        (Outcome::Refused(e), Outcome::Placed(_, _)) => {
            assert(failure_at(lens, c.dim, e.index()) is None);
        },
    }
}

/// Either every word finds its place, or some word is the first that does
/// not.
pub proof fn law_placed_or_refused(lens: Seq<usize>, dim: AdaptativeDim)
    ensures
        placeable(lens, dim) || exists|k: int| fails_first_at(lens, dim, k),
{
    if !placeable(lens, dim) {
        let bad = choose|i: int| 0 <= i < lens.len() && !((#[trigger] failure_at(lens, dim, i)) is None);
        let k = first_complaint(lens, dim, bad);
        assert(fails_first_at(lens, dim, k));
    }
}

/// The first word at or before `upto` that raises a complaint.
proof fn first_complaint(lens: Seq<usize>, dim: AdaptativeDim, upto: int) -> (k: int)
    requires
        0 <= upto < lens.len(),
        failure_at(lens, dim, upto) is Some,
    ensures
        fails_first_at(lens, dim, k),
        k <= upto,
    decreases upto,
{
    if exists|j: int| 0 <= j < upto && (#[trigger] failure_at(lens, dim, j)) is Some {
        let j = choose|j: int| 0 <= j < upto && (#[trigger] failure_at(lens, dim, j)) is Some;
        first_complaint(lens, dim, j)
    } else {
        upto
    }
}

/// Success is owed where nothing can be held against the words: without a
/// bound on the width every word finds its place, on the first row; and
/// without a bound on the height every word finds its place if none is
/// wider than the width. A refusal comes only from a word that is too wide
/// or from a wrap beyond the height.
pub proof fn law_success_owed(lens: Seq<usize>, dim: AdaptativeDim)
    requires
        dim.width is Infinite || (dim.height is Infinite && forall|i: int|
            0 <= i < lens.len() ==> within(#[trigger] lens[i] as int, dim.width)),
    ensures
        placeable(lens, dim),
        dim.width is Infinite ==> forall|i: int|
            0 <= i < lens.len() ==> #[trigger] row_of(lens, dim.width, i) == 0,
{
    if dim.width is Infinite {
        lemma_unbounded_width_placeable(lens, dim);
        assert forall|i: int| 0 <= i < lens.len() implies #[trigger] row_of(lens, dim.width, i)
            == 0 by {
            lemma_unbounded_single_row(lens, i);
        }
    } else {
        assert forall|i: int| 0 <= i < lens.len() implies (#[trigger] failure_at(lens, dim, i))
            is None by {
            assert(within(lens[i] as int, dim.width));
        }
    }
}

/// A word that is longer than the screen can measure is never laid out:
/// under a width it is wider than the width, so it or an earlier word is
/// refused; without a width its row cannot be written in sixteen-bit
/// coordinates.
pub proof fn law_beyond_the_screen(c: Constraint, lens: Seq<usize>, k: int)
    requires
        0 <= k < lens.len(),
        lens[k] > u16::MAX,
    ensures
        c.dim.width is Value ==> !within(lens[k] as int, c.dim.width) && !placeable(lens, c.dim),
        c.dim.width is Infinite ==> placeable(lens, c.dim) && !representable(c, lens),
{
    if c.dim.width is Infinite {
        lemma_unbounded_width_placeable(lens, c.dim);
        lemma_placeable_contained(lens, c.dim);
        lemma_rough_bounds(lens, c.dim.width, k);
        assert(row_end(lens, c.dim.width, k) > u16::MAX);
        assert(placed_x(c, lens, k) >= 0);
    } else {
        assert(failure_at(lens, c.dim, k) is Some);
    }
}

/// Positions follow the words in reading order: a later word never stands
/// on an earlier row, each word opens at most one new row, and on a shared
/// row a later word starts beyond the end of an earlier one. So no two words
/// share a position, and the positions answer the words one for one.
pub proof fn law_reading_order(c: Constraint, lens: Seq<usize>, i: int, j: int)
    requires
        placeable(lens, c.dim),
        0 <= i < j < lens.len(),
    ensures
        placed_y(c, lens, i) <= placed_y(c, lens, j),
        placed_y(c, lens, j) - placed_y(c, lens, i) <= j - i,
        placed_y(c, lens, i) == placed_y(c, lens, j) ==> placed_x(c, lens, i) + lens[i]
            < placed_x(c, lens, j),
{
    lemma_rows_monotone(lens, c.dim.width, i, j);
    if row_of(lens, c.dim.width, i) == row_of(lens, c.dim.width, j) {
        lemma_row_extent_grows(lens, c.dim.width, i, j);
        lemma_row_end_shared(lens, c.dim.width, i, j);
    }
}

/// A word wider than the width is blamed as too wide, and it is the first
/// such word that is blamed, unless an earlier word has already wrapped into
/// a row beyond the height. The width of a word is looked at before its row.
pub proof fn law_too_wide_blamed(c: Constraint, lens: Seq<usize>, k: int)
    requires
        lens.len() <= usize::MAX,
        0 <= k < lens.len(),
        !within(lens[k] as int, c.dim.width),
        forall|i: int| 0 <= i < k ==> within(#[trigger] lens[i] as int, c.dim.width),
        forall|i: int|
            0 <= i < k && #[trigger] wraps(lens, c.dim.width, i) ==> within(
                row_of(lens, c.dim.width, i) + 1,
                c.dim.height,
            ),
    ensures
        rejected(c, lens, LayoutError::TooWide(k as usize)),
{
    assert forall|i: int| 0 <= i < k implies (#[trigger] failure_at(lens, c.dim, i)) is None by {
        assert(within(lens[i] as int, c.dim.width));
        if wraps(lens, c.dim.width, i) {
        }
    }
}

/// A word that wraps into a row beyond the height is blamed for being one
/// word too many, and it is the first such word that is blamed, unless it or
/// an earlier word is wider than the width.
pub proof fn law_too_many_blamed(c: Constraint, lens: Seq<usize>, k: int)
    requires
        lens.len() <= usize::MAX,
        0 <= k < lens.len(),
        wraps(lens, c.dim.width, k),
        !within(row_of(lens, c.dim.width, k) + 1, c.dim.height),
        forall|i: int| 0 <= i <= k ==> within(#[trigger] lens[i] as int, c.dim.width),
        forall|i: int|
            0 <= i < k && #[trigger] wraps(lens, c.dim.width, i) ==> within(
                row_of(lens, c.dim.width, i) + 1,
                c.dim.height,
            ),
    ensures
        rejected(c, lens, LayoutError::TooManyWords(k as usize)),
{
    assert(within(lens[k] as int, c.dim.width));
    assert forall|i: int| 0 <= i < k implies (#[trigger] failure_at(lens, c.dim, i)) is None by {
        assert(within(lens[i] as int, c.dim.width));
        if wraps(lens, c.dim.width, i) {
        }
    }
}

/// In a layout no row is longer than the width and there are no more rows
/// than the height allows, the first row counted as allowed: wrapping never
/// overfills the space.
pub proof fn law_rows_contained(c: Constraint, lens: Seq<usize>, i: int)
    requires
        placeable(lens, c.dim),
        0 <= i < lens.len(),
    ensures
        within(row_end(lens, c.dim.width, i), c.dim.width),
        rows_allowed(c.dim.height, row_count(lens, c.dim.width)),
        col_of(lens, c.dim.width, i) + lens[i] <= row_end(lens, c.dim.width, i),
{
    lemma_placeable_contained(lens, c.dim);
}

/// Centred content is centred exactly: a row is moved right by half of the
/// width that it leaves free, and a block that the height can hold is moved
/// down by half of the height that it leaves free, both rounded down. The
/// margin after the content is the margin before it, or one cell more. A
/// single row under a height of zero is not moved.
pub proof fn law_centering_exact(c: Constraint, lens: Seq<usize>, i: int)
    requires
        placeable(lens, c.dim),
        0 <= i < lens.len(),
    ensures
        c.dim.width matches Measurement::Value(w) ==> c.align.hori == HAlignment::AlignMiddle ==> {
            let free = w - row_end(lens, c.dim.width, i);
            let before = placed_x(c, lens, i) - c.origin.x - col_of(lens, c.dim.width, i);
            &&& 0 <= free
            &&& before == free / 2
            &&& before <= free - before <= before + 1
        },
        c.dim.height matches Measurement::Value(h) ==> c.align.vert == VAlignment::AlignCenter ==> {
            let free = h - row_count(lens, c.dim.width);
            let before = placed_y(c, lens, i) - c.origin.y - row_of(lens, c.dim.width, i);
            if h == 0 {
                before == 0
            } else {
                &&& 0 <= free
                &&& before == free / 2
                &&& before <= free - before <= before + 1
            }
        },
{
    lemma_placeable_contained(lens, c.dim);
    lemma_rough_bounds(lens, c.dim.width, lens.len() - 1);
}

/// Alignment moves content right and down only, and never out of the space:
/// every word of a layout starts at or after the origin and ends within the
/// bounds of the constraint, the first row counted as within any height.
pub proof fn law_words_enclosed(c: Constraint, lens: Seq<usize>, i: int)
    requires
        placeable(lens, c.dim),
        0 <= i < lens.len(),
    ensures
        c.origin.x <= placed_x(c, lens, i),
        c.origin.y <= placed_y(c, lens, i),
        within(placed_x(c, lens, i) + lens[i] - c.origin.x, c.dim.width),
        rows_allowed(c.dim.height, placed_y(c, lens, i) + 1 - c.origin.y),
{
    lemma_placeable_contained(lens, c.dim);
    lemma_rough_bounds(lens, c.dim.width, i);
    lemma_rows_monotone(lens, c.dim.width, i, lens.len() - 1);
}

/// The frame of a layout starts at or after the origin and ends within the
/// bounds of the constraint.
pub proof fn law_frame_enclosed(c: Constraint, lens: Seq<usize>, positions: Seq<Pos>, frame: BoundingBox)
    requires
        laid_out(c, lens, positions, frame),
    ensures
        enclosed(c, frame),
{
    if lens.len() > 0 {
        lemma_placeable_contained(lens, c.dim);
        lemma_rough_bounds(lens, c.dim.width, 0);
        let leftmost = choose|i: int|
            0 <= i < lens.len() && frame.x == #[trigger] placed_x(c, lens, i);
        law_words_enclosed(c, lens, leftmost);
        let widest = choose|i: int|
            0 <= i < lens.len() && frame.w == #[trigger] row_end(lens, c.dim.width, i);
        let first = lemma_row_start_witness(lens, c.dim.width, widest);
        lemma_row_end_shared(lens, c.dim.width, first, widest);
        assert(frame.x <= placed_x(c, lens, first));
        assert(within(row_end(lens, c.dim.width, first), c.dim.width));
    }
}

/// A constraint that is bounded on both axes and lies inside the coordinate
/// space admits every sequence of words.
pub proof fn law_bounded_is_representable(c: Constraint, lens: Seq<usize>)
    requires
        c.dim.width matches Measurement::Value(w) && c.origin.x + w <= u16::MAX,
        c.dim.height matches Measurement::Value(h) && c.origin.y + h <= u16::MAX,
    ensures
        representable(c, lens),
{
    if placeable(lens, c.dim) {
        lemma_placeable_contained(lens, c.dim);
        assert forall|i: int| 0 <= i < lens.len() implies {
            &&& #[trigger] placed_x(c, lens, i) <= u16::MAX
            &&& placed_y(c, lens, i) <= u16::MAX
            &&& row_end(lens, c.dim.width, i) <= u16::MAX
        } by {
            law_words_enclosed(c, lens, i);
            assert(within(row_end(lens, c.dim.width, i), c.dim.width));
        }
    }
}

} // verus!
