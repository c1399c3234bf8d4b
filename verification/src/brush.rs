//! Drawing single cells, lines and frames as text for the terminal.
//!
//! Every drawing operation appends to a text sink: the sequence that moves
//! the cursor, what is to be shown there, and a line break.

use vstd::prelude::*;
use crate::escape::{emit, goto, goto_sequence, push_char};
use crate::geometry::{BoundingBox, Dim, Pos};

verus! {

pub const ACS_TLCORNER: char = '\u{250c}';

pub const ACS_BLCORNER: char = '\u{2514}';

pub const ACS_TRCORNER: char = '\u{2510}';

pub const ACS_BRCORNER: char = '\u{2518}';

pub const ACS_HLINE: char = '\u{2500}';

pub const ACS_VLINE: char = '\u{2502}';

/// The position `dx` cells to the right of `pos` and `dy` cells below it.
pub open spec fn moved(pos: Pos, dx: int, dy: int) -> Pos {
    Pos { x: (pos.x + dx) as u16, y: (pos.y + dy) as u16 }
}

/// The text that shows `keycode` at `pos`.
pub open spec fn cell_text(keycode: char, pos: Pos) -> Seq<char> {
    goto_sequence(pos.x, pos.y).push(keycode).push('\n')
}

/// The text that shows `keycode` in `w` cells from `pos` to the right.
pub open spec fn hline_text(keycode: char, pos: Pos, w: nat) -> Seq<char> {
    (goto_sequence(pos.x, pos.y) + Seq::new(w, |i: int| keycode)).push('\n')
}

/// The text that shows `keycode` in `h` cells from `pos` downwards, cell by
/// cell from the top.
pub open spec fn vline_text(keycode: char, pos: Pos, h: nat) -> Seq<char>
    decreases h,
{
    if h == 0 {
        Seq::empty()
    } else {
        vline_text(keycode, pos, (h - 1) as nat) + cell_text(keycode, moved(pos, 0, h - 1))
    }
}

/// The text that draws the four corners of a frame: top left, top right,
/// bottom left, bottom right.
pub open spec fn corners_text(pos: Pos, dim: Dim) -> Seq<char> {
    cell_text(ACS_TLCORNER, pos) + cell_text(ACS_TRCORNER, moved(pos, dim.w - 1, 0)) + cell_text(
        ACS_BLCORNER,
        moved(pos, 0, dim.h - 1),
    ) + cell_text(ACS_BRCORNER, moved(pos, dim.w - 1, dim.h - 1))
}

/// The text that draws the top edge and then the bottom edge of a frame,
/// between its corners.
pub open spec fn edges_text(pos: Pos, dim: Dim) -> Seq<char> {
    if dim.w > 1 {
        hline_text(ACS_HLINE, moved(pos, 1, 0), (dim.w - 2) as nat) + hline_text(
            ACS_HLINE,
            moved(pos, 1, dim.h - 1),
            (dim.w - 2) as nat,
        )
    } else {
        Seq::empty()
    }
}

/// The text that draws the right side and then the left side of a frame,
/// between its corners.
pub open spec fn sides_text(pos: Pos, dim: Dim) -> Seq<char> {
    if dim.h > 1 {
        vline_text(ACS_VLINE, moved(pos, dim.w - 1, 1), (dim.h - 2) as nat) + vline_text(
            ACS_VLINE,
            moved(pos, 0, 1),
            (dim.h - 2) as nat,
        )
    } else {
        Seq::empty()
    }
}

/// The text that draws a frame of extent `dim` with its top-left corner at
/// `pos`: the corners, then the edges, then the sides. A frame without width
/// or height is no text at all.
pub open spec fn frame_text(pos: Pos, dim: Dim) -> Seq<char> {
    if dim.h == 0 || dim.w == 0 {
        Seq::empty()
    } else {
        corners_text(pos, dim) + edges_text(pos, dim) + sides_text(pos, dim)
    }
}

/// Whether a frame can be drawn: it does not start at the cell (0, 0),
/// which the terminal does not have, and it ends inside the coordinate
/// space.
pub open spec fn drawable(pos: Pos, dim: Dim) -> bool {
    dim.w > 0 && dim.h > 0 ==> {
        &&& pos.x != 0 || pos.y != 0
        &&& pos.x + dim.w - 1 <= u16::MAX
        &&& pos.y + dim.h - 1 <= u16::MAX
    }
}

/// Shows `keycode` at `pos`.
pub fn write_at(keycode: char, pos: &Pos, output: &mut String)
    requires
        pos.x != 0 || pos.y != 0,
    ensures
        final(output)@ == old(output)@ + cell_text(keycode, *pos),
{
    let cursor = goto(pos.x, pos.y);
    emit(output, &cursor);
    push_char(output, keycode);
    push_char(output, '\n');
    assert(output@ =~= old(output)@ + cell_text(keycode, *pos));
}

/// Shows `keycode` in `w` cells from `pos` to the right.
pub fn write_hline(keycode: char, pos: &Pos, w: u16, output: &mut String)
    requires
        pos.x != 0 || pos.y != 0,
    ensures
        final(output)@ == old(output)@ + hline_text(keycode, *pos, w as nat),
{
    let cursor = goto(pos.x, pos.y);
    emit(output, &cursor);
    let ghost start = output@;
    let mut i: u16 = 0;
    while i < w
        invariant
            i <= w,
            output@ == start + Seq::new(i as nat, |k: int| keycode),
        decreases w - i,
    {
        push_char(output, keycode);
        assert(output@ =~= start + Seq::new((i + 1) as nat, |k: int| keycode));
        i += 1;
    }
    push_char(output, '\n');
    assert(output@ =~= old(output)@ + hline_text(keycode, *pos, w as nat));
}

/// Shows `keycode` in `h` cells from `pos` downwards.
pub fn write_vline(keycode: char, pos: &Pos, h: u16, output: &mut String)
    requires
        h > 0 ==> pos.x != 0 || pos.y != 0,
        h > 0 ==> pos.y + h - 1 <= u16::MAX,
    ensures
        final(output)@ == old(output)@ + vline_text(keycode, *pos, h as nat),
{
    let mut dy: u16 = 0;
    while dy < h
        invariant
            dy <= h,
            h > 0 ==> pos.x != 0 || pos.y != 0,
            h > 0 ==> pos.y + h - 1 <= u16::MAX,
            output@ == old(output)@ + vline_text(keycode, *pos, dy as nat),
        decreases h - dy,
    {
        let rpos = Pos { x: pos.x, y: pos.y + dy };
        write_at(keycode, &rpos, output);
        assert(rpos == moved(*pos, 0, dy as int));
        assert(output@ =~= old(output)@ + vline_text(keycode, *pos, (dy + 1) as nat));
        dy += 1;
    }
}

/// Draws the four corners of a frame that holds a cell.
fn write_corners(pos: Pos, dim: Dim, output: &mut String)
    requires
        dim.w > 0,
        dim.h > 0,
        drawable(pos, dim),
    ensures
        final(output)@ == old(output)@ + corners_text(pos, dim),
{
    // top left
    write_at(ACS_TLCORNER, &Pos { x: pos.x, y: pos.y }, output);
    // top right
    write_at(ACS_TRCORNER, &Pos { x: pos.x + (dim.w - 1), y: pos.y }, output);
    let ghost upper = output@;
    // bottom left
    write_at(ACS_BLCORNER, &Pos { x: pos.x, y: pos.y + (dim.h - 1) }, output);
    // bottom right
    write_at(ACS_BRCORNER, &Pos { x: pos.x + (dim.w - 1), y: pos.y + (dim.h - 1) }, output);
    assert(upper =~= old(output)@ + (cell_text(ACS_TLCORNER, pos) + cell_text(
        ACS_TRCORNER,
        moved(pos, dim.w - 1, 0),
    )));
    assert(output@ =~= old(output)@ + corners_text(pos, dim));
}

/// Draws the top and the bottom edge of a frame that holds a cell.
fn write_edges(pos: Pos, dim: Dim, output: &mut String)
    requires
        dim.w > 0,
        dim.h > 0,
        drawable(pos, dim),
    ensures
        final(output)@ == old(output)@ + edges_text(pos, dim),
{
    if dim.w > 1 {
        // top line
        write_hline(ACS_HLINE, &Pos { x: pos.x + 1, y: pos.y }, dim.w - 2, output);
        // bottom line
        write_hline(ACS_HLINE, &Pos { x: pos.x + 1, y: pos.y + (dim.h - 1) }, dim.w - 2, output);
    }
    assert(output@ =~= old(output)@ + edges_text(pos, dim));
}

/// Draws the right and the left side of a frame that holds a cell.
fn write_sides(pos: Pos, dim: Dim, output: &mut String)
    requires
        dim.w > 0,
        dim.h > 0,
        drawable(pos, dim),
    ensures
        final(output)@ == old(output)@ + sides_text(pos, dim),
{
    if dim.h > 1 {
        // right line
        write_vline(ACS_VLINE, &Pos { x: pos.x + (dim.w - 1), y: pos.y + 1 }, dim.h - 2, output);
        // left line
        write_vline(ACS_VLINE, &Pos { x: pos.x, y: pos.y + 1 }, dim.h - 2, output);
    }
    assert(output@ =~= old(output)@ + sides_text(pos, dim));
}

/// Draws a frame of extent `dim` with its top-left corner at `pos`.
pub fn write_frame(pos: Pos, dim: Dim, output: &mut String)
    requires
        drawable(pos, dim),
    ensures
        final(output)@ == old(output)@ + frame_text(pos, dim),
{
    if dim.h == 0 || dim.w == 0 {
        assert(output@ =~= old(output)@ + frame_text(pos, dim));
        return ;
    }
    write_corners(pos, dim, output);
    write_edges(pos, dim, output);
    write_sides(pos, dim, output);
    assert(output@ =~= old(output)@ + frame_text(pos, dim));
}

/// Draws a frame around `bbox`, `gap` cells away from it on every side.
pub fn write_frame2(bbox: BoundingBox, gap: u16, output: &mut String)
    requires
        gap <= bbox.x,
        gap <= bbox.y,
        gap <= i16::MAX,
        bbox.w + 2 * gap <= u16::MAX,
        bbox.h + 2 * gap <= u16::MAX,
        drawable(
            Pos { x: (bbox.x - gap) as u16, y: (bbox.y - gap) as u16 },
            Dim { w: (bbox.w + 2 * gap) as u16, h: (bbox.h + 2 * gap) as u16 },
        ),
    ensures
        final(output)@ == old(output)@ + frame_text(
            Pos { x: (bbox.x - gap) as u16, y: (bbox.y - gap) as u16 },
            Dim { w: (bbox.w + 2 * gap) as u16, h: (bbox.h + 2 * gap) as u16 },
        ),
{
    let back: i16 = -(gap as i16);
    write_frame(bbox.pos().shift(back, back), bbox.dim().grow(gap * 2, gap * 2), output)
}

} // verus!
