//! A bordered window drawn with box-drawing characters, centered on the
//! terminal. Only the frame is queued; the content area is left to the
//! caller.

use crate::terminal::{extends, Terminal, SIZE};
use crate::util::{Color, Point};
use vstd::prelude::*;

verus! {

broadcast use crate::terminal::lemma_extends_trans_auto;

/// Queues a centered square window frame around a content area of the given
/// size (two cells are added for the border). Returns its top-left corner.
#[verifier::loop_isolation(false)]
pub fn draw(term: &mut Terminal, size: SIZE, color: Color) -> (r: Point)
    requires
        size <= 253,
        (size + 2) / 2 <= old(term).size.width / 2,
        (size + 2) / 2 / 2 <= old(term).size.height / 2,
    ensures
        extends(*old(term), *final(term)),
        final(term).size == old(term).size,
        r.x == old(term).size.width / 2 - (size + 2) / 2,
        r.y == old(term).size.height / 2 - (size + 2) / 2 / 2,
{
    let size = size + 2;  // ignore the border

    let width = size;
    let height = size / 2;
    let x = term.size.width / 2 - width / 2;
    let mut y = term.size.height / 2 - height / 2;
    let previous_y = y;

    term.set_foreground_color(color);

    term.set_cursor(Point { x, y });

    term.write("\u{2554}");
    let mut i: SIZE = 2;
    while i < width
        invariant
            2 <= i <= vstd::math::max(width as int, 2),
            extends(*old(term), *term),
            term.size == old(term).size,
        decreases width - i,
    {
        term.write("\u{2550}");
        i = i + 1;
    }
    term.write("\u{2557}");

    proof {
        assert(width - width / 2 <= 128);
        assert(term.size.width / 2 <= 127);
        assert(x + width <= 255);
    }
    let mut row: SIZE = 2;
    while row < height
        invariant
            2 <= row <= vstd::math::max(height as int, 2),
            y == previous_y + (row - 2),
            previous_y <= 127,
            height <= 128,
            x + width <= 255,
            extends(*old(term), *term),
            term.size == old(term).size,
        decreases height - row,
    {
        y = y + 1;
        term.set_cursor(Point { x, y });
        term.write("\u{2551}");
        term.set_cursor(Point { x: x + width - 1, y });
        term.write("\u{2551}");
        row = row + 1;
    }

    term.set_cursor(Point { x, y: y + 1 });
    term.write("\u{255a}");
    let mut i: SIZE = 2;
    while i < width
        invariant
            2 <= i <= vstd::math::max(width as int, 2),
            extends(*old(term), *term),
            term.size == old(term).size,
        decreases width - i,
    {
        term.write("\u{2550}");
        i = i + 1;
    }
    term.write("\u{255d}");

    Point { x, y: previous_y }
}

} // verus!
