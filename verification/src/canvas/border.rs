use crate::canvas::shapes::hollow_rectangle_cells;
use crate::canvas::{Canvas, GRID_WIDTH};
use crate::terminal::{extends, Terminal, SIZE};
use crate::util::{Color, Point, Size};
use vstd::prelude::*;

verus! {

impl Canvas {
    /// Draws a square border sized to the terminal: horizontally centered,
    /// anchored above the bottom edge. Returns its top-left corner.
    pub fn border(&mut self, term: &mut Terminal, size: SIZE, color: Color) -> (r: Point)
        requires
            old(self).wf(),
            size / 2 <= old(self).size.width / 2,
            size / 2 <= old(self).size.height,
            old(self).size.width / 2 - size / 2 + size <= GRID_WIDTH,
            old(self).size.height - size / 2 + size <= 256,
        ensures
            final(self).wf(),
            final(self).size == old(self).size,
            r.x == old(self).size.width / 2 - size / 2,
            r.y == old(self).size.height - size / 2,
            final(self).cells@ == hollow_rectangle_cells(
                old(self).cells@,
                r,
                Size { width: size, height: size },
                color,
            ),
            extends(*old(term), *final(term)),
    {
        let x = self.size.width / 2 - size / 2;
        let y = self.size.height - size / 2;

        self.hollow_rectangle(term, Point { x, y }, Size { width: size, height: size }, color);

        Point { x, y }
    }
}

} // verus!
