use crate::canvas::{half_block_cells, Canvas, Cell, GRID_WIDTH};
use crate::terminal::{extends, lemma_extends_trans, Terminal, SIZE};
use crate::util::{Color, Point, Size};
use vstd::prelude::*;

verus! {

/// The largest `j <= k` with `j * j <= n` (and `0` when there is none).
pub open spec fn isqrt_rec(n: int, k: nat) -> int
    decreases k,
{
    if k == 0 {
        0
    } else if k * k <= n {
        k as int
    } else {
        isqrt_rec(n, (k - 1) as nat)
    }
}

/// The integer square root, for the coordinate range this grid uses.
pub open spec fn isqrt(n: int) -> int {
    isqrt_rec(n, 255)
}

pub proof fn lemma_isqrt_rec(n: int, k: nat)
    requires
        0 <= n,
        n < (k + 1) * (k + 1),
    ensures
        isqrt_rec(n, k) * isqrt_rec(n, k) <= n,
        n < (isqrt_rec(n, k) + 1) * (isqrt_rec(n, k) + 1),
        0 <= isqrt_rec(n, k) <= k,
    decreases k,
{
    if k == 0 {
    } else if k * k <= n {
    } else {
        assert(n < k * k) by (nonlinear_arith)
            requires
                !(k * k <= n),
        ;
        lemma_isqrt_rec(n, (k - 1) as nat);
    }
}

pub proof fn lemma_isqrt_bounds(n: int)
    requires
        0 <= n <= 255 * 255,
    ensures
        isqrt(n) * isqrt(n) <= n,
        n < (isqrt(n) + 1) * (isqrt(n) + 1),
        0 <= isqrt(n) <= 255,
{
    assert((255 + 1) * (255 + 1) == 65536) by (nonlinear_arith);
    lemma_isqrt_rec(n, 255);
}

/// Executable integer square root: the largest `r` with `r * r <= n`.
pub fn integer_sqrt(n: u32) -> (r: u32)
    requires
        n <= 255 * 255,
    ensures
        r == isqrt(n as int),
{
    let mut j: u32 = 0;
    while (j + 1) * (j + 1) <= n
        invariant
            n <= 255 * 255,
            j <= 255,
            j * j <= n,
            (j + 1) * (j + 1) <= 65536,
        decreases 256 - j,
    {
        j = j + 1;
        proof {
            assert(j <= 255) by (nonlinear_arith)
                requires
                    j * j <= n,
                    n <= 255 * 255,
                    0 <= j,
            ;
            assert((j + 1) * (j + 1) <= 65536) by (nonlinear_arith)
                requires
                    0 <= j <= 255,
            ;
        }
    }
    proof {
        lemma_isqrt_bounds(n as int);
        assert(j == isqrt(n as int)) by (nonlinear_arith)
            requires
                0 <= j,
                j * j <= n,
                n < (j + 1) * (j + 1),
                0 <= isqrt(n as int),
                isqrt(n as int) * isqrt(n as int) <= n,
                n < (isqrt(n as int) + 1) * (isqrt(n as int) + 1),
        ;
    }
    j
}

/// The grid after filling one vertical span of `count` half-blocks in column
/// `x`, starting at row `y_lo` and growing downward.
pub open spec fn circle_column_cells(
    cells: Seq<Cell>,
    x: int,
    y_lo: int,
    count: int,
    color: Color,
) -> Seq<Cell>
    decreases count,
{
    if count <= 0 {
        cells
    } else {
        half_block_cells(
            circle_column_cells(cells, x, y_lo, count - 1, color),
            Point { x: x as SIZE, y: (y_lo + count - 1) as SIZE },
            color,
        )
    }
}

/// The grid after the first `cols` columns of a scanline circle fill around
/// `center`: column `dx = -radius + c` spans the vertical chord of height
/// `2 * isqrt(radius^2 - dx^2)` centered on `center.y`.
pub open spec fn circle_cells(
    cells: Seq<Cell>,
    center: Point,
    color: Color,
    radius: int,
    cols: int,
) -> Seq<Cell>
    decreases cols,
{
    if cols <= 0 {
        cells
    } else {
        let dx = -radius + cols - 1;
        let hh = isqrt(radius * radius - dx * dx);
        circle_column_cells(
            circle_cells(cells, center, color, radius, cols - 1),
            center.x + dx,
            center.y - hh,
            2 * hh,
            color,
        )
    }
}

/// The grid after a filled rectangle: `rows` full-width runs from `p`
/// downward.
pub open spec fn filled_rectangle_cells(
    cells: Seq<Cell>,
    p: Point,
    color: Color,
    width: int,
    rows: int,
) -> Seq<Cell>
    decreases rows,
{
    if rows <= 0 {
        cells
    } else {
        crate::canvas::tools::blocks_cells(
            filled_rectangle_cells(cells, p, color, width, rows - 1),
            Point { x: p.x, y: (p.y + rows - 1) as SIZE },
            color,
            width,
        )
    }
}

/// The grid after the side columns of a hollow rectangle: for each row
/// offset `1 ..= rows`, one block in the left column and one in the right
/// column (`p.x + w1`).
pub open spec fn hollow_side_cells(
    cells: Seq<Cell>,
    p: Point,
    w1: int,
    rows: int,
    color: Color,
) -> Seq<Cell>
    decreases rows,
{
    if rows <= 0 {
        cells
    } else {
        let prev = hollow_side_cells(cells, p, w1, rows - 1, color);
        let left = half_block_cells(prev, Point { x: p.x, y: (p.y + rows) as SIZE }, color);
        half_block_cells(left, Point { x: (p.x + w1) as SIZE, y: (p.y + rows) as SIZE }, color)
    }
}

/// The grid after a hollow rectangle: a full-width top run, a full-width
/// bottom run, and single blocks down the left and right columns for the
/// rows in between. Degenerate sizes clamp the `- 1` offsets to zero rather
/// than underflow.
pub open spec fn hollow_rectangle_cells(
    cells: Seq<Cell>,
    p: Point,
    size: Size,
    color: Color,
) -> Seq<Cell> {
    let h1: int = if size.height == 0 {
        0
    } else {
        size.height - 1
    };
    let w1: int = if size.width == 0 {
        0
    } else {
        size.width - 1
    };
    let top = crate::canvas::tools::blocks_cells(cells, p, color, size.width as int);
    let bottom = crate::canvas::tools::blocks_cells(
        top,
        Point { x: p.x, y: (p.y + h1) as SIZE },
        color,
        size.width as int,
    );
    hollow_side_cells(bottom, p, w1, size.height - 1, color)
}

impl Canvas {
    /// A scanline circle fill: for each column offset in
    /// `-radius .. radius`, fills the vertical chord of the disc. This is
    /// the fill primitive behind thick brush strokes, not an outline.
    pub fn circle(&mut self, term: &mut Terminal, point: Point, color: Color, radius: SIZE)
        requires
            old(self).wf(),
            radius <= point.x,
            point.x + radius <= GRID_WIDTH,
            radius <= point.y,
            point.y + radius <= 256,
        ensures
            final(self).wf(),
            final(self).size == old(self).size,
            final(self).cells@ == circle_cells(
                old(self).cells@,
                point,
                color,
                radius as int,
                2 * radius as int,
            ),
            extends(*old(term), *final(term)),
    {
        let radius_w = radius as i32;
        let center_x = point.x as i32;
        let center_y = point.y as i32;

        proof {
            assert(0 <= radius_w * radius_w <= 65025) by (nonlinear_arith)
                requires
                    0 <= radius_w <= 255,
            ;
        }
        let radius_sqr = radius_w * radius_w;
        let mut x: i32 = -radius_w;
        while x < radius_w
            invariant
                old(self).wf(),
                radius <= point.x,
                point.x + radius <= GRID_WIDTH,
                radius <= point.y,
                point.y + radius <= 256,
                radius_w == radius,
                center_x == point.x,
                center_y == point.y,
                radius_sqr == radius_w * radius_w,
                0 <= radius_sqr <= 65025,
                -radius_w <= x <= radius_w,
                self.wf(),
                self.size == old(self).size,
                self.cells@ == circle_cells(
                    old(self).cells@,
                    point,
                    color,
                    radius as int,
                    x + radius,
                ),
                extends(*old(term), *term),
            decreases radius_w - x,
        {
            proof {
                assert(0 <= x * x <= radius_sqr) by (nonlinear_arith)
                    requires
                        -radius_w <= x <= radius_w,
                        radius_sqr == radius_w * radius_w,
                ;
            }
            let hh_u = integer_sqrt((radius_sqr - x * x) as u32);
            proof {
                lemma_isqrt_bounds((radius_sqr - x * x) as int);
                assert(isqrt((radius_sqr - x * x) as int) <= radius_w) by (nonlinear_arith)
                    requires
                        0 <= isqrt((radius_sqr - x * x) as int),
                        isqrt((radius_sqr - x * x) as int) * isqrt((radius_sqr - x * x) as int)
                            <= radius_sqr - x * x,
                        radius_sqr == radius_w * radius_w,
                        0 <= x * x,
                        0 <= radius_w,
                ;
            }
            let hh = hh_u as i32;
            let rx = center_x + x;
            let ph = center_y + hh;
            let mut y: i32 = center_y - hh;
            let ghost column_start = self.cells@;
            let ghost term_col = *term;
            while y < ph
                invariant
                    old(self).wf(),
                    self.wf(),
                    self.size == old(self).size,
                    0 <= radius_w <= 255,
                    0 <= hh <= radius_w,
                    radius_w <= center_x,
                    center_x + radius_w <= GRID_WIDTH,
                    radius_w <= center_y,
                    center_y + radius_w <= 256,
                    -radius_w <= x < radius_w,
                    rx == center_x + x,
                    ph == center_y + hh,
                    center_y - hh <= y <= ph,
                    self.cells@ == circle_column_cells(
                        column_start,
                        rx as int,
                        center_y - hh,
                        y - (center_y - hh),
                        color,
                    ),
                    extends(term_col, *term),
                decreases ph - y,
            {
                let ghost term_pre = *term;
                self.block(term, Point { x: rx as SIZE, y: y as SIZE }, color);
                proof {
                    lemma_extends_trans(term_col, term_pre, *term);
                }
                y = y + 1;
            }
            proof {
                assert(2 * hh == ph - (center_y - hh));
                lemma_extends_trans(*old(term), term_col, *term);
            }
            x = x + 1;
        }
    }

    /// Draws the outline of a rectangle: top and bottom full-width runs and
    /// the two side columns for the rows in between. Degenerate sizes must
    /// not underflow, so the `- 1` offsets clamp to zero.
    pub fn hollow_rectangle(&mut self, term: &mut Terminal, point: Point, size: Size, color: Color)
        requires
            old(self).wf(),
            point.x < GRID_WIDTH,
            point.x + size.width <= GRID_WIDTH,
            point.y + size.height <= 256,
        ensures
            final(self).wf(),
            final(self).size == old(self).size,
            final(self).cells@ == hollow_rectangle_cells(old(self).cells@, point, size, color),
            extends(*old(term), *final(term)),
    {
        let bottom_offset: SIZE = if size.height == 0 {
            0
        } else {
            size.height - 1
        };
        let right_offset: SIZE = if size.width == 0 {
            0
        } else {
            size.width - 1
        };
        term.set_foreground_color(color);
        let ghost term0 = *term;
        self.blocks_at(term, point, color, size.width);
        let ghost term1 = *term;
        proof {
            lemma_extends_trans(*old(term), term0, term1);
        }
        self.blocks_at(
            term,
            Point { x: point.x, y: point.y + bottom_offset },
            color,
            size.width,
        );
        let ghost runs_done = self.cells@;
        let ghost term2 = *term;
        proof {
            lemma_extends_trans(*old(term), term1, term2);
        }

        let mut index: SIZE = 1;
        while index < size.height
            invariant
                old(self).wf(),
                self.wf(),
                self.size == old(self).size,
                point.x < GRID_WIDTH,
                point.x + size.width <= GRID_WIDTH,
                point.y + size.height <= 256,
                right_offset == (if size.width == 0 {
                    0int
                } else {
                    size.width - 1
                }),
                1 <= index <= vstd::math::max(size.height as int, 1),
                self.cells@ == hollow_side_cells(
                    runs_done,
                    point,
                    right_offset as int,
                    index - 1,
                    color,
                ),
                extends(*old(term), *term),
            decreases size.height - index,
        {
            let ghost term_pre = *term;
            self.block_at(term, Point { x: point.x, y: point.y + index }, color);
            let ghost term_mid = *term;
            self.block_at(
                term,
                Point { x: point.x + right_offset, y: point.y + index },
                color,
            );
            proof {
                lemma_extends_trans(*old(term), term_pre, term_mid);
                lemma_extends_trans(*old(term), term_mid, *term);
            }
            index = index + 1;
        }
        let ghost term3 = *term;
        term.reset_colors();
        proof {
            lemma_extends_trans(*old(term), term3, *term);
        }
    }

    /// Fills a rectangle with `size.height` consecutive full-width runs.
    pub fn filled_rectangle(&mut self, term: &mut Terminal, point: Point, size: Size, color: Color)
        requires
            old(self).wf(),
            point.x + size.width <= GRID_WIDTH,
            point.y + size.height <= 256,
        ensures
            final(self).wf(),
            final(self).size == old(self).size,
            final(self).cells@ == filled_rectangle_cells(
                old(self).cells@,
                point,
                color,
                size.width as int,
                size.height as int,
            ),
            extends(*old(term), *final(term)),
    {
        term.set_foreground_color(color);
        let ghost term0 = *term;
        proof {
            lemma_extends_trans(*old(term), *old(term), term0);
        }
        let mut y_index: SIZE = 0;
        while y_index < size.height
            invariant
                old(self).wf(),
                self.wf(),
                self.size == old(self).size,
                point.x + size.width <= GRID_WIDTH,
                point.y + size.height <= 256,
                y_index <= size.height,
                self.cells@ == filled_rectangle_cells(
                    old(self).cells@,
                    point,
                    color,
                    size.width as int,
                    y_index as int,
                ),
                extends(*old(term), *term),
            decreases size.height - y_index,
        {
            let ghost term_pre = *term;
            self.blocks_at(
                term,
                Point { x: point.x, y: point.y + y_index },
                color,
                size.width,
            );
            proof {
                lemma_extends_trans(*old(term), term_pre, *term);
            }
            y_index = y_index + 1;
        }
        let ghost term4 = *term;
        term.reset_colors();
        proof {
            lemma_extends_trans(*old(term), term4, *term);
        }
    }
}

} // verus!
