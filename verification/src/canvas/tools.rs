use crate::canvas::bucket::{flood_region, in_bounds, region_paint};
use crate::canvas::shapes::{circle_cells, hollow_rectangle_cells};
use crate::canvas::{
    color_at, half_block_cells, half_block_commands, valid_point, Canvas, Cell, GRID_WIDTH,
};
use crate::terminal::{extends, lemma_extends_trans, Command, Terminal, SIZE};
use crate::util::{Color, Point, Size};
use vstd::prelude::*;

verus! {

/// The grid after painting a run of `count` half-blocks starting at `p` and
/// growing to the right.
pub open spec fn blocks_cells(cells: Seq<Cell>, p: Point, color: Color, count: int) -> Seq<Cell>
    decreases count,
{
    if count <= 0 {
        cells
    } else {
        half_block_cells(
            blocks_cells(cells, p, color, count - 1),
            Point { x: (p.x + count - 1) as SIZE, y: p.y },
            color,
        )
    }
}

/// The commands `block_at` queues: the cursor move to the point's terminal
/// row (half its logical row), then the half-block emission.
pub open spec fn block_at_commands(cells: Seq<Cell>, p: Point) -> Seq<Command> {
    seq![Command::SetCursor(Point { x: p.x, y: (p.y / 2) as SIZE })] + half_block_commands(
        cells,
        p,
    )
}

/// The commands `block` queues: the foreground color set before the block
/// and the color reset after it.
pub open spec fn block_commands(cells: Seq<Cell>, p: Point, color: Color) -> Seq<Command> {
    seq![Command::SetForegroundColor(color)] + block_at_commands(cells, p) + seq![
        Command::ResetColors,
    ]
}

/// The glyph run `blocks_at` queues after its cursor move: one half-block
/// emission per column, each against the grid as painted so far.
pub open spec fn blocks_run_commands(
    cells: Seq<Cell>,
    p: Point,
    color: Color,
    count: int,
) -> Seq<Command>
    decreases count,
{
    if count <= 0 {
        Seq::<Command>::empty()
    } else {
        blocks_run_commands(cells, p, color, count - 1) + half_block_commands(
            blocks_cells(cells, p, color, count - 1),
            Point { x: (p.x + count - 1) as SIZE, y: p.y },
        )
    }
}

/// The commands `blocks_at` queues: one cursor move, then the glyph run.
pub open spec fn blocks_at_commands(
    cells: Seq<Cell>,
    p: Point,
    color: Color,
    count: int,
) -> Seq<Command> {
    seq![Command::SetCursor(Point { x: p.x, y: (p.y / 2) as SIZE })] + blocks_run_commands(
        cells,
        p,
        color,
        count,
    )
}

/// The points of the grid line from `(x1, y1)` (inclusive) toward
/// `(x2, y2)` (exclusive), as the line rasterizer produces them.
pub uninterp spec fn line_points(x1: SIZE, y1: SIZE, x2: SIZE, y2: SIZE) -> Seq<(SIZE, SIZE)>;

impl Canvas {
    /// Sets the terminal cursor accordingly and then draws a block.
    pub fn block_at(&mut self, term: &mut Terminal, point: Point, color: Color)
        requires
            old(self).wf(),
            valid_point(point),
        ensures
            final(self).wf(),
            final(self).size == old(self).size,
            final(self).cells@ == half_block_cells(old(self).cells@, point, color),
            final(term).commands@ == old(term).commands@ + block_at_commands(
                old(self).cells@,
                point,
            ),
            extends(*old(term), *final(term)),
    {
        term.set_cursor(Point { x: point.x, y: point.y / 2 });
        let ghost term_mid = *term;
        self.half_block(term, point, color);
        proof {
            lemma_extends_trans(*old(term), term_mid, *term);
            assert(term.commands@ =~= old(term).commands@ + block_at_commands(
                old(self).cells@,
                point,
            ));
        }
    }

    /// Draws a block in the given foreground color.
    pub fn block(&mut self, term: &mut Terminal, point: Point, color: Color)
        requires
            old(self).wf(),
            valid_point(point),
        ensures
            final(self).wf(),
            final(self).size == old(self).size,
            final(self).cells@ == half_block_cells(old(self).cells@, point, color),
            final(term).commands@ == old(term).commands@ + block_commands(
                old(self).cells@,
                point,
                color,
            ),
            extends(*old(term), *final(term)),
    {
        term.set_foreground_color(color);
        let ghost term1 = *term;
        self.block_at(term, point, color);
        let ghost term2 = *term;
        term.reset_colors();
        proof {
            lemma_extends_trans(*old(term), term1, term2);
            lemma_extends_trans(*old(term), term2, *term);
            assert(term.commands@ =~= old(term).commands@ + block_commands(
                old(self).cells@,
                point,
                color,
            ));
        }
    }

    /// Sets the terminal cursor accordingly and then efficiently draws
    /// multiple blocks in a row.
    pub fn blocks_at(&mut self, term: &mut Terminal, point: Point, color: Color, count: SIZE)
        requires
            old(self).wf(),
            point.x + count <= GRID_WIDTH,
        ensures
            final(self).wf(),
            final(self).size == old(self).size,
            final(self).cells@ == blocks_cells(old(self).cells@, point, color, count as int),
            final(term).commands@ == old(term).commands@ + blocks_at_commands(
                old(self).cells@,
                point,
                color,
                count as int,
            ),
            extends(*old(term), *final(term)),
    {
        term.set_cursor(Point { x: point.x, y: point.y / 2 });
        let mut index: SIZE = 0;
        while index < count
            invariant
                old(self).wf(),
                index <= count,
                point.x + count <= GRID_WIDTH,
                self.wf(),
                self.size == old(self).size,
                self.cells@ == blocks_cells(old(self).cells@, point, color, index as int),
                term.commands@ == old(term).commands@ + blocks_at_commands(
                    old(self).cells@,
                    point,
                    color,
                    index as int,
                ),
                extends(*old(term), *term),
            decreases count - index,
        {
            let ghost term_pre = *term;
            self.half_block(term, Point { x: point.x + index, y: point.y }, color);
            proof {
                lemma_extends_trans(*old(term), term_pre, *term);
                assert(term.commands@ =~= old(term).commands@ + blocks_at_commands(
                    old(self).cells@,
                    point,
                    color,
                    index + 1,
                ));
            }
            index = index + 1;
        }
    }

    /// Efficiently draws multiple blocks in a row, in the given foreground
    /// color.
    pub fn blocks(&mut self, term: &mut Terminal, point: Point, color: Color, count: SIZE)
        requires
            old(self).wf(),
            point.x + count <= GRID_WIDTH,
        ensures
            final(self).wf(),
            final(self).size == old(self).size,
            final(self).cells@ == blocks_cells(old(self).cells@, point, color, count as int),
            final(term).commands@ == old(term).commands@ + seq![
                Command::SetForegroundColor(color),
            ] + blocks_at_commands(old(self).cells@, point, color, count as int) + seq![
                Command::ResetColors,
            ],
            extends(*old(term), *final(term)),
    {
        term.set_foreground_color(color);
        let ghost term1 = *term;
        self.blocks_at(term, point, color, count);
        let ghost term2 = *term;
        term.reset_colors();
        proof {
            lemma_extends_trans(*old(term), term1, term2);
            lemma_extends_trans(*old(term), term2, *term);
            assert(term.commands@ =~= old(term).commands@ + seq![
                Command::SetForegroundColor(color),
            ] + blocks_at_commands(old(self).cells@, point, color, count as int) + seq![
                Command::ResetColors,
            ]);
        }
    }

    /// The points of the line between two canvas points, used to interpolate
    /// between sparse drag samples. Relies on bracket_geometry's `Bresenham`
    /// iterator: it yields the points of the line from the start point
    /// (inclusive) toward the end point (exclusive), one per step along the
    /// longer axis, each inside the bounding box of the two endpoints, and
    /// each one step of at most one cell per axis from the one before.
    #[verifier::external_body]
    pub fn line(&self, x1: SIZE, y1: SIZE, x2: SIZE, y2: SIZE) -> (r: Vec<Point>)
        ensures
            r@.len() == line_points(x1, y1, x2, y2).len(),
            forall|i: int|
                0 <= i < r@.len() ==> ((#[trigger] r@[i]).x, r@[i].y) == line_points(
                    x1,
                    y1,
                    x2,
                    y2,
                )[i],
            r@.len() == vstd::math::max(
                vstd::math::abs(x2 - x1) as int,
                vstd::math::abs(y2 - y1) as int,
            ),
            forall|i: int|
                0 <= i < r@.len() ==> {
                    &&& vstd::math::min(x1 as int, x2 as int) <= (#[trigger] r@[i]).x
                        <= vstd::math::max(x1 as int, x2 as int)
                    &&& vstd::math::min(y1 as int, y2 as int) <= r@[i].y <= vstd::math::max(
                        y1 as int,
                        y2 as int,
                    )
                },
            r@.len() > 0 ==> r@[0] == (Point { x: x1, y: y1 }),
            forall|i: int|
                0 <= i && i + 1 < r@.len() ==> {
                    &&& (#[trigger] r@[i]).x - r@[i + 1].x <= 1
                    &&& r@[i + 1].x - r@[i].x <= 1
                    &&& r@[i].y - r@[i + 1].y <= 1
                    &&& r@[i + 1].y - r@[i].y <= 1
                },
    {
        let start = bracket_geometry::prelude::Point::new(x1 as i32, y1 as i32);
        let end = bracket_geometry::prelude::Point::new(x2 as i32, y2 as i32);
        let mut points = Vec::new();
        for p in bracket_geometry::prelude::Bresenham::new(start, end) {
            points.push(Point { x: p.x as SIZE, y: p.y as SIZE });
        }
        points
    }

    /// A round brush stamp: a single half-block at size 1, a five-point
    /// plus-shaped stamp at size 2, and a scanline circle fill of radius
    /// `size - 1` beyond that.
    pub fn brush(&mut self, term: &mut Terminal, point: Point, color: Color, size: SIZE)
        requires
            old(self).wf(),
            size >= 1,
            brush_ok(point, size as int),
        ensures
            final(self).wf(),
            final(self).size == old(self).size,
            final(self).cells@ == brush_cells(old(self).cells@, point, color, size as int),
            extends(*old(term), *final(term)),
    {
        if size == 1 {
            term.set_foreground_color(color);
            let ghost term1 = *term;
            self.block_at(term, point, color);
            let ghost term2 = *term;
            term.reset_colors();
            proof {
                lemma_extends_trans(*old(term), term1, term2);
                lemma_extends_trans(*old(term), term2, *term);
            }
        } else if size == 2 {
            term.set_foreground_color(color);
            let ghost term1 = *term;
            self.block_at(term, Point { x: point.x, y: point.y - 1 }, color);
            let ghost term2 = *term;
            self.block_at(term, Point { x: point.x - 1, y: point.y }, color);
            let ghost term3 = *term;
            self.block_at(term, point, color);
            let ghost term4 = *term;
            self.block_at(term, Point { x: point.x + 1, y: point.y }, color);
            let ghost term5 = *term;
            self.block_at(term, Point { x: point.x, y: point.y + 1 }, color);
            let ghost term6 = *term;
            term.reset_colors();
            proof {
                lemma_extends_trans(*old(term), term1, term2);
                lemma_extends_trans(*old(term), term2, term3);
                lemma_extends_trans(*old(term), term3, term4);
                lemma_extends_trans(*old(term), term4, term5);
                lemma_extends_trans(*old(term), term5, term6);
                lemma_extends_trans(*old(term), term6, *term);
            }
        } else {
            self.circle(term, point, color, size - 1);
        }
    }

    /// A zig-zag quill stroke: for each offset up to the size, alternately a
    /// block below the anchor (even offsets) and above it (odd offsets).
    pub fn quill(&mut self, term: &mut Terminal, point: Point, color: Color, size: SIZE)
        requires
            old(self).wf(),
            quill_ok(point, size as int),
        ensures
            final(self).wf(),
            final(self).size == old(self).size,
            final(self).cells@ == quill_cells(old(self).cells@, point, color, size as int),
            extends(*old(term), *final(term)),
    {
        term.set_foreground_color(color);
        let ghost term0 = *term;
        proof {
            lemma_extends_trans(*old(term), *old(term), term0);
        }
        let mut offset: u16 = 0;
        while offset <= size as u16
            invariant
                old(self).wf(),
                self.wf(),
                self.size == old(self).size,
                quill_ok(point, size as int),
                offset <= size as u16 + 1,
                self.cells@ == quill_cells(old(self).cells@, point, color, offset - 1),
                extends(*old(term), *term),
            decreases size as u16 + 1 - offset,
        {
            let ghost term_pre = *term;
            if offset % 2 == 0 {
                self.block_at(
                    term,
                    Point { x: point.x, y: point.y + (offset / 2) as SIZE },
                    color,
                );
            } else {
                self.block_at(
                    term,
                    Point { x: point.x, y: point.y - (offset / 2) as SIZE },
                    color,
                );
            }
            proof {
                lemma_extends_trans(*old(term), term_pre, *term);
            }
            offset = offset + 1;
        }
        let ghost term_end = *term;
        term.reset_colors();
        proof {
            lemma_extends_trans(*old(term), term_end, *term);
        }
    }
}

/// Where a brush stamp of the given size fits without leaving the grid.
pub open spec fn brush_ok(p: Point, size: int) -> bool {
    if size == 1 {
        valid_point(p)
    } else if size == 2 {
        &&& 1 <= p.x
        &&& p.x + 1 < GRID_WIDTH
        &&& 1 <= p.y
        &&& p.y + 1 <= 255
    } else {
        &&& size - 1 <= p.x
        &&& p.x + size - 1 <= GRID_WIDTH
        &&& size - 1 <= p.y
        &&& p.y + size - 1 <= 256
    }
}

/// The grid after one brush stamp.
pub open spec fn brush_cells(cells: Seq<Cell>, p: Point, color: Color, size: int) -> Seq<Cell> {
    if size == 1 {
        half_block_cells(cells, p, color)
    } else if size == 2 {
        let c1 = half_block_cells(cells, Point { x: p.x, y: (p.y - 1) as SIZE }, color);
        let c2 = half_block_cells(c1, Point { x: (p.x - 1) as SIZE, y: p.y }, color);
        let c3 = half_block_cells(c2, p, color);
        let c4 = half_block_cells(c3, Point { x: (p.x + 1) as SIZE, y: p.y }, color);
        half_block_cells(c4, Point { x: p.x, y: (p.y + 1) as SIZE }, color)
    } else {
        circle_cells(cells, p, color, size - 1, 2 * (size - 1))
    }
}

/// Where a quill stroke of the given size fits without leaving the grid.
pub open spec fn quill_ok(p: Point, size: int) -> bool {
    &&& valid_point(p)
    &&& p.y + size / 2 <= 255
    &&& (size >= 1 ==> p.y >= (size - 1) / 2)
}

/// The grid after the quill offsets `0 ..= upto`: even offsets paint below
/// the anchor, odd offsets above it.
pub open spec fn quill_cells(cells: Seq<Cell>, p: Point, color: Color, upto: int) -> Seq<Cell>
    decreases upto + 1,
{
    if upto < 0 {
        cells
    } else {
        let prev = quill_cells(cells, p, color, upto - 1);
        if upto % 2 == 0 {
            half_block_cells(prev, Point { x: p.x, y: (p.y + upto / 2) as SIZE }, color)
        } else {
            half_block_cells(prev, Point { x: p.x, y: (p.y - upto / 2) as SIZE }, color)
        }
    }
}

/// The drawing tools a pointer drag can invoke.
#[derive(Clone, Copy, Debug, PartialEq, Eq, Structural)]
pub enum Tool {
    Brush,
    Quill,
    Rectangle,
    Bucket,
    Text,
}

impl Default for Tool {
    fn default() -> (t: Tool)
        ensures
            t == Tool::Brush,
    {
        Tool::Brush
    }
}

/// Where one application of a tool at a point stays inside the grid (and,
/// for the bucket, inside the terminal bounds).
pub open spec fn use_ok(tool: Tool, sz: Size, p: Point, size: int) -> bool {
    match tool {
        Tool::Brush => size >= 1 && brush_ok(p, size),
        Tool::Quill => quill_ok(p, size),
        Tool::Rectangle => {
            &&& p.x < GRID_WIDTH
            &&& p.x + size <= GRID_WIDTH
            &&& p.y + size <= 256
        },
        Tool::Bucket => in_bounds(sz, p),
        Tool::Text => true,
    }
}

/// The grid after one application of a tool at a point.
pub open spec fn tool_use_cells(
    tool: Tool,
    cells: Seq<Cell>,
    sz: Size,
    p: Point,
    color: Color,
    size: int,
) -> Seq<Cell> {
    match tool {
        Tool::Brush => brush_cells(cells, p, color, size),
        Tool::Quill => quill_cells(cells, p, color, size),
        Tool::Rectangle => hollow_rectangle_cells(
            cells,
            p,
            Size { width: size as SIZE, height: size as SIZE },
            color,
        ),
        Tool::Bucket => {
            if color_at(cells, p) == color {
                cells
            } else {
                region_paint(cells, flood_region(cells, color_at(cells, p), sz, p), color)
            }
        },
        Tool::Text => cells,
    }
}

/// The grid after applying a tool once at every point of a sequence, in
/// order.
pub open spec fn tool_points_cells(
    tool: Tool,
    cells: Seq<Cell>,
    sz: Size,
    points: Seq<Point>,
    color: Color,
    size: int,
) -> Seq<Cell>
    decreases points.len(),
{
    if points.len() == 0 {
        cells
    } else {
        tool_use_cells(
            tool,
            tool_points_cells(tool, cells, sz, points.drop_last(), color, size),
            sz,
            points.last(),
            color,
            size,
        )
    }
}

/// The points of a line as canvas points.
pub open spec fn points_of(s: Seq<(SIZE, SIZE)>) -> Seq<Point> {
    Seq::new(s.len(), |i: int| Point { x: s[i].0, y: s[i].1 })
}

/// Each tool's fitting condition is closed under the bounding box of two
/// fitting endpoints, so every interpolated line point fits as well.
pub proof fn lemma_use_ok_box(tool: Tool, sz: Size, a: Point, b: Point, q: Point, size: int)
    requires
        use_ok(tool, sz, a, size),
        use_ok(tool, sz, b, size),
        vstd::math::min(a.x as int, b.x as int) <= q.x <= vstd::math::max(a.x as int, b.x as int),
        vstd::math::min(a.y as int, b.y as int) <= q.y <= vstd::math::max(a.y as int, b.y as int),
    ensures
        use_ok(tool, sz, q, size),
{
}

impl Tool {
    /// Applies this tool once at one point.
    pub fn apply(
        &self,
        canvas: &mut Canvas,
        term: &mut Terminal,
        point: Point,
        color: Color,
        size: SIZE,
    )
        requires
            old(canvas).wf(),
            use_ok(*self, old(canvas).size, point, size as int),
        ensures
            final(canvas).wf(),
            final(canvas).size == old(canvas).size,
            final(canvas).cells@ == tool_use_cells(
                *self,
                old(canvas).cells@,
                old(canvas).size,
                point,
                color,
                size as int,
            ),
            extends(*old(term), *final(term)),
    {
        match self {
            Tool::Brush => {
                canvas.brush(term, point, color, size);
            },
            Tool::Quill => {
                canvas.quill(term, point, color, size);
            },
            Tool::Rectangle => {
                canvas.hollow_rectangle(
                    term,
                    point,
                    Size { width: size, height: size },
                    color,
                );
            },
            Tool::Bucket => {
                canvas.bucket(term, point, color);
            },
            Tool::Text => {
                // Text input is handled by the event dispatch, not here.
            },
        }
    }

    /// Applies this tool once at every given point, in order. `Tool::draw`
    /// uses this on the interpolated line between two drag samples; with
    /// concrete points it pins down exactly what any interpolation paints.
    pub fn draw_along(
        &self,
        canvas: &mut Canvas,
        term: &mut Terminal,
        points: &Vec<Point>,
        color: Color,
        size: SIZE,
    )
        requires
            old(canvas).wf(),
            forall|i: int|
                0 <= i < points@.len() ==> use_ok(
                    *self,
                    old(canvas).size,
                    #[trigger] points@[i],
                    size as int,
                ),
        ensures
            final(canvas).wf(),
            final(canvas).size == old(canvas).size,
            final(canvas).cells@ == tool_points_cells(
                *self,
                old(canvas).cells@,
                old(canvas).size,
                points@,
                color,
                size as int,
            ),
            extends(*old(term), *final(term)),
    {
        let mut k: usize = 0;
        while k < points.len()
            invariant
                old(canvas).wf(),
                canvas.wf(),
                canvas.size == old(canvas).size,
                k <= points@.len(),
                forall|i: int|
                    0 <= i < points@.len() ==> use_ok(
                        *self,
                        old(canvas).size,
                        #[trigger] points@[i],
                        size as int,
                    ),
                canvas.cells@ == tool_points_cells(
                    *self,
                    old(canvas).cells@,
                    old(canvas).size,
                    points@.subrange(0, k as int),
                    color,
                    size as int,
                ),
                extends(*old(term), *term),
            decreases points@.len() - k,
        {
            let ghost term_pre = *term;
            let p = points[k];
            self.apply(canvas, term, p, color, size);
            proof {
                lemma_extends_trans(*old(term), term_pre, *term);
                assert(points@.subrange(0, k + 1).drop_last() =~= points@.subrange(0, k as int));
                assert(points@.subrange(0, k + 1).last() == points@[k as int]);
            }
            k = k + 1;
        }
        proof {
            assert(points@.subrange(0, points@.len() as int) =~= points@);
        }
    }

    /// One completed drag sample: if there is no previous sample, or it
    /// equals the current point, the tool is applied once at the point;
    /// otherwise it is applied at every point of the rasterized line from
    /// the previous sample to the current one, which is what makes fast
    /// drags paint continuous strokes.
    pub fn draw(
        &self,
        canvas: &mut Canvas,
        term: &mut Terminal,
        point: Point,
        last_point: Option<Point>,
        color: Color,
        tool_size: SIZE,
    )
        requires
            old(canvas).wf(),
            use_ok(*self, old(canvas).size, point, tool_size as int),
            last_point matches Some(lp) ==> use_ok(*self, old(canvas).size, lp, tool_size as int),
        ensures
            final(canvas).wf(),
            final(canvas).size == old(canvas).size,
            extends(*old(term), *final(term)),
            match last_point {
                None => final(canvas).cells@ == tool_use_cells(
                    *self,
                    old(canvas).cells@,
                    old(canvas).size,
                    point,
                    color,
                    tool_size as int,
                ),
                Some(lp) => {
                    if lp == point {
                        final(canvas).cells@ == tool_use_cells(
                            *self,
                            old(canvas).cells@,
                            old(canvas).size,
                            point,
                            color,
                            tool_size as int,
                        )
                    } else {
                        final(canvas).cells@ == tool_points_cells(
                            *self,
                            old(canvas).cells@,
                            old(canvas).size,
                            points_of(line_points(lp.x, lp.y, point.x, point.y)),
                            color,
                            tool_size as int,
                        )
                    }
                },
            },
    {
        if let Some(last_point) = last_point {
            if last_point == point {
                self.apply(canvas, term, point, color, tool_size);
            } else {
                let draw_points = canvas.line(last_point.x, last_point.y, point.x, point.y);
                proof {
                    assert(draw_points@ =~= points_of(
                        line_points(last_point.x, last_point.y, point.x, point.y),
                    ));
                    assert forall|i: int| 0 <= i < draw_points@.len() implies use_ok(
                        *self,
                        old(canvas).size,
                        #[trigger] draw_points@[i],
                        tool_size as int,
                    ) by {
                        lemma_use_ok_box(
                            *self,
                            old(canvas).size,
                            last_point,
                            point,
                            draw_points@[i],
                            tool_size as int,
                        );
                    }
                }
                self.draw_along(canvas, term, &draw_points, color, tool_size);
            }
        } else {
            self.apply(canvas, term, point, color, tool_size);
        }
    }
}

} // verus!
