use crate::terminal::{extends, lemma_extends_trans, Command, Terminal, SIZE};
use crate::util::{Color, Point, Size};
use vstd::prelude::*;

pub mod border;
pub mod bucket;
pub mod shapes;
pub mod tools;

verus! {

/// Width of the stored grid in cells. Columns `0 .. GRID_WIDTH` are
/// addressable; the grid keeps this fixed capacity whatever the terminal
/// size, so resizing never reallocates.
pub const GRID_WIDTH: usize = 255;

/// The grid stores a full square of rows so that every byte-sized coordinate
/// pair addresses a cell.
pub const CELL_COUNT: usize = 255 * 255;

/// One terminal character cell. It either shows up to two half-blocks (an
/// upper and a lower one, each independently colored or empty), or one
/// character that uses up the entire cell. Each painted half remembers the
/// logical point it was painted at, because the storage index folds two
/// logical rows together and the true `y` cannot be recovered from it alone.
#[derive(Clone, Copy, Debug, PartialEq)]
pub struct Cell {
    pub upper_block: Option<Color>,
    pub lower_block: Option<Color>,
    pub upper_point: Point,
    pub lower_point: Point,
    /// If this is `Some(...)`, this character uses up the entire cell.
    pub character: Option<char>,
}

pub open spec fn empty_cell() -> Cell {
    Cell {
        upper_block: None,
        lower_block: None,
        upper_point: Point { x: 0, y: 0 },
        lower_point: Point { x: 0, y: 0 },
        character: None,
    }
}

impl Default for Cell {
    fn default() -> (c: Cell)
        ensures
            c == empty_cell(),
    {
        Cell {
            upper_block: None,
            lower_block: None,
            upper_point: Point { x: 0, y: 0 },
            lower_point: Point { x: 0, y: 0 },
            character: None,
        }
    }
}

/// A point addresses the grid if its column is inside the stored width.
/// Every byte-sized `y` fits: two logical rows share one storage row.
pub open spec fn valid_point(p: Point) -> bool {
    p.x < GRID_WIDTH
}

/// Where a point's cell is stored: two logical rows fold into one storage
/// row, and the parity of `y` selects the upper or lower half.
pub open spec fn index_of(p: Point) -> int {
    p.x + GRID_WIDTH * (p.y as int / 2)
}

pub proof fn lemma_index_of_bounds(p: Point)
    requires
        valid_point(p),
    ensures
        0 <= index_of(p) < CELL_COUNT,
{
}

/// Two valid points share a storage slot only when they are the upper and
/// lower half of the same cell.
pub proof fn lemma_index_of_injective(p: Point, q: Point)
    requires
        valid_point(p),
        valid_point(q),
        index_of(p) == index_of(q),
    ensures
        p.x == q.x,
        p.y as int / 2 == q.y as int / 2,
{
}

/// The cell after painting one half-block: the half selected by the parity
/// of `p.y` takes the color and remembers `p`; the other half is untouched;
/// a character override is always cleared.
pub open spec fn cell_painted(c: Cell, p: Point, color: Color) -> Cell {
    if p.y % 2 == 0 {
        Cell { upper_block: Some(color), upper_point: p, character: None, ..c }
    } else {
        Cell { lower_block: Some(color), lower_point: p, character: None, ..c }
    }
}

/// The whole grid after painting one half-block at `p`.
pub open spec fn half_block_cells(cells: Seq<Cell>, p: Point, color: Color) -> Seq<Cell> {
    cells.update(index_of(p), cell_painted(cells[index_of(p)], p, color))
}

/// The color a point shows: the half-block selected by the parity of `p.y`,
/// or black where that half is empty.
pub open spec fn color_at(cells: Seq<Cell>, p: Point) -> Color {
    let c = cells[index_of(p)];
    if p.y % 2 == 0 {
        match c.upper_block {
            Some(color) => color,
            None => Color::Black,
        }
    } else {
        match c.lower_block {
            Some(color) => color,
            None => Color::Black,
        }
    }
}

/// The terminal commands one half-block paint queues: the glyph of the half
/// being painted — upper or lower by the parity of `p.y` — set on the other
/// half's color as background where that half is painted.
pub open spec fn half_block_commands(cells: Seq<Cell>, p: Point) -> Seq<Command> {
    let c = cells[index_of(p)];
    if p.y % 2 == 0 {
        match c.lower_block {
            Some(lower) => seq![
                Command::SetBackgroundColor(lower),
                Command::WriteChar('\u{2580}'),
            ],
            None => seq![Command::WriteChar('\u{2580}')],
        }
    } else {
        match c.upper_block {
            Some(upper) => seq![
                Command::SetBackgroundColor(upper),
                Command::WriteChar('\u{2584}'),
            ],
            None => seq![Command::WriteChar('\u{2584}')],
        }
    }
}

/// The cell after a character override: the character consumes the cell and
/// both half-block colors are cleared.
pub open spec fn cell_with_character(c: Cell, character: char) -> Cell {
    Cell { upper_block: None, lower_block: None, character: Some(character), ..c }
}

/// Well-formedness of one stored cell: every painted half remembers a point
/// that maps back to this very slot with the right parity, and a painted
/// half rules out a character override.
pub open spec fn wf_cell(cells: Seq<Cell>, i: int) -> bool {
    &&& (cells[i].upper_block is Some ==> {
        &&& valid_point(cells[i].upper_point)
        &&& cells[i].upper_point.y % 2 == 0
        &&& index_of(cells[i].upper_point) == i
        &&& cells[i].character is None
    })
    &&& (cells[i].lower_block is Some ==> {
        &&& valid_point(cells[i].lower_point)
        &&& cells[i].lower_point.y % 2 == 1
        &&& index_of(cells[i].lower_point) == i
        &&& cells[i].character is None
    })
}

pub open spec fn wf_cells(cells: Seq<Cell>) -> bool {
    &&& cells.len() == CELL_COUNT
    &&& forall|i: int| 0 <= i < cells.len() ==> wf_cell(cells, i)
}

/// The drawing surface: a dense cell grid of fixed capacity plus the size of
/// the terminal it is currently shown on.
pub struct Canvas {
    pub cells: Vec<Cell>,
    pub size: Size,
}

impl Canvas {
    /// The grid invariant every operation preserves.
    pub open spec fn wf(self) -> bool {
        wf_cells(self.cells@)
    }

    /// A fresh canvas: every cell empty. The terminal size starts at zero
    /// and is set from the real terminal through `resize_terminal`.
    pub fn new() -> (c: Canvas)
        ensures
            c.wf(),
            c.cells@.len() == CELL_COUNT,
            forall|i: int| 0 <= i < CELL_COUNT ==> c.cells@[i] == empty_cell(),
            c.size == (Size { width: 0, height: 0 }),
    {
        let mut cells: Vec<Cell> = Vec::new();
        let mut i: usize = 0;
        while i < CELL_COUNT
            invariant
                i <= CELL_COUNT,
                cells@.len() == i,
                forall|j: int| 0 <= j < i ==> cells@[j] == empty_cell(),
            decreases CELL_COUNT - i,
        {
            cells.push(Cell::default());
            i = i + 1;
        }
        Canvas { cells, size: Size { width: 0, height: 0 } }
    }

    pub fn resize_terminal(&mut self, size: Size)
        ensures
            final(self).cells@ == old(self).cells@,
            final(self).size == size,
    {
        self.size = size;
    }

    pub(crate) fn get_position(point: Point) -> (r: usize)
        requires
            valid_point(point),
        ensures
            r == index_of(point),
            r < CELL_COUNT,
    {
        proof {
            lemma_index_of_bounds(point);
        }
        point.x as usize + GRID_WIDTH * (point.y as usize / 2)
    }

    /// A read-only view of the cell a point addresses.
    pub fn get_cell(&self, point: Point) -> (c: &Cell)
        requires
            self.wf(),
            valid_point(point),
        ensures
            *c == self.cells@[index_of(point)],
    {
        let position = Self::get_position(point);
        &self.cells[position]
    }

    /// Makes a character use up the whole cell at `point`, clearing both
    /// half-block colors.
    pub fn write_character(&mut self, point: Point, character: char)
        requires
            old(self).wf(),
            valid_point(point),
        ensures
            final(self).wf(),
            final(self).size == old(self).size,
            final(self).cells@ == old(self).cells@.update(
                index_of(point),
                cell_with_character(old(self).cells@[index_of(point)], character),
            ),
    {
        let position = Self::get_position(point);
        let current = self.cells[position];
        self.cells[position] = Cell {
            upper_block: None,
            lower_block: None,
            character: Some(character),
            ..current
        };
        proof {
            assert forall|i: int| 0 <= i < self.cells@.len() implies wf_cell(self.cells@, i) by {
                if i != position {
                    assert(wf_cell(old(self).cells@, i));
                }
            }
        }
    }

    /// The color occupying the half-block that `point` addresses, or black
    /// where that half is empty.
    pub fn get_color(&self, point: Point) -> (c: Color)
        requires
            self.wf(),
            valid_point(point),
        ensures
            c == color_at(self.cells@, point),
    {
        let cell = self.get_cell(point);
        if point.y % 2 == 0 {
            if let Some(color) = cell.upper_block {
                return color;
            }
        } else if let Some(color) = cell.lower_block {
            return color;
        }
        Color::default()
    }

    /// Resets every cell to its empty default in one pass.
    pub fn clear(&mut self)
        requires
            old(self).wf(),
        ensures
            final(self).wf(),
            final(self).size == old(self).size,
            final(self).cells@.len() == CELL_COUNT,
            forall|i: int| 0 <= i < CELL_COUNT ==> final(self).cells@[i] == empty_cell(),
    {
        let mut i: usize = 0;
        while i < CELL_COUNT
            invariant
                old(self).wf(),
                i <= CELL_COUNT,
                self.cells@.len() == CELL_COUNT,
                self.size == old(self).size,
                forall|j: int| 0 <= j < i ==> self.cells@[j] == empty_cell(),
                forall|j: int| i <= j < CELL_COUNT ==> self.cells@[j] == old(self).cells@[j],
            decreases CELL_COUNT - i,
        {
            self.cells[i] = Cell::default();
            i = i + 1;
        }
        proof {
            assert forall|i: int| 0 <= i < self.cells@.len() implies wf_cell(self.cells@, i) by {
                assert(self.cells@[i] == empty_cell());
            }
        }
    }

    /// Paints one half-block: the single primitive all drawing funnels
    /// through. The half selected by the parity of `point.y` takes the
    /// color, the other half keeps its color, and any character override is
    /// cleared. The matching glyph is queued for the screen, on the other
    /// half's color as background where that half is painted.
    #[verifier::rlimit(30)]
    pub fn half_block(&mut self, term: &mut Terminal, point: Point, color: Color)
        requires
            old(self).wf(),
            valid_point(point),
        ensures
            final(self).wf(),
            final(self).size == old(self).size,
            final(self).cells@ == half_block_cells(old(self).cells@, point, color),
            color_at(final(self).cells@, point) == color,
            final(term).commands@ == old(term).commands@ + half_block_commands(
                old(self).cells@,
                point,
            ),
            extends(*old(term), *final(term)),
    {
        let position = Self::get_position(point);
        let current = self.cells[position];
        let ghost term_mid: Terminal;
        if point.y % 2 == 0 {
            if let Some(lower_block_color) = current.lower_block {
                term.set_background_color(lower_block_color);
            }
            proof {
                term_mid = *term;
            }
            term.write_char('\u{2580}');
            self.cells[position] = Cell {
                upper_block: Some(color),
                upper_point: point,
                character: None,
                ..current
            };
        } else {
            if let Some(upper_block_color) = current.upper_block {
                term.set_background_color(upper_block_color);
            }
            proof {
                term_mid = *term;
            }
            term.write_char('\u{2584}');
            self.cells[position] = Cell {
                lower_block: Some(color),
                lower_point: point,
                character: None,
                ..current
            };
        }
        proof {
            lemma_extends_trans(*old(term), term_mid, *term);
            assert forall|i: int| 0 <= i < self.cells@.len() implies wf_cell(self.cells@, i) by {
                if i != position {
                    assert(wf_cell(old(self).cells@, i));
                } else {
                    assert(wf_cell(old(self).cells@, i));
                    assert(index_of(point) == position);
                    assert(self.cells@[i] == cell_painted(current, point, color));
                }
            }
            assert(term.commands@ =~= old(term).commands@ + half_block_commands(
                old(self).cells@,
                point,
            ));
        }
    }

    /// Re-emits the visible state of every stored cell, in storage order,
    /// leaving the grid itself unchanged.
    pub fn redraw(&mut self, term: &mut Terminal)
        requires
            old(self).wf(),
        ensures
            final(self).wf(),
            final(self).size == old(self).size,
            final(self).cells@ == old(self).cells@,
            final(term).commands@ == old(term).commands@ + redraw_commands(
                old(self).cells@,
                CELL_COUNT as int,
            ),
            extends(*old(term), *final(term)),
    {
        proof {
            lemma_redraw_emission_init(term.commands@, self.cells@);
        }
        let mut i: usize = 0;
        while i < CELL_COUNT
            invariant
                old(self).wf(),
                i <= CELL_COUNT,
                self.cells@ == old(self).cells@,
                self.size == old(self).size,
                term.commands@ == old(term).commands@ + redraw_commands(
                    old(self).cells@,
                    i as int,
                ),
                extends(*old(term), *term),
            decreases CELL_COUNT - i,
        {
            let ghost term_pre = *term;
            let cell = self.cells[i];
            proof {
                assert(wf_cell(self.cells@, i as int));
            }
            self.redraw_cell(term, &cell);
            proof {
                lemma_redraw_cell_identity(old(self).cells@, i as int);
                lemma_extends_trans(*old(term), term_pre, *term);
                lemma_redraw_emission_step(
                    old(self).cells@,
                    i as int,
                    old(term).commands@,
                    term_pre.commands@,
                    term.commands@,
                );
            }
            i = i + 1;
        }
    }

    /// Re-queues the glyphs one cell asks for: its character override, or
    /// each of its painted halves at the point that half remembers. Painting
    /// a half with the color it already shows leaves the grid as it was.
    #[verifier::rlimit(100)]
    #[verifier::spinoff_prover]
    pub fn redraw_cell(&mut self, term: &mut Terminal, cell: &Cell)
        requires
            old(self).wf(),
            cell.upper_block is Some ==> valid_point(cell.upper_point),
            cell.lower_block is Some ==> valid_point(cell.lower_point),
        ensures
            final(self).wf(),
            final(self).size == old(self).size,
            final(self).cells@ == redraw_cell_cells(old(self).cells@, *cell),
            final(term).commands@ == old(term).commands@ + redraw_cell_commands(
                old(self).cells@,
                *cell,
            ),
            extends(*old(term), *final(term)),
    {
        let ghost term_start = *term;
        let ghost cells_start = self.cells@;
        if let Some(character) = cell.character {
            term.write_char(character);
            proof {
                lemma_char_emission(
                    cells_start,
                    *cell,
                    character,
                    term_start.commands@,
                    term.commands@,
                );
            }
        } else {
            if let Some(upper_block_color) = cell.upper_block {
                self.block(term, cell.upper_point, upper_block_color);
            }
            let ghost term_mid = *term;
            let ghost cells_mid = self.cells@;
            if let Some(lower_block_color) = cell.lower_block {
                self.block(term, cell.lower_point, lower_block_color);
            }
            proof {
                lemma_extends_trans(term_start, term_mid, *term);
                lemma_blocks_emission(
                    cells_start,
                    *cell,
                    term_start.commands@,
                    term_mid.commands@,
                    term.commands@,
                    cells_mid,
                );
            }
        }
    }
}

/// Painting a half-block makes the painted point show exactly that color,
/// and leaves every other point — in particular the other half of the same
/// cell — showing what it showed before.
pub proof fn lemma_half_block_get_color(cells: Seq<Cell>, p: Point, q: Point, color: Color)
    requires
        cells.len() == CELL_COUNT,
        valid_point(p),
        valid_point(q),
    ensures
        color_at(half_block_cells(cells, p, color), p) == color,
        q != p ==> color_at(half_block_cells(cells, p, color), q) == color_at(cells, q),
{
    lemma_index_of_bounds(p);
    lemma_index_of_bounds(q);
    if q != p && index_of(q) == index_of(p) {
        lemma_index_of_injective(p, q);
        assert(p.y as int == 2 * (p.y as int / 2) + p.y as int % 2);
        assert(q.y as int == 2 * (q.y as int / 2) + q.y as int % 2);
        assert(p.y % 2 != q.y % 2);
    }
}

/// Painting the same point with the same color twice leaves exactly the
/// grid that one painting leaves.
pub proof fn lemma_half_block_idempotent(cells: Seq<Cell>, p: Point, color: Color)
    requires
        cells.len() == CELL_COUNT,
        valid_point(p),
    ensures
        half_block_cells(half_block_cells(cells, p, color), p, color) == half_block_cells(
            cells,
            p,
            color,
        ),
{
    lemma_index_of_bounds(p);
    assert(half_block_cells(half_block_cells(cells, p, color), p, color) =~= half_block_cells(
        cells,
        p,
        color,
    ));
}

/// The grid after re-queuing one cell's glyphs: unchanged for a character
/// cell, and repainted in place for each painted half.
pub open spec fn redraw_cell_cells(cells: Seq<Cell>, cell: Cell) -> Seq<Cell> {
    if cell.character is Some {
        cells
    } else {
        let after_upper = match cell.upper_block {
            Some(color) => half_block_cells(cells, cell.upper_point, color),
            None => cells,
        };
        match cell.lower_block {
            Some(color) => half_block_cells(after_upper, cell.lower_point, color),
            None => after_upper,
        }
    }
}

/// The commands re-queuing one cell's glyphs emits: its character override,
/// or one full block emission per painted half — the lower one against the
/// grid that the upper repaint leaves.
pub open spec fn redraw_cell_commands(cells: Seq<Cell>, cell: Cell) -> Seq<Command> {
    if cell.character is Some {
        seq![Command::WriteChar(cell.character.unwrap())]
    } else {
        (if cell.upper_block is Some {
            crate::canvas::tools::block_commands(
                cells,
                cell.upper_point,
                cell.upper_block.unwrap(),
            )
        } else {
            Seq::<Command>::empty()
        }) + (if cell.lower_block is Some {
            crate::canvas::tools::block_commands(
                if cell.upper_block is Some {
                    half_block_cells(cells, cell.upper_point, cell.upper_block.unwrap())
                } else {
                    cells
                },
                cell.lower_point,
                cell.lower_block.unwrap(),
            )
        } else {
            Seq::<Command>::empty()
        })
    }
}

/// `redraw_cell_commands`, spelled out per cell shape: the definition
/// reduces once the option payloads stand in constructor form.
proof fn lemma_rcc_char(cells: Seq<Cell>, c: Cell, ch: char)
    requires
        c.character == Some(ch),
    ensures
        redraw_cell_commands(cells, c) == seq![Command::WriteChar(ch)],
{
}

proof fn lemma_rcc_empty(cells: Seq<Cell>, c: Cell)
    requires
        c.character is None,
        c.upper_block is None,
        c.lower_block is None,
    ensures
        redraw_cell_commands(cells, c) == Seq::<Command>::empty(),
{
    assert(redraw_cell_commands(cells, c) =~= Seq::<Command>::empty());
}

proof fn lemma_rcc_upper(cells: Seq<Cell>, c: Cell, up: Color)
    requires
        c.character is None,
        c.upper_block == Some(up),
        c.lower_block is None,
    ensures
        redraw_cell_commands(cells, c) == crate::canvas::tools::block_commands(
            cells,
            c.upper_point,
            up,
        ),
{
    assert(redraw_cell_commands(cells, c) =~= crate::canvas::tools::block_commands(
        cells,
        c.upper_point,
        up,
    ));
}

proof fn lemma_rcc_lower(cells: Seq<Cell>, c: Cell, low: Color)
    requires
        c.character is None,
        c.upper_block is None,
        c.lower_block == Some(low),
    ensures
        redraw_cell_commands(cells, c) == crate::canvas::tools::block_commands(
            cells,
            c.lower_point,
            low,
        ),
{
    assert(redraw_cell_commands(cells, c) =~= crate::canvas::tools::block_commands(
        cells,
        c.lower_point,
        low,
    ));
}

proof fn lemma_rcc_both(cells: Seq<Cell>, c: Cell, up: Color, low: Color)
    requires
        c.character is None,
        c.upper_block == Some(up),
        c.lower_block == Some(low),
    ensures
        redraw_cell_commands(cells, c) == crate::canvas::tools::block_commands(
            cells,
            c.upper_point,
            up,
        ) + crate::canvas::tools::block_commands(
            half_block_cells(cells, c.upper_point, up),
            c.lower_point,
            low,
        ),
{
}

/// Folds one queued character write into `redraw_cell_commands`.
proof fn lemma_char_emission(
    cells_start: Seq<Cell>,
    c: Cell,
    ch: char,
    t_start: Seq<Command>,
    t_end: Seq<Command>,
)
    requires
        c.character == Some(ch),
        t_end == t_start.push(Command::WriteChar(ch)),
    ensures
        t_end == t_start + redraw_cell_commands(cells_start, c),
{
    lemma_rcc_char(cells_start, c, ch);
    assert(t_end =~= t_start + redraw_cell_commands(cells_start, c));
}

/// Composes the two optional block emissions of a half-block cell into
/// `redraw_cell_commands`, from the facts each step leaves behind.
proof fn lemma_blocks_emission(
    cells_start: Seq<Cell>,
    c: Cell,
    t_start: Seq<Command>,
    t_mid: Seq<Command>,
    t_end: Seq<Command>,
    cells_mid: Seq<Cell>,
)
    requires
        c.character is None,
        c.upper_block is Some ==> t_mid == t_start + crate::canvas::tools::block_commands(
            cells_start,
            c.upper_point,
            c.upper_block.unwrap(),
        ),
        c.upper_block is Some ==> cells_mid == half_block_cells(
            cells_start,
            c.upper_point,
            c.upper_block.unwrap(),
        ),
        c.upper_block is None ==> t_mid == t_start && cells_mid == cells_start,
        c.lower_block is Some ==> t_end == t_mid + crate::canvas::tools::block_commands(
            cells_mid,
            c.lower_point,
            c.lower_block.unwrap(),
        ),
        c.lower_block is None ==> t_end == t_mid,
    ensures
        t_end == t_start + redraw_cell_commands(cells_start, c),
{
    if c.upper_block is Some && c.lower_block is Some {
        lemma_rcc_both(cells_start, c, c.upper_block.unwrap(), c.lower_block.unwrap());
        assert(t_end =~= t_start + redraw_cell_commands(cells_start, c));
    } else if c.upper_block is Some {
        lemma_rcc_upper(cells_start, c, c.upper_block.unwrap());
        assert(t_end =~= t_start + redraw_cell_commands(cells_start, c));
    } else if c.lower_block is Some {
        lemma_rcc_lower(cells_start, c, c.lower_block.unwrap());
        assert(t_end =~= t_start + redraw_cell_commands(cells_start, c));
    } else {
        lemma_rcc_empty(cells_start, c);
        assert(t_end =~= t_start + redraw_cell_commands(cells_start, c));
    }
}

/// The commands a full redraw emits: every stored cell's re-emission, in
/// storage order.
pub open spec fn redraw_commands(cells: Seq<Cell>, upto: int) -> Seq<Command>
    decreases upto,
{
    if upto <= 0 {
        Seq::<Command>::empty()
    } else {
        redraw_commands(cells, upto - 1) + redraw_cell_commands(cells, cells[upto - 1])
    }
}

/// A command queue is unchanged by appending an empty redraw emission.
proof fn lemma_redraw_emission_init(t: Seq<Command>, cells: Seq<Cell>)
    ensures
        t == t + redraw_commands(cells, 0),
{
    assert(t =~= t + redraw_commands(cells, 0));
}

/// Folds one more cell's emission into the redraw emission so far.
proof fn lemma_redraw_emission_step(
    cells: Seq<Cell>,
    i: int,
    t_start: Seq<Command>,
    t_mid: Seq<Command>,
    t_end: Seq<Command>,
)
    requires
        0 <= i,
        t_mid == t_start + redraw_commands(cells, i),
        t_end == t_mid + redraw_cell_commands(cells, cells[i]),
    ensures
        t_end == t_start + redraw_commands(cells, i + 1),
{
    assert(t_end =~= t_start + redraw_commands(cells, i + 1));
}

/// Re-queuing the glyphs of a cell that the grid itself stores leaves the
/// grid unchanged: each half is repainted with exactly the color and point
/// it already holds.
pub proof fn lemma_redraw_cell_identity(cells: Seq<Cell>, i: int)
    requires
        wf_cells(cells),
        0 <= i < cells.len(),
    ensures
        redraw_cell_cells(cells, cells[i]) == cells,
{
    let cell = cells[i];
    assert(wf_cell(cells, i));
    if cell.character is None {
        if cell.upper_block is Some {
            lemma_index_of_bounds(cell.upper_point);
            assert(cell_painted(cell, cell.upper_point, cell.upper_block.unwrap()) == cell);
            assert(half_block_cells(cells, cell.upper_point, cell.upper_block.unwrap()) =~= cells);
        }
        if cell.lower_block is Some {
            lemma_index_of_bounds(cell.lower_point);
            assert(cell_painted(cell, cell.lower_point, cell.lower_block.unwrap()) == cell);
            assert(half_block_cells(cells, cell.lower_point, cell.lower_block.unwrap()) =~= cells);
        }
    }
}

} // verus!
