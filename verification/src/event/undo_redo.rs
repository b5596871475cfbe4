use crate::canvas::tools::{
    line_points, points_of, tool_points_cells, tool_use_cells, use_ok, Tool,
};
use crate::canvas::{empty_cell, Canvas, Cell, CELL_COUNT, GRID_WIDTH};
use crate::terminal::event::{Event, KeyEvent};
use crate::terminal::{extends, lemma_extends_trans, Terminal, SIZE};
use crate::util::{Point, Size};
use vstd::prelude::*;

verus! {

/// One recorded tool invocation: the tool, the drag sample it was applied
/// at, the previous sample (for line interpolation on replay), the color and
/// the brush size. Immutable once recorded.
#[derive(Clone, Copy, Debug, PartialEq)]
pub struct Operation {
    pub tool: Tool,
    pub start: Point,
    pub end: Option<Point>,
    pub color: crate::util::Color,
    pub size: SIZE,
}

/// Whether replaying an operation stays inside the grid for the given
/// terminal size. Replay skips an operation that no longer fits: the canvas
/// may have been resized since it was recorded, and an out-of-range draw
/// aborts that operation rather than the whole replay.
pub open spec fn op_ok(op: Operation, sz: Size) -> bool {
    &&& use_ok(op.tool, sz, op.start, op.size as int)
    &&& (op.end matches Some(lp) ==> use_ok(op.tool, sz, lp, op.size as int))
}

/// Executable check of `use_ok`.
pub fn check_use_ok(tool: Tool, sz: Size, p: Point, size: SIZE) -> (r: bool)
    ensures
        r == use_ok(tool, sz, p, size as int),
{
    match tool {
        Tool::Brush => {
            if size == 1 {
                (p.x as usize) < GRID_WIDTH
            } else if size == 2 {
                p.x >= 1 && (p.x as usize) + 1 < GRID_WIDTH && p.y >= 1 && p.y <= 254
            } else if size >= 3 {
                let reach = size as u16 - 1;
                reach <= p.x as u16 && p.x as u16 + reach <= GRID_WIDTH as u16 && reach
                    <= p.y as u16 && p.y as u16 + reach <= 256
            } else {
                false
            }
        },
        Tool::Quill => {
            (p.x as usize) < GRID_WIDTH && p.y as u16 + (size as u16) / 2 <= 255 && (size == 0
                || p.y as u16 >= (size as u16 - 1) / 2)
        },
        Tool::Rectangle => {
            (p.x as usize) < GRID_WIDTH && p.x as u16 + size as u16 <= GRID_WIDTH as u16 && p.y
                as u16 + size as u16 <= 256
        },
        Tool::Bucket => p.x < sz.width && (p.y as u16) < 2 * (sz.height as u16),
        Tool::Text => true,
    }
}

/// Executable check of `op_ok`.
pub fn check_op_ok(op: &Operation, sz: Size) -> (r: bool)
    ensures
        r == op_ok(*op, sz),
{
    let start_ok = check_use_ok(op.tool, sz, op.start, op.size);
    match op.end {
        Some(lp) => start_ok && check_use_ok(op.tool, sz, lp, op.size),
        None => start_ok,
    }
}

/// A grid with every cell empty: what `Canvas::clear` leaves.
pub open spec fn blank_cells() -> Seq<Cell> {
    Seq::new(CELL_COUNT as nat, |i: int| empty_cell())
}

/// The grid one replayed operation leaves: the tool is drawn from its
/// recorded sample pair, exactly as the live drag drew it; an operation
/// that no longer fits the canvas is skipped.
pub open spec fn op_draw_cells(op: Operation, cells: Seq<Cell>, sz: Size) -> Seq<Cell> {
    if !op_ok(op, sz) {
        cells
    } else {
        match op.end {
            None => tool_use_cells(op.tool, cells, sz, op.start, op.color, op.size as int),
            Some(lp) => {
                if lp == op.start {
                    tool_use_cells(op.tool, cells, sz, op.start, op.color, op.size as int)
                } else {
                    tool_points_cells(
                        op.tool,
                        cells,
                        sz,
                        points_of(line_points(lp.x, lp.y, op.start.x, op.start.y)),
                        op.color,
                        op.size as int,
                    )
                }
            },
        }
    }
}

/// The grid after clearing the canvas and replaying a log of operations in
/// order.
pub open spec fn replay_cells(ops: Seq<Operation>, sz: Size) -> Seq<Cell>
    decreases ops.len(),
{
    if ops.len() == 0 {
        blank_cells()
    } else {
        op_draw_cells(ops.last(), replay_cells(ops.drop_last(), sz), sz)
    }
}

/// An ordered, truncating append log of operations plus a cursor into it.
/// Undo and redo replay `buffer[..cursor]` wholesale against a cleared
/// canvas.
pub struct UndoRedoBuffer {
    pub buffer: Vec<Operation>,
    pub cursor: usize,
}

/// Where the cursor lands after one undo: one step back, or unchanged at
/// the start.
pub open spec fn undo_cursor(cursor: nat) -> nat {
    if cursor == 0 {
        0
    } else {
        (cursor - 1) as nat
    }
}

/// Where the cursor lands after one redo: one step forward, or unchanged at
/// the end of the log.
pub open spec fn redo_cursor(cursor: nat, len: nat) -> nat {
    if cursor == len {
        cursor
    } else {
        cursor + 1
    }
}

pub open spec fn undo_n(cursor: nat, n: nat) -> nat
    decreases n,
{
    if n == 0 {
        cursor
    } else {
        undo_cursor(undo_n(cursor, (n - 1) as nat))
    }
}

pub open spec fn redo_n(cursor: nat, len: nat, n: nat) -> nat
    decreases n,
{
    if n == 0 {
        cursor
    } else {
        redo_cursor(redo_n(cursor, len, (n - 1) as nat), len)
    }
}

pub proof fn lemma_undo_n(cursor: nat, n: nat)
    requires
        n <= cursor,
    ensures
        undo_n(cursor, n) == cursor - n,
    decreases n,
{
    if n > 0 {
        lemma_undo_n(cursor, (n - 1) as nat);
    }
}

pub proof fn lemma_redo_n(cursor: nat, len: nat, n: nat)
    requires
        cursor + n <= len,
    ensures
        redo_n(cursor, len, n) == cursor + n,
    decreases n,
{
    if n > 0 {
        lemma_redo_n(cursor, len, (n - 1) as nat);
    }
}

/// After N pushes the cursor stands at N; N undos walk it back to zero and
/// N redos walk it forward to N again, with the log untouched throughout,
/// so the replayed canvas state equals the state right after the N pushes.
pub proof fn lemma_undo_redo_round_trip(ops: Seq<Operation>, sz: Size)
    ensures
        undo_n(ops.len(), ops.len()) == 0,
        redo_n(0, ops.len(), ops.len()) == ops.len(),
        replay_cells(ops.subrange(0, redo_n(0, ops.len(), ops.len()) as int), sz) == replay_cells(
            ops,
            sz,
        ),
{
    lemma_undo_n(ops.len(), ops.len());
    lemma_redo_n(0, ops.len(), ops.len());
    assert(ops.subrange(0, ops.len() as int) =~= ops);
}

/// Pushing onto a log whose cursor is at its end appends without dropping
/// anything.
pub proof fn lemma_push_at_end(buf: Seq<Operation>, op: Operation)
    ensures
        buf.subrange(0, buf.len() as int).push(op) == buf.push(op),
{
    assert(buf.subrange(0, buf.len() as int) =~= buf);
}

/// After K undos, one push discards the abandoned redo branch: the log
/// holds the first `len - K` old operations plus the new one, and the
/// cursor sits at its end, so no redo is available.
pub proof fn lemma_push_truncates(buf: Seq<Operation>, k: nat, op: Operation)
    requires
        k <= buf.len(),
    ensures
        ({
            let cur = undo_n(buf.len(), k);
            let new_buf = buf.subrange(0, cur as int).push(op);
            &&& new_buf.len() == buf.len() - k + 1
            &&& new_buf.drop_last() == buf.subrange(0, (buf.len() - k) as int)
            &&& new_buf.last() == op
            &&& redo_cursor(cur + 1, new_buf.len()) == cur + 1
        }),
{
    lemma_undo_n(buf.len(), k);
}

impl UndoRedoBuffer {
    /// The cursor never passes the end of the log.
    pub open spec fn wf(self) -> bool {
        self.cursor <= self.buffer@.len()
    }

    pub fn new() -> (b: UndoRedoBuffer)
        ensures
            b.wf(),
            b.buffer@ == Seq::<Operation>::empty(),
            b.cursor == 0,
    {
        UndoRedoBuffer { buffer: Vec::new(), cursor: 0 }
    }

    /// Records one operation. A cursor behind the end means prior undos
    /// happened; their redo branch is discarded for good before appending.
    pub fn push(&mut self, operation: Operation)
        requires
            old(self).wf(),
            old(self).cursor < usize::MAX,
        ensures
            final(self).wf(),
            final(self).buffer@ == old(self).buffer@.subrange(0, old(self).cursor as int).push(
                operation,
            ),
            final(self).cursor == old(self).cursor + 1,
            final(self).cursor == final(self).buffer@.len(),
            final(self).buffer@.len() == old(self).cursor + 1,
            redo_cursor(final(self).cursor as nat, final(self).buffer@.len() as nat)
                == final(self).cursor,
    {
        if self.cursor != self.buffer.len() {
            self.buffer.truncate(self.cursor);
        } else {
            proof {
                assert(self.buffer@.subrange(0, self.cursor as int) =~= self.buffer@);
            }
        }
        self.buffer.push(operation);
        self.cursor = self.cursor + 1;
    }

    /// Steps the cursor back once and replays; a no-op at the start of the
    /// log.
    pub fn undo(&mut self, canvas: &mut Canvas, term: &mut Terminal)
        requires
            old(self).wf(),
            old(canvas).wf(),
        ensures
            final(self).wf(),
            final(canvas).wf(),
            final(self).buffer@ == old(self).buffer@,
            final(canvas).size == old(canvas).size,
            final(self).cursor == undo_cursor(old(self).cursor as nat),
            old(self).cursor == 0 ==> final(canvas).cells@ == old(canvas).cells@ && *final(term)
                == *old(term),
            old(self).cursor > 0 ==> final(canvas).cells@ == replay_cells(
                old(self).buffer@.subrange(0, old(self).cursor - 1),
                old(canvas).size,
            ),
            extends(*old(term), *final(term)),
    {
        if self.cursor == 0 {
            proof {
                assert(old(term).commands@.is_prefix_of(term.commands@));
            }
            return ;
        }
        self.cursor = self.cursor - 1;
        self.draw(canvas, term);
    }

    /// Steps the cursor forward once and replays; a no-op at the end of the
    /// log.
    pub fn redo(&mut self, canvas: &mut Canvas, term: &mut Terminal)
        requires
            old(self).wf(),
            old(canvas).wf(),
        ensures
            final(self).wf(),
            final(canvas).wf(),
            final(self).buffer@ == old(self).buffer@,
            final(canvas).size == old(canvas).size,
            final(self).cursor == redo_cursor(
                old(self).cursor as nat,
                old(self).buffer@.len() as nat,
            ),
            old(self).cursor == old(self).buffer@.len() ==> final(canvas).cells@ == old(
                canvas,
            ).cells@ && *final(term) == *old(term),
            old(self).cursor < old(self).buffer@.len() ==> final(canvas).cells@ == replay_cells(
                old(self).buffer@.subrange(0, old(self).cursor + 1),
                old(canvas).size,
            ),
            extends(*old(term), *final(term)),
    {
        if self.cursor == self.buffer.len() {
            proof {
                assert(old(term).commands@.is_prefix_of(term.commands@));
            }
            return ;
        }
        assert(self.cursor < self.buffer@.len());
        self.cursor = self.cursor + 1;
        self.draw(canvas, term);
    }

    /// Replays the whole history up to the cursor: clears the canvas and the
    /// screen, then re-draws every recorded operation in order.
    #[verifier::loop_isolation(false)]
    pub fn draw(&mut self, canvas: &mut Canvas, term: &mut Terminal)
        requires
            old(self).wf(),
            old(canvas).wf(),
        ensures
            final(self).buffer@ == old(self).buffer@,
            final(self).cursor == old(self).cursor,
            final(self).wf(),
            final(canvas).wf(),
            final(canvas).size == old(canvas).size,
            final(canvas).cells@ == replay_cells(
                old(self).buffer@.subrange(0, old(self).cursor as int),
                old(canvas).size,
            ),
            extends(*old(term), *final(term)),
    {
        canvas.clear();
        term.clear();
        proof {
            assert(canvas.cells@ =~= blank_cells());
            assert(Seq::<Operation>::empty() =~= self.buffer@.subrange(0, 0));
        }
        let mut index: usize = 0;
        while index < self.cursor
            invariant
                index <= self.cursor,
                canvas.wf(),
                canvas.size == old(canvas).size,
                canvas.cells@ == replay_cells(
                    self.buffer@.subrange(0, index as int),
                    old(canvas).size,
                ),
                extends(*old(term), *term),
            decreases self.cursor - index,
        {
            let operation = self.buffer[index];
            let ghost term_pre = *term;
            if check_op_ok(&operation, canvas.size) {
                operation.tool.draw(
                    canvas,
                    term,
                    operation.start,
                    operation.end,
                    operation.color,
                    operation.size,
                );
            }
            proof {
                lemma_extends_trans(*old(term), term_pre, *term);
                assert(self.buffer@.subrange(0, index + 1).drop_last() =~= self.buffer@.subrange(
                    0,
                    index as int,
                ));
                assert(self.buffer@.subrange(0, index + 1).last() == self.buffer@[index as int]);
            }
            index = index + 1;
        }
        let ghost term_end = *term;
        term.flush();
        proof {
            lemma_extends_trans(*old(term), term_end, *term);
        }
    }
}

/// Whether a key event asks for an undo.
pub open spec fn is_undo_key(event: Event) -> bool {
    event matches Event::Key(KeyEvent::Char(c, _)) && (c == 'z' || c == 'Z')
}

/// Whether a key event asks for a redo.
pub open spec fn is_redo_key(event: Event) -> bool {
    event matches Event::Key(KeyEvent::Char(c, _)) && (c == 'y' || c == 'Y')
}

/// Routes undo/redo keys to the buffer; reports whether the event was one
/// of them. A handled event replays the history and flushes the screen.
pub fn handle(
    event: &Event,
    term: &mut Terminal,
    canvas: &mut Canvas,
    undo_redo_buffer: &mut UndoRedoBuffer,
) -> (r: bool)
    requires
        old(canvas).wf(),
        old(undo_redo_buffer).wf(),
    ensures
        final(canvas).wf(),
        final(undo_redo_buffer).wf(),
        r == (is_undo_key(*event) || is_redo_key(*event)),
        r ==> final(term).commands@.len() > 0 && final(term).commands@.last()
            == crate::terminal::Command::Flush,
        final(undo_redo_buffer).buffer@ == old(undo_redo_buffer).buffer@,
        final(canvas).size == old(canvas).size,
        extends(*old(term), *final(term)),
        !r ==> final(canvas).cells@ == old(canvas).cells@ && final(undo_redo_buffer).cursor == old(
            undo_redo_buffer,
        ).cursor && *final(term) == *old(term),
        is_undo_key(*event) ==> final(undo_redo_buffer).cursor == undo_cursor(
            old(undo_redo_buffer).cursor as nat,
        ),
        is_redo_key(*event) ==> final(undo_redo_buffer).cursor == redo_cursor(
            old(undo_redo_buffer).cursor as nat,
            old(undo_redo_buffer).buffer@.len() as nat,
        ),
        is_undo_key(*event) && old(undo_redo_buffer).cursor > 0 ==> final(canvas).cells@
            == replay_cells(
            old(undo_redo_buffer).buffer@.subrange(0, old(undo_redo_buffer).cursor - 1),
            old(canvas).size,
        ),
        is_undo_key(*event) && old(undo_redo_buffer).cursor == 0 ==> final(canvas).cells@ == old(
            canvas,
        ).cells@,
        is_redo_key(*event) && old(undo_redo_buffer).cursor < old(
            undo_redo_buffer,
        ).buffer@.len() ==> final(canvas).cells@ == replay_cells(
            old(undo_redo_buffer).buffer@.subrange(0, old(undo_redo_buffer).cursor + 1),
            old(canvas).size,
        ),
        is_redo_key(*event) && old(undo_redo_buffer).cursor == old(
            undo_redo_buffer,
        ).buffer@.len() ==> final(canvas).cells@ == old(canvas).cells@,
    {
        if let Event::Key(key) = event {
            let handled = match key {
                KeyEvent::Char(c, _) => {
                    if *c == 'z' || *c == 'Z' {
                        undo_redo_buffer.undo(canvas, term);
                        true
                    } else if *c == 'y' || *c == 'Y' {
                        undo_redo_buffer.redo(canvas, term);
                        true
                    } else {
                        false
                    }
                },
                _ => false,
            };
            if handled {
                let ghost term_mid = *term;
                term.flush();
                proof {
                    lemma_extends_trans(*old(term), term_mid, *term);
                }
                return true;
            }
            proof {
                assert(old(term).commands@.is_prefix_of(term.commands@));
            }
            false
        } else {
            proof {
                assert(old(term).commands@.is_prefix_of(term.commands@));
            }
            false
        }
    }

} // verus!
