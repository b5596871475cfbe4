//! Picking a color straight off the canvas with the middle mouse button:
//! an indicator follows the pointer, and releasing a button binds the color
//! under it. The front end reads the events and hands them here one by one.

use crate::canvas::{index_of, redraw_cell_cells, valid_point, Canvas, Cell};
use crate::terminal::event::{Event, EventKind, MouseButton, MouseEvent};
use crate::terminal::{extends, Terminal};
use crate::util::{Color, Point};
use vstd::prelude::*;

verus! {

broadcast use crate::terminal::lemma_extends_trans_auto;

/// The cell under a pointer position (whose `y` is in whole rows, so it is
/// doubled to address the grid) and the color shown there: the upper half,
/// else the lower half, else black.
pub open spec fn picked_color(cell: Cell) -> Color {
    match cell.upper_block {
        Some(c) => c,
        None => match cell.lower_block {
            Some(c) => c,
            None => Color::Black,
        },
    }
}

pub fn get_cell_and_color(canvas: &mut Canvas, point: Point) -> (r: (Cell, Color))
    requires
        old(canvas).wf(),
        valid_point(point),
        point.y <= 127,
    ensures
        *final(canvas) == *old(canvas),
        r.0 == old(canvas).cells@[index_of(Point { x: point.x, y: (point.y * 2) as u8 })],
        r.1 == picked_color(r.0),
{
    let cell = *canvas.get_cell(Point { x: point.x, y: point.y * 2 });
    let color = match cell.upper_block {
        Some(c) => c,
        None => match cell.lower_block {
            Some(c) => c,
            None => Color::default(),
        },
    };
    (cell, color)
}

/// Queues the indicator that shows where the pointer is: one cell in the
/// inverse of the color under it, then whatever that cell showed before, so
/// the next repaint clears the indicator again.
pub fn draw_indicator(
    term: &mut Terminal,
    canvas: &mut Canvas,
    point: Point,
    cell: &Cell,
    color: Color,
)
    requires
        old(canvas).wf(),
        cell.upper_block is Some ==> valid_point(cell.upper_point),
        cell.lower_block is Some ==> valid_point(cell.lower_point),
    ensures
        final(canvas).wf(),
        final(canvas).size == old(canvas).size,
        extends(*old(term), *final(term)),
        (cell.upper_block is Some || cell.lower_block is Some) ==> final(canvas).cells@
            == redraw_cell_cells(old(canvas).cells@, *cell),
        (cell.upper_block is None && cell.lower_block is None) ==> final(canvas).cells@ == old(
            canvas,
        ).cells@,
{
    term.set_cursor(point);
    term.set_background_color(color.invert());
    term.write(" ");
    term.flush();

    // clear that same spot on the next flush
    term.reset_colors();
    term.set_cursor(point);
    let has_upper = matches!(cell.upper_block, Some(_));
    let has_lower = matches!(cell.lower_block, Some(_));
    if has_upper || has_lower {
        canvas.redraw_cell(term, cell);
    } else {
        term.write(" ");
    }
}

/// Handles one event while the picker is active: the indicator follows the
/// pointer, and releasing the left or right button binds the color under it
/// to that button. Returns whether the picker is done. Pointer positions
/// outside the addressable rows leave everything unchanged.
pub fn handle_event(
    event: &Event,
    term: &mut Terminal,
    canvas: &mut Canvas,
    state: &mut crate::event::State,
) -> (done: bool)
    requires
        old(canvas).wf(),
    ensures
        final(canvas).wf(),
        final(canvas).size == old(canvas).size,
        extends(*old(term), *final(term)),
        final(term).size == old(term).size,
        done == (*event matches Event::Mouse(MouseEvent { kind: EventKind::Release(_), .. })),
        final(state).tool == old(state).tool,
        final(state).tool_size == old(state).tool_size,
        ({
            let before = *old(state);
            let after = *final(state);
            match *event {
                Event::Mouse(m) => {
                    let shown = picked_color(
                        old(canvas).cells@[index_of(
                            Point { x: m.point.x, y: (m.point.y * 2) as u8 },
                        )],
                    );
                    let in_range = m.point.x < 255 && m.point.y <= 127;
                    &&& (m.kind == EventKind::Release(MouseButton::Left) && in_range
                        ==> after.left_color == shown)
                    &&& (m.kind == EventKind::Release(MouseButton::Right) && in_range
                        ==> after.right_color == shown)
                },
                _ => after.left_color == before.left_color && after.right_color
                    == before.right_color,
            }
        }),
    {
        if let Event::Mouse(MouseEvent { kind, point }) = event {
            if point.x < 255 && point.y <= 127 {
                let (cell, color) = get_cell_and_color(canvas, *point);
                proof {
                    assert(crate::canvas::wf_cell(
                        canvas.cells@,
                        index_of(Point { x: point.x, y: (point.y * 2) as u8 }),
                    ));
                }
                match kind {
                    EventKind::Release(mouse_button) => {
                        match mouse_button {
                            MouseButton::Left => {
                                state.left_color = color;
                            },
                            MouseButton::Right => {
                                state.right_color = color;
                            },
                            MouseButton::Middle => {},
                        }
                        term.flush();
                        true
                    },
                    _ => {
                        draw_indicator(term, canvas, *point, &cell, color);
                        false
                    },
                }
            } else {
                matches!(kind, EventKind::Release(_))
            }
        } else {
            false
        }
    }

/// The picker's whole interaction over a run of already-read events: the
/// indicator is drawn at the initial pointer position, then each event is
/// handled until a button release ends the picking. Returns how many events
/// were consumed.
pub fn handle_events(
    term: &mut Terminal,
    canvas: &mut Canvas,
    state: &mut crate::event::State,
    initial_point: Point,
    events: &Vec<Event>,
) -> (consumed: usize)
    requires
        old(canvas).wf(),
    ensures
        final(canvas).wf(),
        final(canvas).size == old(canvas).size,
        extends(*old(term), *final(term)),
        final(term).size == old(term).size,
        consumed <= events@.len(),
{
    if initial_point.x < 255 && initial_point.y <= 127 {
        let (cell, color) = get_cell_and_color(canvas, initial_point);
        proof {
            assert(crate::canvas::wf_cell(
                canvas.cells@,
                index_of(Point { x: initial_point.x, y: (initial_point.y * 2) as u8 }),
            ));
        }
        draw_indicator(term, canvas, initial_point, &cell, color);
    }
    let mut i: usize = 0;
    while i < events.len()
        invariant
            i <= events@.len(),
            canvas.wf(),
            canvas.size == old(canvas).size,
            extends(*old(term), *term),
            term.size == old(term).size,
        decreases events@.len() - i,
    {
        let done = handle_event(&events[i], term, canvas, state);
        i = i + 1;
        if done {
            return i;
        }
    }
    i
}

} // verus!
