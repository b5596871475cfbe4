//! Event dispatch: one editing session holds the canvases, the tool state
//! and the undo/redo log, and reacts to one input event at a time. The
//! front end owns the blocking reads: it hands each decoded event to
//! [`Session::step`] and performs the terminal commands that come back.

use crate::canvas::tools::Tool;
use crate::canvas::Canvas;
use crate::event::undo_redo::{check_op_ok, op_draw_cells, op_ok, Operation, UndoRedoBuffer};
use crate::input::Field;
use crate::palette;
use crate::palette::colors::{palette_fits, ClickableColor};
use crate::terminal::event::{Event, EventKind, KeyEvent, KeyModifier, MouseButton, MouseEvent};
use crate::terminal::{Terminal, SIZE};
use crate::util::{Color, Point, Size};
use vstd::prelude::*;
use vstd::string::StrSliceExecFns;

pub mod color_picker;
pub mod input;
pub mod undo_redo;

verus! {

broadcast use crate::terminal::lemma_extends_trans_auto, crate::terminal::lemma_prefix_trans_auto;

/// Everything the event dispatch carries between events: the previous drag
/// sample, the colors bound to the two mouse buttons, the color typed into
/// the palette's entry field, and the active tool with its size.
#[derive(Clone)]
pub struct State {
    pub last_point: Option<Point>,
    pub left_color: Color,
    pub right_color: Color,
    pub input_field_color: Option<Color>,
    pub tool: Tool,
    pub tool_size: SIZE,
}

impl Default for State {
    fn default() -> (s: State)
        ensures
            s.last_point is None,
            s.left_color == Color::Black,
            s.right_color == Color::Black,
            s.input_field_color is None,
            s.tool == Tool::Brush,
            s.tool_size == 0,
    {
        State {
            last_point: None,
            left_color: Color::Black,
            right_color: Color::Black,
            input_field_color: None,
            tool: Tool::Brush,
            tool_size: 0,
        }
    }
}

/// What kind of interaction currently receives the events: ordinary
/// drawing, the open palette, the canvas color picker, or the save dialog's
/// text field.
#[derive(Clone, Copy, Debug, PartialEq, Eq, Structural)]
pub enum Mode {
    Normal,
    Palette,
    ColorPicker,
    Save,
}

/// Whether an event ends the session in normal mode.
pub open spec fn is_exit_event(event: Event) -> bool {
    match event {
        Event::Key(key) => match key {
            KeyEvent::Esc => true,
            KeyEvent::Char(c, m) => c == 'c' && m == Some(KeyModifier::Control),
            _ => false,
        },
        _ => false,
    }
}

/// The mouse button behind a stroke event: a drag or a press paints.
pub open spec fn stroke_button(kind: EventKind) -> Option<MouseButton> {
    match kind {
        EventKind::Drag(b) => Some(b),
        EventKind::Press(b) => Some(b),
        _ => None,
    }
}

/// The drawing color a button selects; the middle button paints nothing.
pub open spec fn press_color(state: State, button: MouseButton) -> Option<Color> {
    match button {
        MouseButton::Left => Some(state.left_color),
        MouseButton::Right => Some(state.right_color),
        MouseButton::Middle => None,
    }
}

/// The operation one stroke sample at pointer position `p` records: the
/// pointer's row is doubled into half-block space, and the previous sample
/// becomes the interpolation anchor.
pub open spec fn stroke_op(state: State, p: Point, color: Color) -> Operation {
    Operation {
        tool: state.tool,
        start: Point { x: p.x, y: (p.y * 2) as SIZE },
        end: state.last_point,
        color,
        size: state.tool_size,
    }
}

fn help_line(index: u8) -> (r: &'static str)
    requires
        index < 7,
{
    if index == 0 {
        "* Draw pixels using the left and right mouse buttons"
    } else if index == 1 {
        "* Toggle the palette using Tab and select colors with the left and right mouse buttons"
    } else if index == 2 {
        "* Use the mouse wheel to adjust brush size"
    } else if index == 3 {
        "* Use number keys 1-4 to change tool: 1 = brush, 2 = quill, 3 = rectangle, 4 = fill bucket"
    } else if index == 4 {
        "* Ctrl+Z to undo, Ctrl+Y to redo last action"
    } else if index == 5 {
        "* Pick a color from pixels on the canvas using the middle mouse button"
    } else {
        "* Press Escape to exit, and H to toggle this help text"
    }
}

/// One editing session: the image canvas, a second canvas for overlays, the
/// palette's clickable swatches and entry field, the undo/redo log, the
/// tool state, and which interaction currently receives events.
pub struct Session {
    pub primary_canvas: Canvas,
    pub secondary_canvas: Canvas,
    pub save_input_field: Option<Field>,
    pub clickable_colors: Vec<ClickableColor>,
    pub undo_redo_buffer: UndoRedoBuffer,
    pub palette_input_field: Field,
    pub palette_input_field_clickable_colors: Vec<ClickableColor>,
    pub state: State,
    pub show_help: bool,
    pub mode: Mode,
}

impl Session {
    pub open spec fn wf(self) -> bool {
        &&& self.primary_canvas.wf()
        &&& self.secondary_canvas.wf()
        &&& self.undo_redo_buffer.wf()
        &&& self.palette_input_field.wf()
        &&& (self.save_input_field matches Some(f) ==> f.wf())
    }

    pub fn new() -> (s: Session)
        ensures
            s.wf(),
            s.mode == Mode::Normal,
            s.state.tool == Tool::Brush,
            s.state.tool_size == 1,
            s.state.left_color == Color::White,
            s.state.last_point is None,
            s.undo_redo_buffer.buffer@ == Seq::<Operation>::empty(),
            s.undo_redo_buffer.cursor == 0,
            s.show_help,
    {
        let mut state = State::default();
        state.left_color = Color::White;
        state.tool_size = 1;
        Session {
            primary_canvas: Canvas::new(),
            secondary_canvas: Canvas::new(),
            save_input_field: None,
            clickable_colors: Vec::new(),
            undo_redo_buffer: UndoRedoBuffer::new(),
            // the point is re-set every time the palette is opened
            palette_input_field: Field::new(Point { x: 0, y: 0 }, String::new()),
            palette_input_field_clickable_colors: Vec::new(),
            state,
            show_help: true,
            mode: Mode::Normal,
        }
    }

    /// Restores the drawing screen when the palette closes.
    fn close_palette(&mut self, term: &mut Terminal)
        requires
            old(self).wf(),
        ensures
            final(self).wf(),
            final(self).mode == Mode::Normal,
            final(self).primary_canvas.cells@ == old(self).primary_canvas.cells@,
            final(self).undo_redo_buffer == old(self).undo_redo_buffer,
            final(self).state == old(self).state,
            old(term).commands@.is_prefix_of(final(term).commands@),
            final(term).size == old(term).size,
    {
        term.reset_colors();
        term.clear();
        self.primary_canvas.redraw(term);
        self.clickable_colors = Vec::new();
        term.hide_cursor();
        term.flush();
        self.mode = Mode::Normal;
    }

    /// Reacts to one event in normal drawing mode. Strokes paint through
    /// the active tool and are recorded for undo; number keys pick the
    /// tool; the mouse wheel resizes it; Tab opens the palette; a middle
    /// release starts the color picker; a resize re-fits and repaints
    /// everything. Returns whether the session goes on. A stroke that would
    /// leave the grid, or arrive with a full history, is abandoned rather
    /// than clipped.
    fn handle_normal(&mut self, term: &mut Terminal, event: &Event) -> (r: bool)
        requires
            old(self).wf(),
            old(self).mode == Mode::Normal,
        ensures
            final(self).wf(),
            old(term).commands@.is_prefix_of(final(term).commands@),
            r == !is_exit_event(*event),
            ({
                let before = *old(self);
                let after = *final(self);
                match *event {
                    Event::Mouse(m) => {
                        let button = stroke_button(m.kind);
                        let chosen = if button is Some {
                            press_color(before.state, button.unwrap())
                        } else {
                            None
                        };
                        let op = stroke_op(before.state, m.point, chosen.unwrap());
                        &&& ((button is Some && chosen is Some && m.point.y <= 127 && m.point.x
                            < 255 && op_ok(op, before.primary_canvas.size)
                            && before.undo_redo_buffer.cursor < usize::MAX) ==> {
                            &&& after.primary_canvas.cells@ == op_draw_cells(
                                op,
                                before.primary_canvas.cells@,
                                before.primary_canvas.size,
                            )
                            &&& after.undo_redo_buffer.buffer@
                                == before.undo_redo_buffer.buffer@.subrange(
                                0,
                                before.undo_redo_buffer.cursor as int,
                            ).push(op)
                            &&& after.undo_redo_buffer.cursor == before.undo_redo_buffer.cursor
                                + 1
                            &&& after.state.last_point == Some(op.start)
                        })
                        &&& (m.kind == EventKind::ScrollUp && before.state.tool_size < 255
                            ==> after.state.tool_size == before.state.tool_size + 1)
                        &&& (m.kind == EventKind::ScrollDown && before.state.tool_size > 1
                            ==> after.state.tool_size == before.state.tool_size - 1)
                        &&& (m.kind == EventKind::Release(MouseButton::Middle)
                            ==> after.mode == Mode::ColorPicker)
                    },
                    Event::Key(KeyEvent::Char(c, m2)) => {
                        &&& (c == '1' ==> after.state.tool == Tool::Brush)
                        &&& (c == '2' ==> after.state.tool == Tool::Quill)
                        &&& (c == '3' ==> after.state.tool == Tool::Rectangle)
                        &&& (c == '4' ==> after.state.tool == Tool::Bucket)
                    },
                    Event::Key(KeyEvent::Tab) => after.mode == (if palette_fits(*old(term)) {
                        Mode::Palette
                    } else {
                        Mode::Normal
                    }),
                    Event::Resize(new_size) => {
                        &&& final(term).size == new_size
                        &&& after.primary_canvas.size == new_size
                        &&& after.secondary_canvas.size == new_size
                    },
                    _ => true,
                }
            }),
    {
        if self.show_help {
            let mut i: u8 = 0;
            while i < 7
                invariant
                    i <= 7,
                    old(term).commands@.is_prefix_of(term.commands@),
                    term.size == old(term).size,
                decreases 7 - i,
            {
                term.set_cursor(Point { x: 1, y: 1 + i });
                term.write(help_line(i));
                i = i + 1;
            }
        }

        if undo_redo::handle(event, term, &mut self.primary_canvas, &mut self.undo_redo_buffer) {
            return true;
        }

        match *event {
            Event::Mouse(MouseEvent { kind, point }) => {
                match kind {
                    EventKind::Drag(button) | EventKind::Press(button) => {
                        let color = match button {
                            MouseButton::Left => self.state.left_color,
                            MouseButton::Right => self.state.right_color,
                            MouseButton::Middle => {
                                return true;
                            },
                        };
                        if point.y <= 127 && point.x < 255 {
                            let draw_point = Point { x: point.x, y: point.y * 2 };
                            let operation = Operation {
                                tool: self.state.tool,
                                start: draw_point,
                                end: self.state.last_point,
                                color,
                                size: self.state.tool_size,
                            };
                            if check_op_ok(&operation, self.primary_canvas.size)
                                && self.undo_redo_buffer.cursor < usize::MAX {
                                let tool = self.state.tool;
                                tool.draw(
                                    &mut self.primary_canvas,
                                    term,
                                    draw_point,
                                    self.state.last_point,
                                    color,
                                    self.state.tool_size,
                                );
                                self.undo_redo_buffer.push(operation);
                                self.state.last_point = Some(draw_point);
                                term.flush();
                            }
                        }
                    },
                    EventKind::Release(MouseButton::Middle) => {
                        if point.x < 255 && point.y <= 127 {
                            let (cell, color) = color_picker::get_cell_and_color(
                                &mut self.primary_canvas,
                                point,
                            );
                            proof {
                                assert(crate::canvas::wf_cell(
                                    self.primary_canvas.cells@,
                                    crate::canvas::index_of(
                                        Point { x: point.x, y: (point.y * 2) as u8 },
                                    ),
                                ));
                            }
                            color_picker::draw_indicator(
                                term,
                                &mut self.primary_canvas,
                                point,
                                &cell,
                                color,
                            );
                        }
                        self.mode = Mode::ColorPicker;
                    },
                    EventKind::ScrollUp => {
                        if self.state.tool_size < 255 {
                            self.state.tool_size = self.state.tool_size + 1;
                        }
                    },
                    EventKind::ScrollDown => {
                        if self.state.tool_size > 1 {
                            self.state.tool_size = self.state.tool_size - 1;
                        }
                    },
                    EventKind::Move => {},
                    _ => {
                        self.state.last_point = None;
                    },
                }
            },
            Event::Key(key) => {
                match key {
                    KeyEvent::Tab => {
                        if palette::WIDTH / 2 <= term.size.width / 2 && palette::HEIGHT / 2
                            <= term.size.height / 2 {
                            let mut palette_input_field_point = palette::colors::draw(
                                term,
                                &mut self.clickable_colors,
                                &self.state,
                            );
                            palette_input_field_point.x = palette_input_field_point.x + 1;
                            self.palette_input_field.set_point(palette_input_field_point);
                            if self.palette_input_field_clickable_colors.len() > 0 {
                                let remembered =
                                    self.palette_input_field_clickable_colors[0].color;
                                term.set_background_color(remembered);
                                if self.palette_input_field.input().len() < 24 {
                                    self.palette_input_field.write(' ');
                                    self.palette_input_field.remove_char();
                                }
                                self.palette_input_field.redraw(term);
                                self.palette_input_field.update();
                            }
                            term.flush();
                            self.mode = Mode::Palette;
                        }
                    },
                    KeyEvent::Char(character, modifier) => {
                        let is_control = if let Some(KeyModifier::Control) = modifier {
                            true
                        } else {
                            false
                        };
                        if character == 'c' && is_control {
                            proof {
                                assert(character == 'c');
                                assert(modifier == Some(KeyModifier::Control));
                                assert(key == KeyEvent::Char('c', Some(KeyModifier::Control)));
                                assert(*event == Event::Key(key));
                                assert(is_exit_event(*event));
                            }
                            return false;
                        } else if character == '1' {
                            self.state.tool = Tool::Brush;
                        } else if character == '2' {
                            self.state.tool = Tool::Quill;
                        } else if character == '3' {
                            self.state.tool = Tool::Rectangle;
                        } else if character == '4' {
                            self.state.tool = Tool::Bucket;
                        } else if character == 's' && is_control {
                            if matches!(self.save_input_field, None) {
                                if 10 <= term.size.width / 2 && 3 <= term.size.height / 2 {
                                    let dialog = Size { width: 20, height: 6 };
                                    let border_point = term.get_centered_border_point(&dialog);
                                    self.secondary_canvas.hollow_rectangle(
                                        term,
                                        border_point,
                                        dialog,
                                        Color::White,
                                    );
                                    term.flush();
                                    let input_field = Field::new(
                                        Point { x: border_point.x + 1, y: border_point.y + 1 },
                                        String::new(),
                                    );
                                    self.save_input_field = Some(input_field);
                                    self.mode = Mode::Save;
                                }
                            }
                        } else if character == 'h' || character == 'H' {
                            self.show_help = !self.show_help;
                            if !self.show_help {
                                let mut i: u8 = 0;
                                while i < 7
                                    invariant
                                        i <= 7,
                                        old(term).commands@.is_prefix_of(term.commands@),
                                        term.size == old(term).size,
                                    decreases 7 - i,
                                {
                                    term.set_cursor(Point { x: 1, y: 1 + i });
                                    let line = help_line(i);
                                    let mut j: usize = 0;
                                    let line_len = line.unicode_len();
                                    while j < line_len
                                        invariant
                                            old(term).commands@.is_prefix_of(term.commands@),
                                            term.size == old(term).size,
                                        decreases line_len - j,
                                    {
                                        term.write(" ");
                                        j = j + 1;
                                    }
                                    i = i + 1;
                                }
                                term.flush();
                            }
                        }
                    },
                    KeyEvent::Esc => {
                        return false;
                    },
                    _ => {},
                }
            },
            Event::Resize(new_size) => {
                term.size = new_size;
                self.primary_canvas.resize_terminal(new_size);
                self.secondary_canvas.resize_terminal(new_size);
                term.clear();
                self.primary_canvas.redraw(term);
                term.flush();
            },
        }
        true
    }

    /// Reacts to one input event, whatever interaction is active, and
    /// queues the resulting terminal commands. Returns whether the session
    /// goes on; only Escape or a control-C in normal mode ends it.
    pub fn step(&mut self, term: &mut Terminal, event: &Event) -> (r: bool)
        requires
            old(self).wf(),
        ensures
            final(self).wf(),
            old(term).commands@.is_prefix_of(final(term).commands@),
            r == !(old(self).mode == Mode::Normal && is_exit_event(*event)),
            old(self).mode == Mode::Palette ==> final(self).mode == (
            if crate::palette::events::closes_palette(*event) {
                Mode::Normal
            } else {
                Mode::Palette
            }),
            old(self).mode == Mode::ColorPicker && (*event matches Event::Mouse(MouseEvent {
                kind: EventKind::Release(_),
                ..
            })) ==> final(self).mode == Mode::Normal,
    {
        match self.mode {
            Mode::Normal => self.handle_normal(term, event),
            Mode::Palette => {
                let done = palette::events::handle_event(
                    event,
                    term,
                    &mut self.clickable_colors,
                    &mut self.state,
                    &mut self.palette_input_field,
                    &mut self.palette_input_field_clickable_colors,
                );
                if done {
                    self.close_palette(term);
                }
                true
            },
            Mode::ColorPicker => {
                let done = color_picker::handle_event(
                    event,
                    term,
                    &mut self.primary_canvas,
                    &mut self.state,
                );
                if done {
                    self.mode = Mode::Normal;
                }
                true
            },
            Mode::Save => {
                // saving to disk is stubbed out: the dialog only routes text
                // input, and nothing closes it yet
                match &mut self.save_input_field {
                    Some(field) => {
                        input::handle(event, term, field);
                    },
                    None => {},
                }
                true
            },
        }
    }
}

/// Runs a whole session over a run of already-read events, reacting to each
/// in turn until one ends the session or the run is exhausted. The
/// interactive front end instead calls [`Session::step`] around its own
/// blocking reads.
pub fn main_loop(term: &mut Terminal, events: &Vec<Event>)
    ensures
        old(term).commands@.is_prefix_of(final(term).commands@),
{
    let mut session = Session::new();
    let mut i: usize = 0;
    while i < events.len()
        invariant
            i <= events@.len(),
            session.wf(),
            old(term).commands@.is_prefix_of(term.commands@),
        decreases events@.len() - i,
    {
        let go_on = session.step(term, &events[i]);
        i = i + 1;
        if !go_on {
            return ;
        }
    }
}

} // verus!
