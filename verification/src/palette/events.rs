//! Event handling while the palette is open: typing into the color entry
//! field, clicking swatches to bind colors to the mouse buttons, and
//! closing the palette with Tab. The front end reads the events and hands
//! them here one by one.

use crate::input::Field;
use crate::palette;
use crate::palette::colors::{
    draw_left_color, draw_right_color, first_hit, get_color, palette_fits, ClickableColor,
};
use crate::terminal::event::{Event, EventKind, KeyEvent, MouseButton, MouseEvent};
use crate::terminal::{extends, Terminal};
use crate::util::parse_rgb_chars;
use vstd::prelude::*;

verus! {

broadcast use crate::terminal::lemma_extends_trans_auto;

/// Whether an event closes the palette.
pub open spec fn closes_palette(event: Event) -> bool {
    event == Event::Key(KeyEvent::Tab)
}

/// Handles one event while the palette is open. Field input updates the
/// entry field and, when its text parses as a color, records that color as
/// a clickable strip over the field. A mouse release on a swatch binds its
/// color to the released button and repaints that button's indicator.
/// Returns whether the palette is done (Tab).
pub fn handle_event(
    event: &Event,
    term: &mut Terminal,
    clickable_colors: &mut Vec<ClickableColor>,
    state: &mut crate::event::State,
    input_field: &mut Field,
    input_field_clickable_colors: &mut Vec<ClickableColor>,
) -> (done: bool)
    requires
        old(input_field).wf(),
    ensures
        final(input_field).wf(),
        extends(*old(term), *final(term)),
        final(term).size == old(term).size,
        done == closes_palette(*event),
        final(clickable_colors)@ == old(clickable_colors)@,
        final(state).tool == old(state).tool,
        final(state).tool_size == old(state).tool_size,
        (*event matches Event::Mouse(MouseEvent {
            kind: EventKind::Release(_),
            point: _,
        })) ==> final(state).last_point is None,
        ({
            let hit = |p: crate::util::Point| first_hit(old(clickable_colors)@, p, 0);
            match *event {
                Event::Mouse(m) => {
                    &&& ((m.kind == EventKind::Release(MouseButton::Left) && palette_fits(
                        *old(term),
                    ) && hit(m.point) is Some) ==> final(state).left_color == hit(
                        m.point,
                    ).unwrap())
                    &&& ((m.kind == EventKind::Release(MouseButton::Right) && palette_fits(
                        *old(term),
                    ) && hit(m.point) is Some) ==> final(state).right_color == hit(
                        m.point,
                    ).unwrap())
                },
                _ => true,
            }
        }),
{
    if crate::event::input::handle(event, term, input_field) {
        let parsed_color = parse_rgb_chars(input_field.input());
        if let Some(color) = parsed_color {
            let input_field_color = ClickableColor {
                point: *input_field.point(),
                width: palette::INPUT_FIELD_WIDTH,
                color,
            };
            if input_field_clickable_colors.len() == 1 {
                input_field_clickable_colors[0] = input_field_color;
            } else {
                input_field_clickable_colors.push(input_field_color);
            }
            term.set_background_color(color);
            input_field.redraw(term);
            term.flush();
        }
        return false;
    }
    match event {
        Event::Mouse(MouseEvent { kind, point }) => {
            match kind {
                EventKind::Release(button) => {
                    let fits = palette::WIDTH / 2 <= term.size.width / 2 && palette::HEIGHT / 2
                        <= term.size.height / 2;
                    let selected = match get_color(clickable_colors.as_slice(), *point) {
                        Some(color) => Some(color),
                        None => get_color(input_field_clickable_colors.as_slice(), *point),
                    };
                    if let Some(selected_color) = selected {
                        match button {
                            MouseButton::Left => {
                                state.left_color = selected_color;
                                if fits {
                                    draw_left_color(term, selected_color);
                                }
                            },
                            MouseButton::Right => {
                                state.right_color = selected_color;
                                if fits {
                                    draw_right_color(term, selected_color);
                                }
                            },
                            MouseButton::Middle => {},
                        }
                    } else {
                        match button {
                            MouseButton::Left => {
                                if fits {
                                    draw_left_color(term, state.left_color);
                                }
                            },
                            MouseButton::Right => {
                                if fits {
                                    draw_right_color(term, state.right_color);
                                }
                            },
                            MouseButton::Middle => {},
                        }
                    }
                    term.flush();
                    state.last_point = None;
                },
                EventKind::Drag(button) => {
                    if let Some(new_color) = get_color(clickable_colors.as_slice(), *point) {
                        match button {
                            MouseButton::Left => {
                                if palette::WIDTH / 2 <= term.size.width / 2 && palette::HEIGHT
                                    / 2 <= term.size.height / 2 {
                                    draw_left_color(term, new_color);
                                }
                            },
                            MouseButton::Right => {
                                if palette::WIDTH / 2 <= term.size.width / 2 && palette::HEIGHT
                                    / 2 <= term.size.height / 2 {
                                    draw_right_color(term, new_color);
                                }
                            },
                            MouseButton::Middle => {},
                        }
                        term.flush();
                    }
                },
                _ => {},
            }
            false
        },
        Event::Key(key) => {
            match key {
                KeyEvent::Tab => true,
                _ => false,
            }
        },
        Event::Resize(_) => false,
    }
}

/// Handles a run of already-read events while the palette is open, stopping
/// after the event that closes it. Returns how many events were consumed.
pub fn handle(
    events: &Vec<Event>,
    term: &mut Terminal,
    clickable_colors: &mut Vec<ClickableColor>,
    state: &mut crate::event::State,
    input_field: &mut Field,
    input_field_clickable_colors: &mut Vec<ClickableColor>,
) -> (consumed: usize)
    requires
        old(input_field).wf(),
    ensures
        final(input_field).wf(),
        extends(*old(term), *final(term)),
        final(term).size == old(term).size,
        consumed <= events@.len(),
{
    let mut i: usize = 0;
    while i < events.len()
        invariant
            i <= events@.len(),
            input_field.wf(),
            extends(*old(term), *term),
            term.size == old(term).size,
        decreases events@.len() - i,
    {
        let done = handle_event(
            &events[i],
            term,
            clickable_colors,
            state,
            input_field,
            input_field_clickable_colors,
        );
        i = i + 1;
        if done {
            return i;
        }
    }
    i
}

} // verus!
