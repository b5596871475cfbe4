//! Keyboard handling for the text entry fields. Text input is handled
//! event by event, because reading the standard input stream directly would
//! block all other input.

use crate::input::Field;
use crate::palette;
use crate::terminal::event::{Event, EventKind, KeyEvent, KeyModifier, MouseEvent};
use crate::terminal::{extends, Terminal};
use vstd::prelude::*;

verus! {

broadcast use crate::terminal::lemma_extends_trans_auto;

/// Whether an event is one the entry field consumes: a printable key, a
/// deletion, or a cursor movement.
pub open spec fn consumes(event: Event) -> bool {
    match event {
        Event::Key(key) => match key {
            KeyEvent::Char(_, _) => true,
            KeyEvent::Backspace(_) => true,
            KeyEvent::Left(_) => true,
            KeyEvent::Right(_) => true,
            _ => false,
        },
        _ => false,
    }
}

/// Routes one event to the entry field: typing inserts while the field has
/// room, backspace deletes a character or (with control) a word, and the
/// arrow keys move the cursor by a character or (with control) a word.
/// Reports whether the field consumed the event; a mouse release hides the
/// cursor but is left for the palette handler as well.
pub fn handle(event: &Event, term: &mut Terminal, input_field: &mut Field) -> (r: bool)
    requires
        old(input_field).wf(),
    ensures
        final(input_field).wf(),
        final(input_field).point_spec() == old(input_field).point_spec(),
        extends(*old(term), *final(term)),
        final(term).size == old(term).size,
        r == consumes(*event),
        ({
            let before = *old(input_field);
            let after = *final(input_field);
            match *event {
                Event::Key(KeyEvent::Char(c, _)) => {
                    if before.input_view().len() < palette::INPUT_FIELD_WIDTH {
                        after.input_view() == before.input_view().insert(
                            before.cursor_x as int,
                            c,
                        )
                    } else {
                        after.input_view() == before.input_view()
                    }
                },
                Event::Key(KeyEvent::Left(m)) => after.input_view() == before.input_view() && (
                m is None && before.cursor_x != 0 ==> after.cursor_x == before.cursor_x - 1),
                Event::Key(KeyEvent::Right(m)) => after.input_view() == before.input_view() && (
                m is None && before.cursor_x < before.input_view().len() ==> after.cursor_x
                    == before.cursor_x + 1),
                Event::Key(KeyEvent::Backspace(m)) => (m is None ==> {
                    if before.cursor_x == 0 {
                        after.input_view() == before.input_view()
                    } else {
                        after.input_view() == before.input_view().remove(
                            if before.cursor_x == before.input_view().len() {
                                before.input_view().len() - 1
                            } else {
                                before.cursor_x as int
                            },
                        )
                    }
                }),
                _ => after.input_view() == before.input_view() && after.cursor_x
                    == before.cursor_x,
            }
        }),
{
    match event {
        Event::Key(key) => {
            match key {
                KeyEvent::Char(character, _) => {
                    if input_field.input().len() != palette::INPUT_FIELD_WIDTH as usize {
                        input_field.write(*character);
                        input_field.redraw(term);
                        term.show_cursor();
                        term.flush();
                    }
                    true
                },
                KeyEvent::Backspace(modifier) => {
                    if let Some(KeyModifier::Control) = modifier {
                        input_field.remove_word_to_left_of_cursor();
                    } else {
                        input_field.remove_char();
                    }
                    input_field.redraw(term);
                    term.show_cursor();
                    term.flush();
                    true
                },
                KeyEvent::Left(modifier) => {
                    if let Some(KeyModifier::Control) = modifier {
                        input_field.move_cursor_to_word_to_left();
                        input_field.redraw(term);
                    } else if input_field.cursor_x != 0 {
                        term.move_cursor_left(1);
                        input_field.cursor_x = input_field.cursor_x - 1;
                    }
                    term.show_cursor();
                    term.flush();
                    true
                },
                KeyEvent::Right(modifier) => {
                    if let Some(KeyModifier::Control) = modifier {
                        input_field.move_cursor_to_word_to_right();
                        input_field.redraw(term);
                    } else if (input_field.cursor_x as usize) != input_field.input().len() {
                        term.move_cursor_right(1);
                        input_field.cursor_x = input_field.cursor_x + 1;
                    }
                    term.show_cursor();
                    term.flush();
                    true
                },
                _ => false,
            }
        },
        Event::Mouse(MouseEvent { kind, point: _ }) => {
            match kind {
                EventKind::Release(_) => {
                    term.hide_cursor();
                    // the palette handler needs to see this event as well
                    false
                },
                _ => false,
            }
        },
        _ => false,
    }
}

} // verus!
