//! Helpers for debugging: printing arbitrary text at a canvas position.

use crate::terminal::{lemma_extends_trans, Terminal};
use crate::util::Point;
use vstd::prelude::*;

verus! {

/// Queues a string at a specific position.
pub fn print(term: &mut Terminal, point: Point, string: &str)
    ensures
        final(term).size == old(term).size,
        final(term).commands@.len() == old(term).commands@.len() + 2,
        old(term).commands@.is_prefix_of(final(term).commands@),
        final(term).commands@[old(term).commands@.len() as int] == crate::terminal::Command::SetCursor(point),
        (final(term).commands@.last() matches crate::terminal::Command::Write(s) && s@
            == string@),
{
    term.set_cursor(point);
    let ghost mid = *term;
    term.write(string);
    proof {
        lemma_extends_trans(*old(term), mid, *term);
        assert(mid.commands@[old(term).commands@.len() as int]
            == crate::terminal::Command::SetCursor(point));
        assert(term.commands@[old(term).commands@.len() as int] == mid.commands@[old(
            term,
        ).commands@.len() as int]);
    }
}

} // verus!
