use crate::palette;
use crate::terminal::{extends, lemma_extends_trans, Terminal, SIZE};
use crate::util::{is_digit, Point};
use vstd::prelude::*;

verus! {

/// ASCII alphanumeric characters: what counts as part of a word in the
/// entry field.
pub open spec fn is_alnum(c: char) -> bool {
    is_digit(c) || (65 <= c as u32 <= 90) || (97 <= c as u32 <= 122)
}

fn is_alnum_char(c: char) -> (r: bool)
    ensures
        r == is_alnum(c),
{
    let u = c as u32;
    (48 <= u && u <= 57) || (65 <= u && u <= 90) || (97 <= u && u <= 122)
}

/// The text with its trailing non-alphanumeric characters trimmed away:
/// its length.
pub open spec fn trimmed_len(s: Seq<char>) -> int
    decreases s.len(),
{
    if s.len() == 0 {
        0
    } else if is_alnum(s.last()) {
        s.len() as int
    } else {
        trimmed_len(s.drop_last())
    }
}

/// The index of the last non-alphanumeric character, or `-1` if every
/// character is alphanumeric.
pub open spec fn rfind_non_alnum(s: Seq<char>) -> int
    decreases s.len(),
{
    if s.len() == 0 {
        -1
    } else if !is_alnum(s.last()) {
        s.len() - 1
    } else {
        rfind_non_alnum(s.drop_last())
    }
}

/// How many non-alphanumeric characters the text starts with.
pub open spec fn leading_non_alnum(s: Seq<char>) -> int
    decreases s.len(),
{
    if s.len() == 0 {
        0
    } else if is_alnum(s[0]) {
        0
    } else {
        1 + leading_non_alnum(s.drop_first())
    }
}

/// The index of the first non-alphanumeric character, or the length if
/// every character is alphanumeric.
pub open spec fn find_non_alnum(s: Seq<char>) -> int
    decreases s.len(),
{
    if s.len() == 0 {
        0
    } else if !is_alnum(s[0]) {
        0
    } else {
        1 + find_non_alnum(s.drop_first())
    }
}

proof fn lemma_trimmed_len_bounds(s: Seq<char>)
    ensures
        0 <= trimmed_len(s) <= s.len(),
    decreases s.len(),
{
    if s.len() > 0 && !is_alnum(s.last()) {
        lemma_trimmed_len_bounds(s.drop_last());
    }
}

proof fn lemma_rfind_bounds(s: Seq<char>)
    ensures
        -1 <= rfind_non_alnum(s) < s.len(),
    decreases s.len(),
{
    if s.len() > 0 && is_alnum(s.last()) {
        lemma_rfind_bounds(s.drop_last());
    }
}

proof fn lemma_leading_bounds(s: Seq<char>)
    ensures
        0 <= leading_non_alnum(s) <= s.len(),
    decreases s.len(),
{
    if s.len() > 0 && !is_alnum(s[0]) {
        lemma_leading_bounds(s.drop_first());
    }
}

proof fn lemma_find_bounds(s: Seq<char>)
    ensures
        0 <= find_non_alnum(s) <= s.len(),
    decreases s.len(),
{
    if s.len() > 0 && is_alnum(s[0]) {
        lemma_find_bounds(s.drop_first());
    }
}

/// Computes `trimmed_len` of the first `upto` characters.
fn trimmed_len_upto(input: &Vec<char>, upto: usize) -> (t: usize)
    requires
        upto <= input@.len(),
    ensures
        t == trimmed_len(input@.subrange(0, upto as int)),
        t <= upto,
{
    let mut t = upto;
    while t > 0 && !is_alnum_char(input[t - 1])
        invariant
            t <= upto <= input@.len(),
            trimmed_len(input@.subrange(0, upto as int)) == trimmed_len(
                input@.subrange(0, t as int),
            ),
        decreases t,
    {
        proof {
            assert(input@.subrange(0, t as int).last() == input@[t - 1]);
            assert(input@.subrange(0, t as int).drop_last() =~= input@.subrange(0, t - 1));
        }
        t = t - 1;
    }
    proof {
        if t > 0 {
            assert(input@.subrange(0, t as int).last() == input@[t - 1]);
            assert(trimmed_len(input@.subrange(0, t as int)) == t as int);
        } else {
            assert(input@.subrange(0, 0) =~= Seq::<char>::empty());
        }
        lemma_trimmed_len_bounds(input@.subrange(0, upto as int));
    }
    t
}

/// Computes `rfind_non_alnum` of the first `upto` characters; `None` means
/// there is none.
fn rfind_non_alnum_upto(input: &Vec<char>, upto: usize) -> (r: Option<usize>)
    requires
        upto <= input@.len(),
    ensures
        match r {
            Some(i) => i == rfind_non_alnum(input@.subrange(0, upto as int)) && i < upto,
            None => rfind_non_alnum(input@.subrange(0, upto as int)) == -1,
        },
{
    let mut t = upto;
    while t > 0
        invariant
            t <= upto <= input@.len(),
            rfind_non_alnum(input@.subrange(0, upto as int)) == rfind_non_alnum(
                input@.subrange(0, t as int),
            ),
        decreases t,
    {
        if !is_alnum_char(input[t - 1]) {
            proof {
                assert(input@.subrange(0, t as int).last() == input@[t - 1]);
            }
            return Some(t - 1);
        }
        proof {
            assert(input@.subrange(0, t as int).last() == input@[t - 1]);
            assert(input@.subrange(0, t as int).drop_last() =~= input@.subrange(0, t - 1));
        }
        t = t - 1;
    }
    proof {
        assert(input@.subrange(0, 0) =~= Seq::<char>::empty());
    }
    None
}

/// The text field used for typing color values: its position on screen, the
/// typed characters, the column its text is centered on, and the cursor
/// offset inside the text.
#[derive(Clone, Debug)]
pub struct Field {
    pub point: Point,
    pub input: Vec<char>,
    pub x_center: SIZE,
    pub cursor_x: SIZE,
}

/// The column a field's text centers on for a given anchor and text length.
pub open spec fn x_center_spec(x: int, input_len: int) -> int {
    x + palette::WIDTH / 2 - (input_len as u8) / 2
}

impl Field {
    /// The cursor stays inside the text, the text fits the entry width, and
    /// the field sits far enough left that centering fits the coordinate
    /// range.
    pub open spec fn wf(self) -> bool {
        &&& self.cursor_x <= self.input@.len()
        &&& self.input@.len() <= palette::INPUT_FIELD_WIDTH
        &&& self.point.x + palette::WIDTH / 2 <= 255
        &&& self.point.x + 1 <= self.x_center <= self.point.x + palette::WIDTH / 2
    }

    pub open spec fn input_view(self) -> Seq<char> {
        self.input@
    }

    pub open spec fn point_spec(self) -> Point {
        self.point
    }

    pub fn new(point: Point, string: String) -> (f: Field)
        requires
            string@.len() <= palette::INPUT_FIELD_WIDTH,
            point.x + palette::WIDTH / 2 <= 255,
        ensures
            f.wf(),
            f.input_view() == string@,
            f.point_spec() == point,
            f.cursor_x == string@.len(),
            f.x_center == x_center_spec(point.x as int, 0),
    {
        let chars = crate::util::str_chars(string.as_str());
        let cursor_x = chars.len() as SIZE;
        Field { x_center: Self::x_center(point.x, 0), point, cursor_x, input: chars }
    }

    pub fn point(&self) -> (p: &Point)
        ensures
            *p == self.point_spec(),
    {
        &self.point
    }

    pub fn set_point(&mut self, point: Point)
        requires
            old(self).wf(),
            point.x + palette::WIDTH / 2 <= 255,
        ensures
            final(self).wf(),
            final(self).point_spec() == point,
            final(self).input_view() == old(self).input_view(),
            final(self).cursor_x == old(self).cursor_x,
            final(self).x_center == x_center_spec(point.x as int, 0),
    {
        self.point = point;
        self.x_center = Self::x_center(point.x, 0);
    }

    /// The column the field's text centers on.
    pub fn x_center(x: SIZE, input_len: usize) -> (r: SIZE)
        requires
            x + palette::WIDTH / 2 <= 255,
            (input_len as u8) / 2 <= x + palette::WIDTH / 2,
        ensures
            r == x_center_spec(x as int, input_len as int),
    {
        x + palette::WIDTH / 2 - (#[verifier::truncate] (input_len as u8)) / 2
    }

    /// The typed characters.
    pub fn input(&self) -> (r: &Vec<char>)
        ensures
            r@ == self.input_view(),
    {
        &self.input
    }

    /// Queues a repaint of the field: a blank strip, then the text at its
    /// centered position.
    pub fn redraw(&self, term: &mut Terminal)
        requires
            self.wf(),
        ensures
            extends(*old(term), *final(term)),
    {
        term.set_cursor(self.point);
        let ghost term0 = *term;
        term.write("                        ");
        let ghost term1 = *term;
        proof {
            lemma_extends_trans(*old(term), term0, term1);
        }
        term.set_cursor(Point { x: self.x_center - 1, y: self.point.y });
        let ghost term2 = *term;
        proof {
            lemma_extends_trans(*old(term), term1, term2);
        }
        let mut i: usize = 0;
        while i < self.input.len()
            invariant
                self.wf(),
                extends(*old(term), *term),
            decreases self.input.len() - i,
        {
            let ghost term_pre = *term;
            term.write_char(self.input[i]);
            proof {
                lemma_extends_trans(*old(term), term_pre, *term);
            }
            i = i + 1;
        }
    }

    /// Re-centers the text after a change.
    pub fn update(&mut self)
        requires
            old(self).wf(),
        ensures
            final(self).wf(),
            final(self).input_view() == old(self).input_view(),
            final(self).point_spec() == old(self).point_spec(),
            final(self).cursor_x == old(self).cursor_x,
            final(self).x_center == x_center_spec(
                old(self).point_spec().x as int,
                old(self).input_view().len() as int,
            ),
    {
        self.x_center = Self::x_center(self.point.x, self.input.len());
    }

    /// Empties the field.
    pub fn clear(&mut self)
        requires
            old(self).wf(),
        ensures
            final(self).wf(),
            final(self).input_view() == Seq::<char>::empty(),
            final(self).point_spec() == old(self).point_spec(),
            final(self).cursor_x == 0,
            final(self).x_center == x_center_spec(old(self).point_spec().x as int, 0),
    {
        self.input = Vec::new();
        self.cursor_x = 0;
        self.update();
    }

    /// Deletes from the last word's start (ignoring trailing separators) to
    /// the end. With no word boundary left, the whole text goes. When the
    /// deletion would reach left of the cursor the edit is aborted rather
    /// than moving the cursor before the field.
    pub fn remove_word_to_left_of_cursor(&mut self)
        requires
            old(self).wf(),
        ensures
            final(self).wf(),
            final(self).point_spec() == old(self).point_spec(),
            ({
                let idx = rfind_non_alnum(
                    old(self).input_view().subrange(
                        0,
                        trimmed_len(old(self).input_view()),
                    ),
                );
                if idx >= 0 && old(self).cursor_x >= old(self).input_view().len() - idx {
                    final(self).input_view() == old(self).input_view().subrange(0, idx)
                        && final(self).cursor_x == old(self).cursor_x - (old(
                        self,
                    ).input_view().len() - idx)
                } else if idx >= 0 {
                    final(self).input_view() == old(self).input_view() && final(self).cursor_x
                        == old(self).cursor_x
                } else {
                    final(self).input_view() == Seq::<char>::empty() && final(self).cursor_x == 0
                }
            }),
    {
        let t = trimmed_len_upto(&self.input, self.input.len());
        proof {
            assert(self.input@.subrange(0, self.input@.len() as int) =~= self.input@);
            lemma_rfind_bounds(self.input@.subrange(0, t as int));
        }
        match rfind_non_alnum_upto(&self.input, t) {
            Some(space_index) => {
                let cut_off_length = self.input.len() - space_index;
                if (self.cursor_x as usize) >= cut_off_length {
                    self.input.truncate(space_index);
                    self.cursor_x = self.cursor_x - cut_off_length as SIZE;
                    proof {
                        assert(self.input@ =~= old(self).input@.subrange(
                            0,
                            space_index as int,
                        ));
                    }
                }
            },
            None => {
                self.input = Vec::new();
                self.cursor_x = 0;
            },
        }
        self.update();
    }

    /// Moves the cursor to the start of the word left of it (ignoring the
    /// separators right before it).
    pub fn move_cursor_to_word_to_left(&mut self)
        requires
            old(self).wf(),
        ensures
            final(self).wf(),
            final(self).input_view() == old(self).input_view(),
            final(self).point_spec() == old(self).point_spec(),
            ({
                let upto = old(self).input_view().subrange(0, old(self).cursor_x as int);
                let idx = rfind_non_alnum(upto.subrange(0, trimmed_len(upto)));
                final(self).cursor_x == (if idx >= 0 {
                    idx
                } else {
                    0
                })
            }),
    {
        let t = trimmed_len_upto(&self.input, self.cursor_x as usize);
        proof {
            let upto = self.input@.subrange(0, self.cursor_x as int);
            assert(upto.subrange(0, trimmed_len(upto)) =~= self.input@.subrange(
                0,
                trimmed_len(upto),
            ));
            assert(upto.subrange(0, upto.len() as int) =~= upto);
            lemma_trimmed_len_bounds(upto);
            lemma_rfind_bounds(upto.subrange(0, trimmed_len(upto)));
        }
        match rfind_non_alnum_upto(&self.input, t) {
            Some(space_index) => {
                self.cursor_x = space_index as SIZE;
            },
            None => {
                self.cursor_x = 0;
            },
        }
        self.update();
    }

    /// Moves the cursor to the end of the word right of it. The landing
    /// index is counted from the start of the trimmed tail, not from the
    /// start of the field.
    pub fn move_cursor_to_word_to_right(&mut self)
        requires
            old(self).wf(),
        ensures
            final(self).wf(),
            final(self).input_view() == old(self).input_view(),
            final(self).point_spec() == old(self).point_spec(),
            ({
                let tail = old(self).input_view().subrange(
                    old(self).cursor_x as int,
                    old(self).input_view().len() as int,
                );
                let skipped = tail.subrange(leading_non_alnum(tail), tail.len() as int);
                final(self).cursor_x == (if find_non_alnum(skipped) < skipped.len() {
                    find_non_alnum(skipped)
                } else {
                    old(self).input_view().len() as int
                })
            }),
    {
        let ghost tail = self.input@.subrange(self.cursor_x as int, self.input@.len() as int);
        proof {
            lemma_leading_bounds(tail);
        }
        // skip the separators right of the cursor
        let mut skip: usize = self.cursor_x as usize;
        while skip < self.input.len() && !is_alnum_char(self.input[skip])
            invariant
                self.cursor_x <= skip <= self.input@.len(),
                tail == self.input@.subrange(self.cursor_x as int, self.input@.len() as int),
                leading_non_alnum(tail) == skip - self.cursor_x + leading_non_alnum(
                    self.input@.subrange(skip as int, self.input@.len() as int),
                ),
            decreases self.input@.len() - skip,
        {
            proof {
                let rest = self.input@.subrange(skip as int, self.input@.len() as int);
                assert(rest[0] == self.input@[skip as int]);
                assert(rest.drop_first() =~= self.input@.subrange(
                    skip + 1,
                    self.input@.len() as int,
                ));
            }
            skip = skip + 1;
        }
        proof {
            let rest = self.input@.subrange(skip as int, self.input@.len() as int);
            if skip < self.input@.len() {
                assert(rest[0] == self.input@[skip as int]);
            }
            assert(leading_non_alnum(rest) == 0);
            assert(leading_non_alnum(tail) == skip - self.cursor_x);
        }
        let ghost skipped = tail.subrange(leading_non_alnum(tail), tail.len() as int);
        proof {
            assert(skipped =~= self.input@.subrange(skip as int, self.input@.len() as int));
        }
        // find the next separator inside the word
        let mut pos: usize = skip;
        while pos < self.input.len() && is_alnum_char(self.input[pos])
            invariant
                skip <= pos <= self.input@.len(),
                skipped == self.input@.subrange(skip as int, self.input@.len() as int),
                find_non_alnum(skipped) == pos - skip + find_non_alnum(
                    self.input@.subrange(pos as int, self.input@.len() as int),
                ),
            decreases self.input@.len() - pos,
        {
            proof {
                let rest = self.input@.subrange(pos as int, self.input@.len() as int);
                assert(rest[0] == self.input@[pos as int]);
                assert(rest.drop_first() =~= self.input@.subrange(
                    pos + 1,
                    self.input@.len() as int,
                ));
            }
            pos = pos + 1;
        }
        proof {
            let rest = self.input@.subrange(pos as int, self.input@.len() as int);
            if pos < self.input@.len() {
                assert(rest[0] == self.input@[pos as int]);
            }
            assert(find_non_alnum(rest) == (if pos < self.input@.len() {
                0int
            } else {
                0int
            }));
        }
        if pos < self.input.len() {
            // landed on a separator: its index inside the trimmed tail
            self.cursor_x = (pos - skip) as SIZE;
        } else {
            self.cursor_x = self.input.len() as SIZE;
        }
        self.update();
    }

    /// Deletes the character at the cursor (or the last one when the cursor
    /// sits at the end) and steps the cursor back; a no-op at the start.
    pub fn remove_char(&mut self)
        requires
            old(self).wf(),
        ensures
            final(self).wf(),
            final(self).point_spec() == old(self).point_spec(),
            old(self).cursor_x == 0 ==> final(self).input_view() == old(self).input_view()
                && final(self).cursor_x == 0,
            old(self).cursor_x != 0 ==> {
                &&& final(self).input_view() == old(self).input_view().remove(
                    if old(self).cursor_x == old(self).input_view().len() {
                        old(self).input_view().len() - 1
                    } else {
                        old(self).cursor_x as int
                    },
                )
                &&& final(self).cursor_x == old(self).cursor_x - 1
            },
    {
        if self.cursor_x != 0 {
            if self.cursor_x as usize == self.input.len() {
                self.input.pop();
                proof {
                    assert(self.input@ =~= old(self).input@.remove(
                        old(self).input@.len() - 1,
                    ));
                }
            } else {
                self.input.remove(self.cursor_x as usize);
            }
            self.cursor_x = self.cursor_x - 1;
            self.update();
        }
    }

    /// Inserts a character at the cursor and steps the cursor forward. The
    /// callers keep the text inside the entry width.
    pub fn write(&mut self, character: char)
        requires
            old(self).wf(),
            old(self).input_view().len() < palette::INPUT_FIELD_WIDTH,
        ensures
            final(self).wf(),
            final(self).point_spec() == old(self).point_spec(),
            final(self).input_view() == old(self).input_view().insert(
                old(self).cursor_x as int,
                character,
            ),
            final(self).cursor_x == old(self).cursor_x + 1,
    {
        self.input.insert(self.cursor_x as usize, character);
        self.cursor_x = self.cursor_x + 1;
        self.update();
    }
}

} // verus!
