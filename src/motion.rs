//! Resolution of motions: from a motion and a cursor to the index the motion reaches.
use vstd::prelude::*;
use std::ops::Range;
use crate::buffer::{
    Buffer, CharPred, Direction, first_from, last_before, lemma_first_from, lemma_last_before,
    line_end, line_start, next_line_start, prev_line_start, unwrap_or,
};
use crate::chars::{CharClass, ascii_whitespace, class_for, class_with, is_ascii_whitespace,
    is_word_char, word_char};
use crate::command::{Error, Motion, TextObject};

verus! {

/// Whether resolution gives a range for this text object. The whole line, the paragraph
/// and the repetition of a character search are not supported yet.
pub open spec fn supported(object: TextObject) -> bool {
    !(object is WholeLine || object is Paragraph || object is RepeatNextChar)
}

/// The end of the run of characters of class `k` that starts at `i`.
pub open spec fn run_end(t: Seq<char>, i: int, k: CharClass, big: bool) -> int {
    unwrap_or(first_from(t, i, CharPred::ClassOtherThan(k, big)), t.len() as int)
}

/// The line that motion `j`/`k` lands on starts at `s`; the target column is `col`,
/// held to the length of that line.
pub open spec fn column_on_line(t: Seq<char>, s: int, col: int) -> int {
    let len = line_end(t, s) - s;
    s + if col < len { col } else { len }
}

/// From a word character, to the first character that is not one; from anything else, to
/// the first blank or word character after `p`. A blank reached that way is skipped to the
/// next non-blank.
pub open spec fn word_forward(t: Seq<char>, p: int) -> int {
    let f = if p < t.len() && word_char(t[p]) {
        unwrap_or(first_from(t, p, CharPred::NotWordChar), p)
    } else {
        unwrap_or(first_from(t, p + 1, CharPred::BlankOrWordChar), p)
    };
    if f < t.len() && ascii_whitespace(t[f]) {
        unwrap_or(first_from(t, f, CharPred::NotAsciiBlank), f)
    } else {
        f
    }
}

/// Back over blanks to the nearest non-blank character before `p`, then to the start of
/// its class run. With no character at `p`, the start of the buffer.
pub open spec fn word_backward(t: Seq<char>, p: int) -> int {
    if p >= t.len() {
        0
    } else {
        match last_before(t, p, CharPred::ClassOtherThan(CharClass::Whitespace, false)) {
            None => 0,
            Some(k) => match last_before(t, k, CharPred::ClassOtherThan(class_for(t[k], false), false)) {
                Some(j) => j + 1,
                None => 0,
            },
        }
    }
}

/// To the first blank at or after `p`, then past the blanks that follow.
pub open spec fn big_word_forward(t: Seq<char>, p: int) -> int {
    let blank = unwrap_or(first_from(t, p, CharPred::AsciiBlank), p);
    unwrap_or(first_from(t, blank, CharPred::NotAsciiBlank), blank)
}

/// To the last blank before `p`, then to one past the blank before that, or to the start
/// of the buffer.
pub open spec fn big_word_backward(t: Seq<char>, p: int) -> int {
    let blank = unwrap_or(last_before(t, p, CharPred::AsciiBlank), p);
    match last_before(t, blank, CharPred::AsciiBlank) {
        Some(j) => j + 1,
        None => 0,
    }
}

/// The last character of the class run after `p`: the run that `p` continues, or else the
/// first run after the blanks that follow `p`. With no character at `p`, the start of the
/// buffer.
pub open spec fn end_of_word_forward(t: Seq<char>, p: int, big: bool) -> int {
    if p >= t.len() {
        0
    } else {
        let k = class_for(t[p], big);
        if k != CharClass::Whitespace && p + 1 < t.len() && class_for(t[p + 1], big) == k {
            run_end(t, p + 1, k, big) - 1
        } else {
            let w = run_end(t, p + 1, CharClass::Whitespace, big);
            if w >= t.len() {
                t.len() - 1
            } else {
                run_end(t, w, class_for(t[w], big), big) - 1
            }
        }
    }
}

/// Back over the rest of the class run that holds `p`, then over the blanks before it;
/// the start of the buffer where that leaves nothing.
pub open spec fn end_of_word_backward(t: Seq<char>, p: int, big: bool) -> int {
    if p >= t.len() {
        0
    } else {
        let k = class_for(t[p], big);
        let a = if k != CharClass::Whitespace {
            unwrap_or(last_before(t, p, CharPred::ClassOtherThan(k, big)), -1)
        } else {
            p - 1
        };
        let b = if a < 0 {
            -1
        } else {
            unwrap_or(last_before(t, a + 1, CharPred::ClassOtherThan(CharClass::Whitespace, big)), -1)
        };
        if b < 0 {
            0
        } else {
            b
        }
    }
}

/// The next `c` after `p` (forward) or the last before it (backward); one short of it in
/// the direction of travel when `place_before` holds; `p` itself where there is none.
pub open spec fn next_char(t: Seq<char>, p: int, c: char, place_before: bool, d: Direction) -> int {
    match d {
        Direction::Forward => match first_from(t, p + 1, CharPred::Is(c)) {
            Some(j) => if place_before { j - 1 } else { j },
            None => p,
        },
        Direction::Backward => match last_before(t, p, CharPred::Is(c)) {
            Some(j) => if place_before { j + 1 } else { j },
            None => p,
        },
    }
}

/// Where one application of `object` from `p` lands; `col` is the column that vertical
/// motions keep. Every step stays within `0..=t.len()`: a character step saturates at both
/// ends of the buffer, so that the cursor stays a valid index.
pub open spec fn step(t: Seq<char>, p: int, object: TextObject, col: int) -> int {
    match object {
        TextObject::Char(Direction::Forward) => if p < t.len() { p + 1 } else { p },
        TextObject::Char(Direction::Backward) => if p > 0 { p - 1 } else { 0 },
        TextObject::Line(Direction::Forward) => column_on_line(t, next_line_start(t, p), col),
        TextObject::Line(Direction::Backward) => column_on_line(t, prev_line_start(t, p), col),
        TextObject::StartOfLine => run_end(t, line_start(t, p), CharClass::Whitespace, false),
        TextObject::EndOfLine => if next_line_start(t, p) > 0 { next_line_start(t, p) - 1 } else { 0 },
        TextObject::Word(Direction::Forward) => word_forward(t, p),
        TextObject::Word(Direction::Backward) => word_backward(t, p),
        TextObject::BigWord(Direction::Forward) => big_word_forward(t, p),
        TextObject::BigWord(Direction::Backward) => big_word_backward(t, p),
        TextObject::EndOfWord(Direction::Forward) => end_of_word_forward(t, p, false),
        TextObject::EndOfWord(Direction::Backward) => end_of_word_backward(t, p, false),
        TextObject::EndOfBigWord(Direction::Forward) => end_of_word_forward(t, p, true),
        TextObject::EndOfBigWord(Direction::Backward) => end_of_word_backward(t, p, true),
        TextObject::NextChar { c, place_before, direction } => next_char(t, p, c, place_before, direction),
        _ => p,
    }
}

/// Where `n` applications of `object` from `p` land, each starting where the last ended.
pub open spec fn steps(t: Seq<char>, p: int, object: TextObject, col: int, n: nat) -> int
    decreases n,
{
    if n == 0 {
        p
    } else {
        step(t, steps(t, p, object, col, (n - 1) as nat), object, col)
    }
}

fn or_else(r: Option<usize>, d: usize) -> (x: usize)
    ensures
        x == unwrap_or(crate::buffer::opt_int(r), d as int),
{
    match r {
        Some(j) => j,
        None => d,
    }
}

/// `run_end` on the buffer's text.
fn run_end_at(buf: &Buffer, i: usize, k: CharClass, big: bool) -> (r: usize)
    requires
        i <= buf.text.len(),
    ensures
        r == run_end(buf.text@, i as int, k, big),
        i <= r <= buf.text.len(),
        i < buf.text.len() && class_for(buf.text@[i as int], big) == k ==> r > i,
{
    proof {
        lemma_first_from(buf.text@, i as int, CharPred::ClassOtherThan(k, big));
    }
    or_else(buf.index_of_pred(CharPred::ClassOtherThan(k, big), i), buf.len())
}

fn word_forward_at(buf: &Buffer, p: usize) -> (r: usize)
    requires
        p <= buf.text.len(),
    ensures
        r == word_forward(buf.text@, p as int),
        r <= buf.text.len(),
{
    let ghost t = buf.text@;
    let n = buf.len();
    proof {
        lemma_first_from(t, p as int, CharPred::NotWordChar);
        lemma_first_from(t, p + 1, CharPred::BlankOrWordChar);
    }
    let f = if p < n && is_word_char(buf.text[p]) {
        or_else(buf.index_of_pred(CharPred::NotWordChar, p), p)
    } else if p < n {
        or_else(buf.index_of_pred(CharPred::BlankOrWordChar, p + 1), p)
    } else {
        p
    };
    proof {
        lemma_first_from(t, f as int, CharPred::NotAsciiBlank);
    }
    if f < n && is_ascii_whitespace(buf.text[f]) {
        or_else(buf.index_of_pred(CharPred::NotAsciiBlank, f), f)
    } else {
        f
    }
}

fn word_backward_at(buf: &Buffer, p: usize) -> (r: usize)
    requires
        p <= buf.text.len(),
    ensures
        r == word_backward(buf.text@, p as int),
        r <= buf.text.len(),
{
    let ghost t = buf.text@;
    if p >= buf.len() {
        return 0;
    }
    proof {
        lemma_last_before(t, p as int, CharPred::ClassOtherThan(CharClass::Whitespace, false));
    }
    match buf.last_index_of_pred(CharPred::ClassOtherThan(CharClass::Whitespace, false), p) {
        None => 0,
        Some(k) => {
            let kc = class_with(buf.text[k], false);
            proof {
                lemma_last_before(t, k as int, CharPred::ClassOtherThan(kc, false));
            }
            match buf.last_index_of_pred(CharPred::ClassOtherThan(kc, false), k) {
                Some(j) => j + 1,
                None => 0,
            }
        },
    }
}

fn big_word_forward_at(buf: &Buffer, p: usize) -> (r: usize)
    requires
        p <= buf.text.len(),
    ensures
        r == big_word_forward(buf.text@, p as int),
        r <= buf.text.len(),
{
    proof {
        lemma_first_from(buf.text@, p as int, CharPred::AsciiBlank);
    }
    let blank = or_else(buf.index_of_pred(CharPred::AsciiBlank, p), p);
    proof {
        lemma_first_from(buf.text@, blank as int, CharPred::NotAsciiBlank);
    }
    or_else(buf.index_of_pred(CharPred::NotAsciiBlank, blank), blank)
}

fn big_word_backward_at(buf: &Buffer, p: usize) -> (r: usize)
    requires
        p <= buf.text.len(),
    ensures
        r == big_word_backward(buf.text@, p as int),
        r <= buf.text.len(),
{
    proof {
        lemma_last_before(buf.text@, p as int, CharPred::AsciiBlank);
    }
    let blank = or_else(buf.last_index_of_pred(CharPred::AsciiBlank, p), p);
    proof {
        lemma_last_before(buf.text@, blank as int, CharPred::AsciiBlank);
    }
    match buf.last_index_of_pred(CharPred::AsciiBlank, blank) {
        Some(j) => j + 1,
        None => 0,
    }
}

fn end_of_word_forward_at(buf: &Buffer, p: usize, big: bool) -> (r: usize)
    requires
        p <= buf.text.len(),
    ensures
        r == end_of_word_forward(buf.text@, p as int, big),
        r <= buf.text.len(),
{
    let n = buf.len();
    if p >= n {
        return 0;
    }
    let k = class_with(buf.text[p], big);
    if k != CharClass::Whitespace && p + 1 < n && class_with(buf.text[p + 1], big) == k {
        run_end_at(buf, p + 1, k, big) - 1
    } else {
        let w = run_end_at(buf, p + 1, CharClass::Whitespace, big);
        if w >= n {
            n - 1
        } else {
            let wc = class_with(buf.text[w], big);
            run_end_at(buf, w, wc, big) - 1
        }
    }
}

fn end_of_word_backward_at(buf: &Buffer, p: usize, big: bool) -> (r: usize)
    requires
        p <= buf.text.len(),
    ensures
        r == end_of_word_backward(buf.text@, p as int, big),
        r <= buf.text.len(),
{
    let ghost t = buf.text@;
    if p >= buf.len() {
        return 0;
    }
    let k = class_with(buf.text[p], big);
    proof {
        lemma_last_before(t, p as int, CharPred::ClassOtherThan(k, big));
    }
    let a: Option<usize> = if k != CharClass::Whitespace {
        buf.last_index_of_pred(CharPred::ClassOtherThan(k, big), p)
    } else if p > 0 {
        Some(p - 1)
    } else {
        None
    };
    match a {
        None => 0,
        Some(a) => {
            proof {
                lemma_last_before(t, a + 1, CharPred::ClassOtherThan(CharClass::Whitespace, big));
            }
            match buf.last_index_of_pred(CharPred::ClassOtherThan(CharClass::Whitespace, big), a + 1) {
                Some(b) => b,
                None => 0,
            }
        },
    }
}

fn next_char_at(buf: &Buffer, p: usize, c: char, place_before: bool, d: Direction) -> (r: usize)
    requires
        p <= buf.text.len(),
    ensures
        r == next_char(buf.text@, p as int, c, place_before, d),
        r <= buf.text.len(),
{
    let ghost t = buf.text@;
    match d {
        Direction::Forward => {
            proof {
                lemma_first_from(t, p + 1, CharPred::Is(c));
            }
            let found = if p < buf.len() {
                buf.index_of(c, p + 1)
            } else {
                None
            };
            match found {
                Some(j) => if place_before { j - 1 } else { j },
                None => p,
            }
        },
        Direction::Backward => {
            proof {
                lemma_last_before(t, p as int, CharPred::Is(c));
            }
            match buf.last_index_of_pred(CharPred::Is(c), p) {
                Some(j) => if place_before { j + 1 } else { j },
                None => p,
            }
        },
    }
}

/// `column_on_line` on the buffer's text.
fn column_on_line_at(buf: &Buffer, s: usize, col: usize) -> (r: usize)
    requires
        s <= buf.text.len(),
    ensures
        r == column_on_line(buf.text@, s as int, col as int),
        r <= buf.text.len(),
{
    proof {
        lemma_first_from(buf.text@, s as int, CharPred::Is('\n'));
    }
    let len = buf.end_of_line(s) - s;
    s + if col < len { col } else { len }
}

/// One application of `object` from `p`.
fn step_at(buf: &Buffer, p: usize, object: TextObject, col: usize) -> (r: usize)
    requires
        p <= buf.text.len(),
    ensures
        r == step(buf.text@, p as int, object, col as int),
        r <= buf.text.len(),
{
    match object {
        TextObject::Char(Direction::Forward) => if p < buf.len() { p + 1 } else { p },
        TextObject::Char(Direction::Backward) => if p > 0 { p - 1 } else { 0 },
        TextObject::Line(Direction::Forward) => column_on_line_at(buf, buf.next_line_index(p), col),
        TextObject::Line(Direction::Backward) => column_on_line_at(buf, buf.last_line_index(p), col),
        TextObject::StartOfLine => {
            let s = buf.current_start_of_line(p);
            run_end_at(buf, s, CharClass::Whitespace, false)
        },
        TextObject::EndOfLine => {
            let e = buf.next_line_index(p);
            if e > 0 { e - 1 } else { 0 }
        },
        TextObject::Word(Direction::Forward) => word_forward_at(buf, p),
        TextObject::Word(Direction::Backward) => word_backward_at(buf, p),
        TextObject::BigWord(Direction::Forward) => big_word_forward_at(buf, p),
        TextObject::BigWord(Direction::Backward) => big_word_backward_at(buf, p),
        TextObject::EndOfWord(Direction::Forward) => end_of_word_forward_at(buf, p, false),
        TextObject::EndOfWord(Direction::Backward) => end_of_word_backward_at(buf, p, false),
        TextObject::EndOfBigWord(Direction::Forward) => end_of_word_forward_at(buf, p, true),
        TextObject::EndOfBigWord(Direction::Backward) => end_of_word_backward_at(buf, p, true),
        TextObject::NextChar { c, place_before, direction } => next_char_at(buf, p, c, place_before, direction),
        _ => p,
    }
}

impl Motion {
    /// Whether resolution supports this motion's text object.
    pub fn is_supported(&self) -> (r: bool)
        ensures
            r == supported(self.object),
    {
        match self.object {
            TextObject::WholeLine | TextObject::Paragraph | TextObject::RepeatNextChar { .. } => false,
            _ => true,
        }
    }

    /// The range from the buffer's cursor to where `count` applications of the text object
    /// land, each starting where the last ended. The end may lie before the start.
    pub fn range(&self, buf: &Buffer) -> (r: Result<Range<usize>, Error>)
        requires
            buf.wf(),
        ensures
            supported(self.object) <==> r is Ok,
            r matches Ok(rg) ==> rg.start == buf.cursor_index && rg.end == steps(buf.text@,
                buf.cursor_index as int, self.object, buf.column_spec(), self.count as nat),
            r matches Ok(rg) ==> rg.end <= buf.text.len(),
            !supported(self.object) ==> r == Err::<Range<usize>, Error>(Error::UnsupportedMotion(self.object)),
    {
        if !self.is_supported() {
            return Err(Error::UnsupportedMotion(self.object));
        }
        let col = buf.current_column();
        let mut end = buf.cursor_index;
        let mut i: usize = 0;
        while i < self.count
            invariant
                buf.wf(),
                end <= buf.text.len(),
                i <= self.count,
                col == buf.column_spec(),
                end == steps(buf.text@, buf.cursor_index as int, self.object, col as int, i as nat),
            decreases self.count - i,
        {
            end = step_at(buf, end, self.object, col);
            i = i + 1;
        }
        Ok(Range { start: buf.cursor_index, end })
    }
}

} // verus!
