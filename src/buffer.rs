//! The text buffer that motions are resolved against, and its text-query capability:
//! forward and backward searches by character predicate, and line arithmetic.
use vstd::prelude::*;
use crate::chars::{
    CharClass, ascii_whitespace, class_for, class_with, is_ascii_whitespace, is_word_char,
    word_char, chars_of,
};

verus! {

/// The direction of a scan or of a motion.
#[derive(Debug, Clone, Copy, PartialEq, Eq, Structural)]
pub enum Direction {
    Forward,
    Backward,
}

/// A test on one character, used by the buffer's searches.
#[derive(Debug, Clone, Copy, PartialEq, Eq, Structural)]
pub enum CharPred {
    /// Neither alphanumeric nor the underscore.
    NotWordChar,
    /// ASCII whitespace, alphanumeric, or the underscore.
    BlankOrWordChar,
    /// ASCII whitespace.
    AsciiBlank,
    /// Anything but ASCII whitespace.
    NotAsciiBlank,
    /// A character whose class (the WORD class when the flag holds) differs from the given one.
    ClassOtherThan(CharClass, bool),
    /// Exactly the given character.
    Is(char),
}

pub open spec fn holds(p: CharPred, c: char) -> bool {
    match p {
        CharPred::NotWordChar => !word_char(c),
        CharPred::BlankOrWordChar => ascii_whitespace(c) || word_char(c),
        CharPred::AsciiBlank => ascii_whitespace(c),
        CharPred::NotAsciiBlank => !ascii_whitespace(c),
        CharPred::ClassOtherThan(k, big) => class_for(c, big) != k,
        CharPred::Is(x) => c == x,
    }
}

impl CharPred {
    pub fn test(&self, c: char) -> (r: bool)
        ensures
            r == holds(*self, c),
    {
        match *self {
            CharPred::NotWordChar => !is_word_char(c),
            CharPred::BlankOrWordChar => is_ascii_whitespace(c) || is_word_char(c),
            CharPred::AsciiBlank => is_ascii_whitespace(c),
            CharPred::NotAsciiBlank => !is_ascii_whitespace(c),
            CharPred::ClassOtherThan(k, big) => class_with(c, big) != k,
            CharPred::Is(x) => c == x,
        }
    }
}

/// The first index `j` with `i <= j < t.len()` whose character satisfies `p`.
pub open spec fn first_from(t: Seq<char>, i: int, p: CharPred) -> Option<int>
    decreases t.len() - i,
{
    if i < 0 || i >= t.len() {
        None
    } else if holds(p, t[i]) {
        Some(i)
    } else {
        first_from(t, i + 1, p)
    }
}

/// The last index `j < i` (and inside `t`) whose character satisfies `p`.
pub open spec fn last_before(t: Seq<char>, i: int, p: CharPred) -> Option<int>
    decreases i,
{
    if i <= 0 {
        None
    } else if i - 1 < t.len() && holds(p, t[i - 1]) {
        Some(i - 1)
    } else {
        last_before(t, i - 1, p)
    }
}

pub proof fn lemma_first_from(t: Seq<char>, i: int, p: CharPred)
    requires
        0 <= i,
    ensures
        first_from(t, i, p) matches Some(j) ==> i <= j < t.len() && holds(p, t[j]),
        first_from(t, i, p) matches Some(j) ==> forall|k: int| i <= k < j ==> !holds(p, t[k]),
        first_from(t, i, p) is None ==> forall|k: int| i <= k < t.len() ==> !holds(p, t[k]),
    decreases t.len() - i,
{
    if i >= 0 && i < t.len() && !holds(p, t[i]) {
        lemma_first_from(t, i + 1, p);
    }
}

pub proof fn lemma_last_before(t: Seq<char>, i: int, p: CharPred)
    ensures
        last_before(t, i, p) matches Some(j) ==> 0 <= j < i && j < t.len() && holds(p, t[j]),
        last_before(t, i, p) matches Some(j) ==> forall|k: int|
            j < k < i && k < t.len() ==> !holds(p, t[k]),
        last_before(t, i, p) is None ==> forall|k: int| 0 <= k < i && k < t.len() ==> !holds(p, t[k]),
    decreases i,
{
    if i > 0 && !(i - 1 < t.len() && holds(p, t[i - 1])) {
        lemma_last_before(t, i - 1, p);
    }
}

/// An optional index as a mathematical integer.
pub open spec fn opt_int(r: Option<usize>) -> Option<int> {
    match r {
        Some(j) => Some(j as int),
        None => None,
    }
}

pub open spec fn unwrap_or(r: Option<int>, d: int) -> int {
    match r {
        Some(j) => j,
        None => d,
    }
}

/// The index at which the line holding index `i` starts.
pub open spec fn line_start(t: Seq<char>, i: int) -> int {
    match last_before(t, i, CharPred::Is('\n')) {
        Some(j) => j + 1,
        None => 0,
    }
}

/// The index of the line break that ends the line holding `i`, or the length of `t`
/// where no line break follows.
pub open spec fn line_end(t: Seq<char>, i: int) -> int {
    unwrap_or(first_from(t, i, CharPred::Is('\n')), t.len() as int)
}

/// The index at which the line after the one holding `i` starts, or the length of `t`
/// where no line break follows.
pub open spec fn next_line_start(t: Seq<char>, i: int) -> int {
    match first_from(t, i, CharPred::Is('\n')) {
        Some(j) => j + 1,
        None => t.len() as int,
    }
}

/// The index at which the line before the one holding `i` starts; 0 on the first line.
pub open spec fn prev_line_start(t: Seq<char>, i: int) -> int {
    let s = line_start(t, i);
    if s == 0 {
        0
    } else {
        line_start(t, s - 1)
    }
}

/// A text buffer with a cursor.
pub struct Buffer {
    pub text: Vec<char>,
    pub cursor_index: usize,
}

impl Buffer {
    /// The cursor indexes the text or stands just past its end.
    pub open spec fn wf(&self) -> bool {
        self.cursor_index <= self.text.len()
    }

    pub open spec fn column_spec(&self) -> int {
        self.cursor_index - line_start(self.text@, self.cursor_index as int)
    }

    /// A buffer holding `s`, with the cursor at its start.
    pub fn with_text(s: &str) -> (r: Buffer)
        ensures
            r.text@ == s@,
            r.cursor_index == 0,
            r.wf(),
    {
        Buffer { text: chars_of(s), cursor_index: 0 }
    }

    pub fn cursor_index(&self) -> (r: usize)
        ensures
            r == self.cursor_index,
    {
        self.cursor_index
    }

    pub fn len(&self) -> (r: usize)
        ensures
            r == self.text.len(),
    {
        self.text.len()
    }

    pub fn char_at(&self, i: usize) -> (r: Option<char>)
        ensures
            i < self.text.len() ==> r == Some(self.text@[i as int]),
            i >= self.text.len() ==> r is None,
    {
        if i < self.text.len() {
            Some(self.text[i])
        } else {
            None
        }
    }

    /// The first index at or after `from` whose character satisfies `p`.
    pub fn index_of_pred(&self, p: CharPred, from: usize) -> (r: Option<usize>)
        ensures
            opt_int(r) == first_from(self.text@, from as int, p),
    {
        let n = self.text.len();
        let mut j = from;
        while j < n
            invariant
                n == self.text.len(),
                first_from(self.text@, from as int, p) == first_from(self.text@, j as int, p),
            decreases n - j,
        {
            if p.test(self.text[j]) {
                return Some(j);
            }
            j = j + 1;
        }
        None
    }

    /// The first index at or after `from` that holds `c`.
    pub fn index_of(&self, c: char, from: usize) -> (r: Option<usize>)
        ensures
            opt_int(r) == first_from(self.text@, from as int, CharPred::Is(c)),
    {
        self.index_of_pred(CharPred::Is(c), from)
    }

    /// The last index before `from` whose character satisfies `p`.
    pub fn last_index_of_pred(&self, p: CharPred, from: usize) -> (r: Option<usize>)
        requires
            from <= self.text.len(),
        ensures
            opt_int(r) == last_before(self.text@, from as int, p),
    {
        let mut j = from;
        while j > 0
            invariant
                j <= from <= self.text.len(),
                last_before(self.text@, from as int, p) == last_before(self.text@, j as int, p),
            decreases j,
        {
            if p.test(self.text[j - 1]) {
                return Some(j - 1);
            }
            j = j - 1;
        }
        None
    }

    /// A search in the given direction: at or after `from` going forward, before `from`
    /// going backward.
    pub fn dir_index_of(&self, p: CharPred, from: usize, d: Direction) -> (r: Option<usize>)
        requires
            from <= self.text.len(),
        ensures
            d == Direction::Forward ==> opt_int(r) == first_from(self.text@, from as int, p),
            d == Direction::Backward ==> opt_int(r) == last_before(self.text@, from as int, p),
    {
        match d {
            Direction::Forward => self.index_of_pred(p, from),
            Direction::Backward => self.last_index_of_pred(p, from),
        }
    }

    /// The start of the line holding index `i`.
    pub fn current_start_of_line(&self, i: usize) -> (r: usize)
        requires
            i <= self.text.len(),
        ensures
            r == line_start(self.text@, i as int),
            r <= i,
    {
        proof {
            lemma_last_before(self.text@, i as int, CharPred::Is('\n'));
        }
        match self.last_index_of_pred(CharPred::Is('\n'), i) {
            Some(j) => j + 1,
            None => 0,
        }
    }

    /// The start of the line after the one holding index `i`, or the length of the text.
    pub fn next_line_index(&self, i: usize) -> (r: usize)
        ensures
            r == next_line_start(self.text@, i as int),
            r <= self.text.len(),
    {
        proof {
            lemma_first_from(self.text@, i as int, CharPred::Is('\n'));
        }
        match self.index_of('\n', i) {
            Some(j) => {
                assert(first_from(self.text@, i as int, CharPred::Is('\n')) == Some(j as int));
                assert(j < self.text.len());
                j + 1
            },
            None => self.text.len(),
        }
    }

    /// The start of the line before the one holding index `i`.
    pub fn last_line_index(&self, i: usize) -> (r: usize)
        requires
            i <= self.text.len(),
        ensures
            r == prev_line_start(self.text@, i as int),
            r <= i,
    {
        let s = self.current_start_of_line(i);
        if s == 0 {
            0
        } else {
            self.current_start_of_line(s - 1)
        }
    }

    /// The index of the line break ending the line that holds `i`, or the length of the text.
    pub fn end_of_line(&self, i: usize) -> (r: usize)
        ensures
            r == line_end(self.text@, i as int),
            r <= self.text.len(),
    {
        proof {
            lemma_first_from(self.text@, i as int, CharPred::Is('\n'));
        }
        match self.index_of('\n', i) {
            Some(j) => j,
            None => self.text.len(),
        }
    }

    /// The cursor's distance from the start of its line.
    pub fn current_column(&self) -> (r: usize)
        requires
            self.wf(),
        ensures
            r == self.column_spec(),
    {
        self.cursor_index - self.current_start_of_line(self.cursor_index)
    }
}

} // verus!
