//! Commands and motions, and the keystroke grammar that produces them.
use vstd::prelude::*;
use crate::buffer::Direction;
use crate::chars::{chars_of, decimal_digit, digit_value, is_digit, to_digit};

verus! {

#[derive(Debug, Clone, Copy, PartialEq, Eq, Structural)]
pub enum ModeTag {
    Normal,
    Insert,
    Command,
    Visual,
}

#[derive(Debug, Clone, Copy, PartialEq, Eq, Structural)]
pub enum Operator {
    Repeat,
    Undo,
    Delete,
    Change,
    Yank,
    Put,
    Indent(Direction),
    MoveAndEnterMode(ModeTag),
    NewLineAndEnterMode(Direction, ModeTag),
    ReplaceChar(char),
}

/// Where a motion goes next; it carries no reference to a buffer.
#[derive(Debug, Clone, Copy, PartialEq, Eq, Structural)]
pub enum TextObject {
    Char(Direction),
    /// words: runs of word characters, or runs of other non-blank characters
    Word(Direction),
    /// WORDs: runs of non-blank characters
    BigWord(Direction),
    EndOfWord(Direction),
    EndOfBigWord(Direction),
    NextChar { c: char, place_before: bool, direction: Direction },
    RepeatNextChar { opposite: bool },
    WholeLine,
    Line(Direction),
    StartOfLine,
    EndOfLine,
    Paragraph,
}

#[derive(Debug, Clone, Copy, PartialEq, Eq, Structural)]
pub enum TextObjectMod {
    /// neither `i` nor `a` was given
    NoModifier,
    AnObject,
    InnerObject,
}

#[derive(Debug, Clone, Copy, PartialEq, Eq, Structural)]
pub struct Motion {
    pub count: usize,
    pub object: TextObject,
    pub modifier: TextObjectMod,
}

#[derive(Debug, Clone, Copy, PartialEq, Eq, Structural)]
pub enum Command {
    Move(Motion),
    Edit { op: Operator, op_count: usize, mo: Motion, target_register: char },
    ChangeMode(ModeTag),
}

#[derive(Debug, PartialEq, Eq)]
pub enum Error {
    /// A valid prefix: more keystrokes are needed.
    IncompleteCommand,
    /// Input that no further keystrokes can make valid; holds the whole input.
    InvalidCommand(String),
    /// Input that matches no rule of the grammar; holds the whole input.
    UnknownCommand(String),
    /// A motion that resolution does not support yet.
    UnsupportedMotion(TextObject),
}

/// Relies on `String::push_str`: appends the text at the end of the string.
#[verifier::external_body]
fn push_str(s: &mut String, t: &str)
    ensures
        final(s)@ == old(s)@ + t@,
{
    s.push_str(t)
}

pub const INCOMPLETE_MESSAGE: &'static str = "incomplete command";

pub const INVALID_PREFIX: &'static str = "invalid command: ";

pub const UNKNOWN_PREFIX: &'static str = "unknown command: ";

pub const UNSUPPORTED_MESSAGE: &'static str = "motion not supported yet";

/// The message that tells a user about `e`.
pub open spec fn message_of(e: Error) -> Seq<char> {
    match e {
        Error::IncompleteCommand => INCOMPLETE_MESSAGE@,
        Error::InvalidCommand(m) => INVALID_PREFIX@ + m@,
        Error::UnknownCommand(m) => UNKNOWN_PREFIX@ + m@,
        Error::UnsupportedMotion(_) => UNSUPPORTED_MESSAGE@,
    }
}

impl Error {
    /// The message that tells a user about this error.
    pub fn message(&self) -> (r: String)
        ensures
            r@ == message_of(*self),
    {
        match self {
            Error::IncompleteCommand => INCOMPLETE_MESSAGE.to_owned(),
            Error::InvalidCommand(m) => {
                let mut s = INVALID_PREFIX.to_owned();
                push_str(&mut s, m.as_str());
                s
            },
            Error::UnknownCommand(m) => {
                let mut s = UNKNOWN_PREFIX.to_owned();
                push_str(&mut s, m.as_str());
                s
            },
            Error::UnsupportedMotion(_) => UNSUPPORTED_MESSAGE.to_owned(),
        }
    }
}

/// Why a keystroke sequence is not a command, without the text that the error carries.
#[derive(Debug, Clone, Copy, PartialEq, Eq, Structural)]
pub enum ParseFailure {
    Incomplete,
    Unknown,
    Invalid,
}

/// The register that edits use when none is named.
pub const DEFAULT_REGISTER: char = '"';

/// The end of the run of decimal digits that starts at `i`.
pub open spec fn digits_end(s: Seq<char>, i: int) -> int
    decreases s.len() - i,
{
    if 0 <= i < s.len() && decimal_digit(s[i]) {
        digits_end(s, i + 1)
    } else {
        i
    }
}

/// The number that the digits `s[i..j]` write, leftmost digit most significant.
pub open spec fn digits_value(s: Seq<char>, i: int, j: int) -> nat
    decreases j - i,
{
    if j <= i {
        0
    } else {
        digits_value(s, i, j - 1) * 10 + digit_value(s[j - 1])
    }
}

/// The count written at `i`, if digits stand there.
pub open spec fn count_at(s: Seq<char>, i: int) -> Option<nat> {
    let j = digits_end(s, i);
    if j == i {
        None
    } else {
        Some(digits_value(s, i, j))
    }
}

pub open spec fn count_or_one(c: Option<nat>) -> nat {
    match c {
        Some(n) => n,
        None => 1,
    }
}

pub open spec fn fits(c: Option<nat>) -> bool {
    match c {
        Some(n) => n <= usize::MAX,
        None => true,
    }
}

/// The motions selected by one key.
pub open spec fn single_key_object(c: char) -> Option<TextObject> {
    if c == 'h' {
        Some(TextObject::Char(Direction::Backward))
    } else if c == 'j' {
        Some(TextObject::Line(Direction::Forward))
    } else if c == 'k' {
        Some(TextObject::Line(Direction::Backward))
    } else if c == 'l' {
        Some(TextObject::Char(Direction::Forward))
    } else if c == 'w' {
        Some(TextObject::Word(Direction::Forward))
    } else if c == 'b' {
        Some(TextObject::Word(Direction::Backward))
    } else if c == 'W' {
        Some(TextObject::BigWord(Direction::Forward))
    } else if c == 'B' {
        Some(TextObject::BigWord(Direction::Backward))
    } else if c == 'e' {
        Some(TextObject::EndOfWord(Direction::Forward))
    } else if c == 'E' {
        Some(TextObject::EndOfBigWord(Direction::Forward))
    } else if c == '^' {
        Some(TextObject::StartOfLine)
    } else if c == '$' {
        Some(TextObject::EndOfLine)
    } else if c == ';' {
        Some(TextObject::RepeatNextChar { opposite: true })
    } else {
        None
    }
}

/// The text object selected at `k`; `opchar` is the operator key in progress, whose
/// repetition selects the whole line.
pub open spec fn selector_at(s: Seq<char>, k: int, opchar: Option<char>) -> Result<TextObject, ParseFailure> {
    if k < 0 || k >= s.len() {
        Err(ParseFailure::Incomplete)
    } else {
        let c = s[k];
        if single_key_object(c) is Some {
            Ok(single_key_object(c)->0)
        } else if c == 'g' {
            if k + 1 >= s.len() {
                Err(ParseFailure::Incomplete)
            } else if s[k + 1] == 'e' {
                Ok(TextObject::EndOfWord(Direction::Backward))
            } else if s[k + 1] == 'E' {
                Ok(TextObject::EndOfBigWord(Direction::Backward))
            } else {
                Err(ParseFailure::Unknown)
            }
        } else if c == 'f' || c == 'F' || c == 't' || c == 'T' {
            if k + 1 >= s.len() {
                Err(ParseFailure::Incomplete)
            } else {
                Ok(
                    TextObject::NextChar {
                        c: s[k + 1],
                        place_before: c == 't' || c == 'T',
                        direction: if c == 'f' || c == 't' {
                            Direction::Forward
                        } else {
                            Direction::Backward
                        },
                    },
                )
            }
        } else if opchar == Some(c) {
            Ok(TextObject::WholeLine)
        } else {
            Err(ParseFailure::Unknown)
        }
    }
}

/// The motion written at `i`: an optional count, an optional `i`/`a` modifier, a selector.
pub open spec fn motion_at(s: Seq<char>, i: int, opchar: Option<char>) -> Result<Motion, ParseFailure> {
    let count = count_at(s, i);
    let j = digits_end(s, i);
    if !fits(count) {
        Err(ParseFailure::Invalid)
    } else {
        let modifier = if 0 <= j < s.len() && s[j] == 'i' {
            TextObjectMod::InnerObject
        } else if 0 <= j < s.len() && s[j] == 'a' {
            TextObjectMod::AnObject
        } else {
            TextObjectMod::NoModifier
        };
        let k = if modifier == TextObjectMod::NoModifier {
            j
        } else {
            j + 1
        };
        match selector_at(s, k, opchar) {
            Ok(object) => Ok(Motion { count: count_or_one(count) as usize, object, modifier }),
            Err(e) => Err(e),
        }
    }
}

/// The operator that a key starts.
pub open spec fn operator_of(c: char) -> Option<Operator> {
    if c == '.' {
        Some(Operator::Repeat)
    } else if c == 'u' {
        Some(Operator::Undo)
    } else if c == 'd' {
        Some(Operator::Delete)
    } else if c == 'c' {
        Some(Operator::Change)
    } else if c == 'y' {
        Some(Operator::Yank)
    } else if c == 'p' {
        Some(Operator::Put)
    } else if c == '<' {
        Some(Operator::Indent(Direction::Backward))
    } else if c == '>' {
        Some(Operator::Indent(Direction::Forward))
    } else {
        None
    }
}

pub open spec fn basic_motion(object: TextObject) -> Motion {
    Motion { count: 1, object, modifier: TextObjectMod::NoModifier }
}

/// The generic form at `i`: an optional count, then `x`, an operator and its motion,
/// or a bare motion whose count the leading count multiplies.
pub open spec fn generic_at(s: Seq<char>, i: int, reg: char) -> Result<Command, ParseFailure> {
    let opcount = count_at(s, i);
    let j = digits_end(s, i);
    if !fits(opcount) {
        Err(ParseFailure::Invalid)
    } else if 0 <= j < s.len() && s[j] == 'x' {
        Ok(
            Command::Edit {
                op: Operator::Delete,
                op_count: count_or_one(opcount) as usize,
                mo: basic_motion(TextObject::Char(Direction::Forward)),
                target_register: reg,
            },
        )
    } else if 0 <= j < s.len() && operator_of(s[j]) is Some {
        match motion_at(s, j + 1, Some(s[j])) {
            Ok(mo) => Ok(
                Command::Edit {
                    op: operator_of(s[j])->0,
                    op_count: count_or_one(opcount) as usize,
                    mo,
                    target_register: reg,
                },
            ),
            Err(e) => Err(e),
        }
    } else {
        match motion_at(s, j, None) {
            Ok(mo) => {
                let total = mo.count * count_or_one(opcount);
                if total > usize::MAX {
                    Err(ParseFailure::Invalid)
                } else {
                    Ok(Command::Move(Motion { count: total as usize, ..mo }))
                }
            },
            Err(e) => Err(e),
        }
    }
}

pub open spec fn enter_insert(object: TextObject) -> Command {
    Command::Edit {
        op: Operator::MoveAndEnterMode(ModeTag::Insert),
        op_count: 1,
        mo: basic_motion(object),
        target_register: DEFAULT_REGISTER,
    }
}

pub open spec fn open_line(d: Direction) -> Command {
    Command::Edit {
        op: Operator::NewLineAndEnterMode(d, ModeTag::Insert),
        op_count: 1,
        mo: basic_motion(TextObject::Line(d)),
        target_register: DEFAULT_REGISTER,
    }
}

/// The command that the keystrokes `s` spell. Keys after a complete command are ignored.
pub open spec fn command_of(s: Seq<char>) -> Result<Command, ParseFailure> {
    if s.len() == 0 {
        Err(ParseFailure::Invalid)
    } else {
        let c = s[0];
        if c == 'i' {
            Ok(Command::ChangeMode(ModeTag::Insert))
        } else if c == 'I' {
            Ok(enter_insert(TextObject::StartOfLine))
        } else if c == 'a' {
            Ok(enter_insert(TextObject::Char(Direction::Forward)))
        } else if c == 'A' {
            Ok(enter_insert(TextObject::EndOfLine))
        } else if c == 'o' {
            Ok(open_line(Direction::Forward))
        } else if c == 'O' {
            Ok(open_line(Direction::Backward))
        } else if c == 'v' {
            Ok(Command::ChangeMode(ModeTag::Visual))
        } else if c == ':' {
            Ok(Command::ChangeMode(ModeTag::Command))
        } else if c == 'r' {
            if s.len() < 2 {
                Err(ParseFailure::Incomplete)
            } else {
                Ok(
                    Command::Edit {
                        op: Operator::ReplaceChar(s[1]),
                        op_count: 0,
                        mo: basic_motion(TextObject::Char(Direction::Forward)),
                        target_register: DEFAULT_REGISTER,
                    },
                )
            }
        } else if c == '"' {
            if s.len() < 2 {
                generic_at(s, 1, DEFAULT_REGISTER)
            } else {
                generic_at(s, 2, s[1])
            }
        } else {
            generic_at(s, 0, DEFAULT_REGISTER)
        }
    }
}

/// The error value that stands for a failure on the input `s`.
pub open spec fn error_is(e: Error, f: ParseFailure, s: Seq<char>) -> bool {
    match f {
        ParseFailure::Incomplete => e == Error::IncompleteCommand,
        ParseFailure::Unknown => e matches Error::UnknownCommand(m) && m@ == s,
        ParseFailure::Invalid => e matches Error::InvalidCommand(m) && m@ == s,
    }
}

pub proof fn lemma_digits_end(s: Seq<char>, i: int)
    requires
        0 <= i,
    ensures
        i <= digits_end(s, i),
        digits_end(s, i) <= i || digits_end(s, i) <= s.len(),
        forall|k: int| i <= k < digits_end(s, i) ==> decimal_digit(#[trigger] s[k]),
        0 <= digits_end(s, i) < s.len() ==> !decimal_digit(s[digits_end(s, i)]),
    decreases s.len() - i,
{
    if 0 <= i < s.len() && decimal_digit(s[i]) {
        lemma_digits_end(s, i + 1);
    }
}

/// A longer run of digits never writes a smaller number.
pub proof fn lemma_digits_value_grows(s: Seq<char>, i: int, j: int, k: int)
    requires
        i <= j <= k,
    ensures
        digits_value(s, i, j) <= digits_value(s, i, k),
    decreases k - j,
{
    if j < k {
        lemma_digits_value_grows(s, i, j, k - 1);
    }
}

/// Scans the count that starts at `i`: the end of its digits, and its value if any digits
/// stand there. Fails with `Invalid` where the value does not fit in `usize`.
fn take_number(s: &Vec<char>, i: usize) -> (r: Result<(Option<usize>, usize), ParseFailure>)
    requires
        i <= s.len(),
    ensures
        r matches Ok((c, j)) ==> j == digits_end(s@, i as int) && fits(count_at(s@, i as int))
            && match c {
            Some(v) => count_at(s@, i as int) == Some(v as nat),
            None => count_at(s@, i as int) is None,
        },
        r matches Err(f) ==> f == ParseFailure::Invalid && !fits(count_at(s@, i as int)),
        r is Ok <==> fits(count_at(s@, i as int)),
{
    let n = s.len();
    if i >= n || !is_digit(s[i]) {
        return Ok((None, i));
    }
    let mut num: usize = 0;
    let mut j = i;
    while j < n && is_digit(s[j])
        invariant
            i <= j <= n == s.len(),
            num as nat == digits_value(s@, i as int, j as int),
            digits_end(s@, i as int) == digits_end(s@, j as int),
            j > i || decimal_digit(s@[i as int]),
        decreases n - j,
    {
        let d = to_digit(s[j]);
        proof {
            lemma_digits_end(s@, (j + 1) as int);
            lemma_digits_end(s@, i as int);
            lemma_digits_value_grows(s@, i as int, (j + 1) as int, digits_end(s@, i as int));
        }
        if num > (usize::MAX - d) / 10 {
            assert(digits_value(s@, i as int, (j + 1) as int) > usize::MAX) by (nonlinear_arith)
                requires
                    digits_value(s@, i as int, (j + 1) as int) == num * 10 + d,
                    num > (usize::MAX - d) / 10,
                    d < 10,
            ;
            return Err(ParseFailure::Invalid);
        }
        assert(num * 10 + d <= usize::MAX) by (nonlinear_arith)
            requires
                num <= (usize::MAX - d) / 10,
                d < 10,
        ;
        num = num * 10 + d;
        j = j + 1;
    }
    proof {
        lemma_digits_end(s@, j as int);
    }
    Ok((Some(num), j))
}

fn single_key(c: char) -> (r: Option<TextObject>)
    ensures
        r == single_key_object(c),
{
    match c {
        'h' => Some(TextObject::Char(Direction::Backward)),
        'j' => Some(TextObject::Line(Direction::Forward)),
        'k' => Some(TextObject::Line(Direction::Backward)),
        'l' => Some(TextObject::Char(Direction::Forward)),
        'w' => Some(TextObject::Word(Direction::Forward)),
        'b' => Some(TextObject::Word(Direction::Backward)),
        'W' => Some(TextObject::BigWord(Direction::Forward)),
        'B' => Some(TextObject::BigWord(Direction::Backward)),
        'e' => Some(TextObject::EndOfWord(Direction::Forward)),
        'E' => Some(TextObject::EndOfBigWord(Direction::Forward)),
        '^' => Some(TextObject::StartOfLine),
        '$' => Some(TextObject::EndOfLine),
        ';' => Some(TextObject::RepeatNextChar { opposite: true }),
        _ => None,
    }
}

fn select(s: &Vec<char>, k: usize, opchar: Option<char>) -> (r: Result<TextObject, ParseFailure>)
    ensures
        r == selector_at(s@, k as int, opchar),
{
    if k >= s.len() {
        return Err(ParseFailure::Incomplete);
    }
    let c = s[k];
    if let Some(object) = single_key(c) {
        return Ok(object);
    }
    if c == 'g' {
        if k + 1 >= s.len() {
            Err(ParseFailure::Incomplete)
        } else if s[k + 1] == 'e' {
            Ok(TextObject::EndOfWord(Direction::Backward))
        } else if s[k + 1] == 'E' {
            Ok(TextObject::EndOfBigWord(Direction::Backward))
        } else {
            Err(ParseFailure::Unknown)
        }
    } else if c == 'f' || c == 'F' || c == 't' || c == 'T' {
        if k + 1 >= s.len() {
            Err(ParseFailure::Incomplete)
        } else {
            Ok(
                TextObject::NextChar {
                    c: s[k + 1],
                    place_before: c == 't' || c == 'T',
                    direction: if c == 'f' || c == 't' {
                        Direction::Forward
                    } else {
                        Direction::Backward
                    },
                },
            )
        }
    } else if opchar == Some(c) {
        Ok(TextObject::WholeLine)
    } else {
        Err(ParseFailure::Unknown)
    }
}

fn operator(c: char) -> (r: Option<Operator>)
    ensures
        r == operator_of(c),
{
    match c {
        '.' => Some(Operator::Repeat),
        'u' => Some(Operator::Undo),
        'd' => Some(Operator::Delete),
        'c' => Some(Operator::Change),
        'y' => Some(Operator::Yank),
        'p' => Some(Operator::Put),
        '<' => Some(Operator::Indent(Direction::Backward)),
        '>' => Some(Operator::Indent(Direction::Forward)),
        _ => None,
    }
}

impl Motion {
    /// Parses the motion written at `i`; `opchar` is the operator key in progress, so that
    /// a doubled operator key selects the whole line.
    pub fn parse(s: &Vec<char>, i: usize, opchar: Option<char>) -> (r: Result<Motion, ParseFailure>)
        requires
            i <= s.len(),
        ensures
            r == motion_at(s@, i as int, opchar),
    {
        let (count, j) = match take_number(s, i) {
            Ok(x) => x,
            Err(f) => return Err(f),
        };
        proof {
            lemma_digits_end(s@, i as int);
        }
        let n = s.len();
        let modifier = if j < n && s[j] == 'i' {
            TextObjectMod::InnerObject
        } else if j < n && s[j] == 'a' {
            TextObjectMod::AnObject
        } else {
            TextObjectMod::NoModifier
        };
        let k = match modifier {
            TextObjectMod::NoModifier => j,
            _ => j + 1,
        };
        let object = match select(s, k, opchar) {
            Ok(o) => o,
            Err(f) => return Err(f),
        };
        let count = match count {
            Some(v) => v,
            None => 1,
        };
        Ok(Motion { count, object, modifier })
    }
}

/// The generic form at `i`, with `reg` as the register.
fn parse_generic(s: &Vec<char>, i: usize, reg: char) -> (r: Result<Command, ParseFailure>)
    requires
        i <= s.len(),
    ensures
        r == generic_at(s@, i as int, reg),
{
    let (opcount, j) = match take_number(s, i) {
        Ok(x) => x,
        Err(f) => return Err(f),
    };
    proof {
        lemma_digits_end(s@, i as int);
    }
    let n = s.len();
    let times: usize = match opcount {
        Some(v) => v,
        None => 1,
    };
    if j < n && s[j] == 'x' {
        return Ok(
            Command::Edit {
                op: Operator::Delete,
                op_count: times,
                mo: Motion {
                    count: 1,
                    object: TextObject::Char(Direction::Forward),
                    modifier: TextObjectMod::NoModifier,
                },
                target_register: reg,
            },
        );
    }
    let op = if j < n {
        operator(s[j])
    } else {
        None
    };
    match op {
        Some(op) => {
            let mo = match Motion::parse(s, j + 1, Some(s[j])) {
                Ok(mo) => mo,
                Err(f) => return Err(f),
            };
            Ok(Command::Edit { op, op_count: times, mo, target_register: reg })
        },
        None => {
            let mo = match Motion::parse(s, j, None) {
                Ok(mo) => mo,
                Err(f) => return Err(f),
            };
            match mo.count.checked_mul(times) {
                Some(total) => Ok(Command::Move(Motion { count: total, ..mo })),
                None => Err(ParseFailure::Invalid),
            }
        },
    }
}

impl Command {
    /// The command that the keystrokes spell, or why they spell none.
    pub fn parse_keys(s: &Vec<char>) -> (r: Result<Command, ParseFailure>)
        ensures
            r == command_of(s@),
    {
        if s.len() == 0 {
            return Err(ParseFailure::Invalid);
        }
        let insert = ModeTag::Insert;
        match s[0] {
            'i' => Ok(Command::ChangeMode(ModeTag::Insert)),
            'I' => Ok(
                Command::Edit {
                    op: Operator::MoveAndEnterMode(insert),
                    op_count: 1,
                    mo: Motion {
                        count: 1,
                        object: TextObject::StartOfLine,
                        modifier: TextObjectMod::NoModifier,
                    },
                    target_register: DEFAULT_REGISTER,
                },
            ),
            'a' => Ok(
                Command::Edit {
                    op: Operator::MoveAndEnterMode(insert),
                    op_count: 1,
                    mo: Motion {
                        count: 1,
                        object: TextObject::Char(Direction::Forward),
                        modifier: TextObjectMod::NoModifier,
                    },
                    target_register: DEFAULT_REGISTER,
                },
            ),
            'A' => Ok(
                Command::Edit {
                    op: Operator::MoveAndEnterMode(insert),
                    op_count: 1,
                    mo: Motion {
                        count: 1,
                        object: TextObject::EndOfLine,
                        modifier: TextObjectMod::NoModifier,
                    },
                    target_register: DEFAULT_REGISTER,
                },
            ),
            'o' => Ok(
                Command::Edit {
                    op: Operator::NewLineAndEnterMode(Direction::Forward, insert),
                    op_count: 1,
                    mo: Motion {
                        count: 1,
                        object: TextObject::Line(Direction::Forward),
                        modifier: TextObjectMod::NoModifier,
                    },
                    target_register: DEFAULT_REGISTER,
                },
            ),
            'O' => Ok(
                Command::Edit {
                    op: Operator::NewLineAndEnterMode(Direction::Backward, insert),
                    op_count: 1,
                    mo: Motion {
                        count: 1,
                        object: TextObject::Line(Direction::Backward),
                        modifier: TextObjectMod::NoModifier,
                    },
                    target_register: DEFAULT_REGISTER,
                },
            ),
            'v' => Ok(Command::ChangeMode(ModeTag::Visual)),
            ':' => Ok(Command::ChangeMode(ModeTag::Command)),
            'r' => {
                if s.len() < 2 {
                    Err(ParseFailure::Incomplete)
                } else {
                    Ok(
                        Command::Edit {
                            op: Operator::ReplaceChar(s[1]),
                            op_count: 0,
                            mo: Motion {
                                count: 1,
                                object: TextObject::Char(Direction::Forward),
                                modifier: TextObjectMod::NoModifier,
                            },
                            target_register: DEFAULT_REGISTER,
                        },
                    )
                }
            },
            '"' => {
                if s.len() < 2 {
                    parse_generic(s, 1, DEFAULT_REGISTER)
                } else {
                    parse_generic(s, 2, s[1])
                }
            },
            _ => parse_generic(s, 0, DEFAULT_REGISTER),
        }
    }

    /// Parses the pending keystrokes into a command. `IncompleteCommand` means that the
    /// keystrokes are a valid prefix and more are needed; the other errors carry the input.
    pub fn parse(s: &str) -> (r: Result<Command, Error>)
        ensures
            r matches Ok(c) ==> command_of(s@) == Ok::<Command, ParseFailure>(c),
            r matches Err(e) ==> command_of(s@) matches Err(f) && error_is(e, f, s@),
            command_of(s@) is Ok ==> r is Ok,
    {
        let keys = chars_of(s);
        match Command::parse_keys(&keys) {
            Ok(c) => Ok(c),
            Err(ParseFailure::Incomplete) => Err(Error::IncompleteCommand),
            Err(ParseFailure::Unknown) => Err(Error::UnknownCommand(s.to_owned())),
            Err(ParseFailure::Invalid) => Err(Error::InvalidCommand(s.to_owned())),
        }
    }
}

} // verus!
