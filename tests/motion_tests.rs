use pk_common::buffer::{Buffer, Direction};
use pk_common::chars::{class, CharClass};
use pk_common::command::{Motion, TextObject, TextObjectMod};

fn create_line_test_buffer() -> Buffer {
    let mut b = Buffer::with_text("abc\ndef\nghi\n");
    b.cursor_index = b.next_line_index(b.cursor_index);
    assert_eq!(b.cursor_index, 4);
    b
}

fn create_word_test_buffer() -> Buffer {
    Buffer::with_text("word\nw0rd w##d ++++ word\n")
}

fn motion(object: TextObject) -> Motion {
    Motion { object, count: 1, modifier: TextObjectMod::NoModifier }
}

fn run_word_test(b: &mut Buffer, mo: &Motion, correct_word_boundries: &[usize], assert_msg: &str) {
    for (i, cwb) in correct_word_boundries.iter().enumerate() {
        let r = mo.range(b).unwrap();
        assert_eq!(r.end, *cwb, "{} i={}", assert_msg, i);
        b.cursor_index = r.end;
    }
}

#[test]
fn txo_char() {
    let b = create_line_test_buffer();
    let mo = Motion {
        object: TextObject::Char(Direction::Forward),
        count: 1,
        modifier: TextObjectMod::NoModifier,
    };
    assert_eq!(mo.range(&b).unwrap(), 4..5);
}

#[test]
fn txo_line() {
    let b = create_line_test_buffer();
    let mo = Motion {
        object: TextObject::Line(Direction::Forward),
        count: 1,
        modifier: TextObjectMod::NoModifier,
    };
    assert_eq!(mo.range(&b).unwrap(), 4..8);
}

#[test]
fn txo_start_of_line() {
    let b = create_line_test_buffer();
    let mo = Motion { object: TextObject::StartOfLine, count: 1, modifier: TextObjectMod::NoModifier };
    assert_eq!(mo.range(&b).unwrap(), 4..4);
}

#[test]
fn txo_end_of_line() {
    let b = create_line_test_buffer();
    let mo = Motion { object: TextObject::EndOfLine, count: 1, modifier: TextObjectMod::NoModifier };
    assert_eq!(mo.range(&b).unwrap(), 4..7);
}

#[test]
fn txo_line_backward() {
    let b = create_line_test_buffer();
    let mo = Motion {
        object: TextObject::Line(Direction::Backward),
        count: 1,
        modifier: TextObjectMod::NoModifier,
    };
    assert_eq!(mo.range(&b).unwrap(), 4..0);
}

#[test]
fn txo_word_no_spaces() {
    let mut b = Buffer::with_text("word+++word+++ +ope");
    let mo = motion(TextObject::Word(Direction::Forward));
    run_word_test(&mut b, &mo, &[4, 7, 11, 15], "forward");
    let mo = motion(TextObject::Word(Direction::Backward));
    run_word_test(&mut b, &mo, &[11, 7, 4, 0], "backward");
}

#[test]
fn txo_word() {
    let mut b = create_word_test_buffer();
    let mo = motion(TextObject::Word(Direction::Forward));
    run_word_test(&mut b, &mo, &[5, 10, 11, 13, 15, 20], "forward");
    let mo = motion(TextObject::Word(Direction::Backward));
    run_word_test(&mut b, &mo, &[15, 13, 11, 10, 5, 0], "backward");
}

#[test]
fn txo_big_word() {
    let mut b = create_word_test_buffer();
    let mo = motion(TextObject::BigWord(Direction::Forward));
    run_word_test(&mut b, &mo, &[5, 10, 15], "forward");
    let mo = motion(TextObject::BigWord(Direction::Backward));
    run_word_test(&mut b, &mo, &[10, 5, 0], "backward");
}

#[test]
fn txo_end_word() {
    let mut b = create_word_test_buffer();
    let mo = motion(TextObject::EndOfWord(Direction::Forward));
    run_word_test(&mut b, &mo, &[3, 8, 10, 12, 13, 18, 23], "forward");
    let mo = motion(TextObject::EndOfWord(Direction::Backward));
    run_word_test(&mut b, &mo, &[18, 13, 12, 10, 8, 3], "backward");
}

#[test]
fn txo_end_big_word() {
    let mut b = create_word_test_buffer();
    let mo = motion(TextObject::EndOfBigWord(Direction::Forward));
    run_word_test(&mut b, &mo, &[3, 8, 13, 18, 23], "forward");
    let mo = motion(TextObject::EndOfBigWord(Direction::Backward));
    run_word_test(&mut b, &mo, &[18, 13, 8, 3], "backward");
}

#[test]
fn word_forward_and_backward_meet_at_the_same_points() {
    let mut b = Buffer::with_text("word+++word+++ +ope");
    let fwd = motion(TextObject::Word(Direction::Forward));
    let bwd = motion(TextObject::Word(Direction::Backward));
    let mut forward_points = vec![0];
    for _ in 0..4 {
        b.cursor_index = fwd.range(&b).unwrap().end;
        forward_points.push(b.cursor_index);
    }
    let mut backward_points = vec![b.cursor_index];
    for _ in 0..4 {
        b.cursor_index = bwd.range(&b).unwrap().end;
        backward_points.push(b.cursor_index);
    }
    backward_points.reverse();
    assert_eq!(forward_points, backward_points);
}

#[test]
fn counted_motion_applies_steps_in_sequence() {
    let b = create_word_test_buffer();
    let mo = Motion { object: TextObject::Word(Direction::Forward), count: 3, modifier: TextObjectMod::NoModifier };
    assert_eq!(mo.range(&b).unwrap(), 0..11);
    let mo = Motion { object: TextObject::BigWord(Direction::Forward), count: 2, modifier: TextObjectMod::NoModifier };
    assert_eq!(mo.range(&b).unwrap(), 0..10);
    let mo = Motion { object: TextObject::Char(Direction::Forward), count: 0, modifier: TextObjectMod::NoModifier };
    assert_eq!(mo.range(&b).unwrap(), 0..0);
}

#[test]
fn char_motions_stay_inside_the_buffer() {
    let mut b = Buffer::with_text("ab");
    let back = motion(TextObject::Char(Direction::Backward));
    assert_eq!(back.range(&b).unwrap(), 0..0);
    b.cursor_index = 2;
    let fwd = motion(TextObject::Char(Direction::Forward));
    assert_eq!(fwd.range(&b).unwrap(), 2..2);
}

#[test]
fn line_motion_keeps_the_column_and_clamps_it() {
    let mut b = Buffer::with_text("abcdef\nxy\nlonger line\n");
    b.cursor_index = 4;
    assert_eq!(b.current_column(), 4);
    let down = Motion { object: TextObject::Line(Direction::Forward), count: 2, modifier: TextObjectMod::NoModifier };
    assert_eq!(down.range(&b).unwrap(), 4..14);
    let down = motion(TextObject::Line(Direction::Forward));
    assert_eq!(down.range(&b).unwrap(), 4..9);
    b.cursor_index = 13;
    let up = motion(TextObject::Line(Direction::Backward));
    assert_eq!(up.range(&b).unwrap(), 13..9);
}

#[test]
fn start_of_line_skips_leading_blanks() {
    let mut b = Buffer::with_text("x\n   indented\n");
    b.cursor_index = 9;
    let mo = motion(TextObject::StartOfLine);
    assert_eq!(mo.range(&b).unwrap(), 9..5);
}

#[test]
fn word_backward_stops_at_the_start_of_a_punctuation_run() {
    let mut b = Buffer::with_text(" +b");
    b.cursor_index = 2;
    let mo = motion(TextObject::Word(Direction::Backward));
    assert_eq!(mo.range(&b).unwrap().end, 1);
    let mut b = Buffer::with_text("   x");
    b.cursor_index = 3;
    assert_eq!(mo.range(&b).unwrap().end, 0);
}

#[test]
fn end_of_word_at_the_end_of_the_buffer() {
    let mut b = Buffer::with_text("ab  ");
    b.cursor_index = 1;
    let mo = motion(TextObject::EndOfWord(Direction::Forward));
    assert_eq!(mo.range(&b).unwrap().end, 3);
    b.cursor_index = 4;
    assert_eq!(mo.range(&b).unwrap().end, 0);
    let mut b = Buffer::with_text("  ab");
    b.cursor_index = 2;
    let mo = motion(TextObject::EndOfWord(Direction::Backward));
    assert_eq!(mo.range(&b).unwrap().end, 0);
}

#[test]
fn next_char_searches() {
    let mut b = Buffer::with_text("a,b,c,d");
    b.cursor_index = 2;
    let f = motion(TextObject::NextChar { c: ',', place_before: false, direction: Direction::Forward });
    assert_eq!(f.range(&b).unwrap().end, 3);
    let t = motion(TextObject::NextChar { c: ',', place_before: true, direction: Direction::Forward });
    assert_eq!(t.range(&b).unwrap().end, 2);
    let big_f = motion(TextObject::NextChar { c: 'a', place_before: false, direction: Direction::Backward });
    assert_eq!(big_f.range(&b).unwrap().end, 0);
    let big_t = motion(TextObject::NextChar { c: 'a', place_before: true, direction: Direction::Backward });
    assert_eq!(big_t.range(&b).unwrap().end, 1);
    let missing = motion(TextObject::NextChar { c: 'z', place_before: false, direction: Direction::Forward });
    assert_eq!(missing.range(&b).unwrap().end, 2);
    let f2 = Motion { object: TextObject::NextChar { c: ',', place_before: false, direction: Direction::Forward }, count: 2, modifier: TextObjectMod::NoModifier };
    assert_eq!(f2.range(&b).unwrap().end, 5);
}

#[test]
fn unsupported_motions_are_reported() {
    let b = create_line_test_buffer();
    for object in [TextObject::WholeLine, TextObject::Paragraph, TextObject::RepeatNextChar { opposite: true }] {
        let mo = motion(object);
        assert!(!mo.is_supported());
        assert_eq!(mo.range(&b), Err(pk_common::command::Error::UnsupportedMotion(object)));
    }
}

#[test]
fn classes_follow_unicode_properties() {
    assert_eq!(class('\u{2003}'), CharClass::Whitespace);
    assert_eq!(class('\n'), CharClass::Whitespace);
    assert_eq!(class('é'), CharClass::Regular);
    assert_eq!(class('7'), CharClass::Regular);
    assert_eq!(class('_'), CharClass::Regular);
    assert_eq!(class('#'), CharClass::Punctuation);
}

#[test]
fn word_motion_treats_unicode_letters_as_word_characters() {
    let b = Buffer::with_text("été+x");
    let mo = motion(TextObject::Word(Direction::Forward));
    assert_eq!(mo.range(&b).unwrap().end, 3);
}

#[test]
fn buffer_line_queries() {
    let mut b = Buffer::with_text("abc\ndef\nghi");
    assert_eq!(b.next_line_index(5), 8);
    assert_eq!(b.next_line_index(9), 11);
    assert_eq!(b.current_start_of_line(6), 4);
    assert_eq!(b.current_start_of_line(3), 0);
    assert_eq!(b.last_line_index(9), 4);
    assert_eq!(b.last_line_index(2), 0);
    b.cursor_index = 10;
    assert_eq!(b.current_column(), 2);
    assert_eq!(b.index_of('\n', 4), Some(7));
    assert_eq!(b.char_at(11), None);
}
