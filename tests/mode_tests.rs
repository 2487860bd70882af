use pk_common::buffer::Buffer;
use pk_common::command::{Error, ModeTag, TextObject};
use pk_common::mode::{KeyEvent, NormalMode, Transition};

#[test]
fn pending_keys_wait_for_a_complete_command() {
    let mut m = NormalMode::new();
    let mut b = Buffer::with_text("one two three\n");
    assert_eq!(m.event(KeyEvent::Character('2'), &mut b), Ok(Transition::Stay));
    assert_eq!(m.pending_buf, "2");
    assert_eq!(m.event(KeyEvent::Character('w'), &mut b), Ok(Transition::Stay));
    assert_eq!(m.pending_buf, "");
    assert_eq!(b.cursor_index, 8);
}

#[test]
fn errors_clear_the_pending_keys() {
    let mut m = NormalMode::new();
    let mut b = Buffer::with_text("text\n");
    assert_eq!(m.event(KeyEvent::Character('d'), &mut b), Ok(Transition::Stay));
    assert_eq!(m.event(KeyEvent::Character('Z'), &mut b), Err(Error::UnknownCommand(String::from("dZ"))));
    assert_eq!(m.pending_buf, "");
    assert_eq!(m.event(KeyEvent::Character('d'), &mut b), Ok(Transition::Stay));
    assert_eq!(m.event(KeyEvent::Character('d'), &mut b), Err(Error::UnsupportedMotion(TextObject::WholeLine)));
    assert_eq!(m.pending_buf, "");
}

#[test]
fn mode_changes_and_escape() {
    let mut m = NormalMode::new();
    let mut b = Buffer::with_text("text\n");
    assert_eq!(m.mode_tag(), ModeTag::Normal);
    assert_eq!(m.event(KeyEvent::Character('i'), &mut b), Ok(Transition::Enter(ModeTag::Insert)));
    assert_eq!(m.event(KeyEvent::Character(':'), &mut b), Ok(Transition::Enter(ModeTag::Command)));
    assert_eq!(m.event(KeyEvent::Character('"'), &mut b), Ok(Transition::Stay));
    assert_eq!(m.event(KeyEvent::Escape, &mut b), Ok(Transition::Stay));
    assert_eq!(m.pending_buf, "");
    assert_eq!(m.event(KeyEvent::Character('\u{1b}'), &mut b), Ok(Transition::Stay));
    assert_eq!(m.pending_buf, "");
}

#[test]
fn control_e_opens_the_message_list() {
    let mut m = NormalMode::new();
    let mut b = Buffer::with_text("");
    assert_eq!(m.event(KeyEvent::KeyE, &mut b), Ok(Transition::Stay));
    assert_eq!(m.event(KeyEvent::ModifiersChanged { ctrl: true }, &mut b), Ok(Transition::Stay));
    assert_eq!(m.event(KeyEvent::KeyE, &mut b), Ok(Transition::MessageInteraction));
    assert_eq!(m.event(KeyEvent::Other, &mut b), Ok(Transition::Stay));
}
