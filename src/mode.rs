//! The decisions of normal mode: keystrokes accumulate in a pending buffer that is parsed
//! after every key; a complete command runs at once, an incomplete one waits for more keys,
//! and any other error clears the pending keys.
use vstd::prelude::*;
use crate::buffer::Buffer;
use crate::command::{Command, Error, ModeTag, ParseFailure, command_of, error_is};
use crate::executor::{executable, motion_of, outcome, resolved_end};

verus! {

/// Relies on `String::push`: appends the character at the end of the string.
#[verifier::external_body]
fn push_char(s: &mut String, c: char)
    ensures
        final(s)@ == old(s)@.push(c),
{
    s.push(c)
}

/// Control characters (general category Cc): U+0000 to U+001F and U+007F to U+009F.
pub open spec fn control_char(c: char) -> bool {
    (c as u32) <= 0x1F || (0x7F <= (c as u32) && (c as u32) <= 0x9F)
}

pub fn is_control(c: char) -> (r: bool)
    ensures
        r == control_char(c),
{
    let u = c as u32;
    u <= 0x1F || (0x7F <= u && u <= 0x9F)
}

/// An input event, as far as normal mode tells events apart.
#[derive(Debug, Clone, Copy, PartialEq, Eq, Structural)]
pub enum KeyEvent {
    /// The modifier keys changed; `ctrl` tells whether Control is held.
    ModifiersChanged { ctrl: bool },
    /// The escape key.
    Escape,
    /// The `E` key pressed as a key, which with Control opens the message list.
    KeyE,
    /// A character typed.
    Character(char),
    /// Anything else.
    Other,
}

/// What the editor should do after an event in normal mode.
#[derive(Debug, Clone, Copy, PartialEq, Eq, Structural)]
pub enum Transition {
    /// Stay in normal mode.
    Stay,
    /// Switch to the given mode.
    Enter(ModeTag),
    /// Switch to the interaction with user messages.
    MessageInteraction,
}

/// The transition for what an executed command returned.
pub open spec fn transition_for(m: Option<ModeTag>) -> Transition {
    match m {
        None => Transition::Stay,
        Some(ModeTag::Normal) => Transition::Stay,
        Some(m) => Transition::Enter(m),
    }
}

pub struct NormalMode {
    pub pending_buf: String,
    pub ctrl_pressed: bool,
}

impl NormalMode {
    pub fn new() -> (r: NormalMode)
        ensures
            r.pending_buf@ == Seq::<char>::empty(),
            !r.ctrl_pressed,
    {
        NormalMode { pending_buf: String::new(), ctrl_pressed: false }
    }

    pub fn mode_tag(&self) -> (r: ModeTag)
        ensures
            r == ModeTag::Normal,
    {
        ModeTag::Normal
    }

    /// Handles one event. A typed character that is not a control character joins the
    /// pending keys, which are then parsed: an incomplete command keeps them; a complete
    /// one clears them and is executed on the buffer; any other error clears them and is
    /// returned.
    pub fn event(&mut self, e: KeyEvent, buf: &mut Buffer) -> (r: Result<Transition, Error>)
        requires
            old(buf).wf(),
        ensures
            final(buf).wf(),
            final(buf).text@ == old(buf).text@,
            match e {
                KeyEvent::ModifiersChanged { ctrl } => final(self).ctrl_pressed == ctrl
                    && final(self).pending_buf@ == old(self).pending_buf@
                    && final(buf).cursor_index == old(buf).cursor_index
                    && r == Ok::<Transition, Error>(Transition::Stay),
                KeyEvent::Escape => final(self).ctrl_pressed == old(self).ctrl_pressed
                    && final(self).pending_buf@ == Seq::<char>::empty()
                    && final(buf).cursor_index == old(buf).cursor_index
                    && r == Ok::<Transition, Error>(Transition::Stay),
                KeyEvent::KeyE => final(self).ctrl_pressed == old(self).ctrl_pressed
                    && final(self).pending_buf@ == old(self).pending_buf@
                    && final(buf).cursor_index == old(buf).cursor_index
                    && r == Ok::<Transition, Error>(
                    if old(self).ctrl_pressed {
                        Transition::MessageInteraction
                    } else {
                        Transition::Stay
                    },
                ),
                KeyEvent::Character(c) => final(self).ctrl_pressed == old(self).ctrl_pressed && (
                if control_char(c) {
                    final(self).pending_buf@ == old(self).pending_buf@
                        && final(buf).cursor_index == old(buf).cursor_index
                        && r == Ok::<Transition, Error>(Transition::Stay)
                } else {
                    let keys = old(self).pending_buf@.push(c);
                    match command_of(keys) {
                        Err(ParseFailure::Incomplete) => final(self).pending_buf@ == keys
                            && final(buf).cursor_index == old(buf).cursor_index
                            && r == Ok::<Transition, Error>(Transition::Stay),
                        Err(f) => final(self).pending_buf@ == Seq::<char>::empty()
                            && final(buf).cursor_index == old(buf).cursor_index
                            && (r matches Err(err) && error_is(err, f, keys)),
                        Ok(cmd) => final(self).pending_buf@ == Seq::<char>::empty() && (
                        if executable(cmd) {
                            r == Ok::<Transition, Error>(transition_for(outcome(cmd)))
                                && final(buf).cursor_index == match cmd {
                                Command::Move(mo) => resolved_end(*old(buf), mo),
                                _ => old(buf).cursor_index as int,
                            }
                        } else {
                            r == Err::<Transition, Error>(
                                Error::UnsupportedMotion(motion_of(cmd)->0.object),
                            ) && final(buf).cursor_index == old(buf).cursor_index
                        }),
                    }
                }),
                KeyEvent::Other => final(self).ctrl_pressed == old(self).ctrl_pressed
                    && final(self).pending_buf@ == old(self).pending_buf@
                    && final(buf).cursor_index == old(buf).cursor_index
                    && r == Ok::<Transition, Error>(Transition::Stay),
            },
    {
        match e {
            KeyEvent::ModifiersChanged { ctrl } => {
                self.ctrl_pressed = ctrl;
                Ok(Transition::Stay)
            },
            KeyEvent::Escape => {
                self.pending_buf = String::new();
                Ok(Transition::Stay)
            },
            KeyEvent::KeyE => {
                if self.ctrl_pressed {
                    Ok(Transition::MessageInteraction)
                } else {
                    Ok(Transition::Stay)
                }
            },
            KeyEvent::Character(c) => {
                if is_control(c) {
                    return Ok(Transition::Stay);
                }
                push_char(&mut self.pending_buf, c);
                let cmd = match Command::parse(self.pending_buf.as_str()) {
                    Ok(cmd) => cmd,
                    Err(Error::IncompleteCommand) => return Ok(Transition::Stay),
                    Err(err) => {
                        self.pending_buf = String::new();
                        return Err(err);
                    },
                };
                self.pending_buf = String::new();
                match cmd.execute(buf) {
                    Ok(None) => Ok(Transition::Stay),
                    Ok(Some(ModeTag::Normal)) => Ok(Transition::Stay),
                    Ok(Some(m)) => Ok(Transition::Enter(m)),
                    Err(err) => Err(err),
                }
            },
            KeyEvent::Other => Ok(Transition::Stay),
        }
    }
}

} // verus!
