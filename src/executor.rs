//! Execution of parsed commands against a buffer.
use vstd::prelude::*;
use crate::buffer::Buffer;
use crate::command::{Command, Error, ModeTag, Motion};
use crate::motion::{steps, supported};

verus! {

/// Where `mo` takes the cursor of `buf`.
pub open spec fn resolved_end(buf: Buffer, mo: Motion) -> int {
    steps(buf.text@, buf.cursor_index as int, mo.object, buf.column_spec(), mo.count as nat)
}

/// What executing `cmd` returns where its motion is supported.
pub open spec fn outcome(cmd: Command) -> Option<ModeTag> {
    match cmd {
        Command::ChangeMode(m) => Some(m),
        _ => None,
    }
}

/// The motion that executing `cmd` resolves, if any.
pub open spec fn motion_of(cmd: Command) -> Option<Motion> {
    match cmd {
        Command::Move(mo) => Some(mo),
        Command::Edit { mo, .. } => Some(mo),
        Command::ChangeMode(_) => None,
    }
}

/// Whether the command's motion, if it has one, is supported by resolution.
pub open spec fn executable(cmd: Command) -> bool {
    match motion_of(cmd) {
        Some(mo) => supported(mo.object),
        None => true,
    }
}

impl Command {
    /// Applies the command to the buffer. A move sets the cursor to the end of its range; an
    /// edit resolves its motion and leaves the text and cursor to the layer that performs the
    /// operator; a mode change returns the new mode. A motion that resolution does not
    /// support fails and changes nothing.
    pub fn execute(&self, buf: &mut Buffer) -> (r: Result<Option<ModeTag>, Error>)
        requires
            old(buf).wf(),
        ensures
            final(buf).wf(),
            final(buf).text@ == old(buf).text@,
            executable(*self) ==> r == Ok::<Option<ModeTag>, Error>(outcome(*self)),
            !executable(*self) ==> r == Err::<Option<ModeTag>, Error>(
                Error::UnsupportedMotion(motion_of(*self)->0.object),
            ),
            final(buf).cursor_index == match *self {
                Command::Move(mo) => if supported(mo.object) {
                    resolved_end(*old(buf), mo)
                } else {
                    old(buf).cursor_index as int
                },
                _ => old(buf).cursor_index as int,
            },
    {
        match self {
            Command::Move(mo) => {
                let rg = match mo.range(buf) {
                    Ok(rg) => rg,
                    Err(e) => return Err(e),
                };
                buf.cursor_index = rg.end;
                Ok(None)
            },
            Command::Edit { mo, .. } => {
                match mo.range(buf) {
                    Ok(_) => Ok(None),
                    Err(e) => Err(e),
                }
            },
            Command::ChangeMode(mode) => Ok(Some(*mode)),
        }
    }
}

} // verus!
