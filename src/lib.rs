//! A modal keystroke interpreter: a grammar parser that turns pending keystrokes
//! into editing commands, and a motion resolver that turns a motion and a cursor
//! into a range of character indices inside a text buffer.
pub mod chars;
pub mod buffer;
pub mod command;
pub mod motion;
pub mod executor;
pub mod mode;
pub mod laws;
pub mod line_command;
