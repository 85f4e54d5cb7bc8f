//! A command-line debugger for one traced child process (the inferior).
//!
//! [`session::Debugger`] holds what the debugger remembers. Its `get_next_command` decides what
//! becomes of a line that the user typed, its `run` what becomes of a command and of the news
//! from the inferior. [`answers`] states what each step keeps to, [`laws`] what every session does.
pub mod answers;
pub mod command;
pub mod laws;
pub mod prompt;
pub mod session;
