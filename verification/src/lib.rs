//! A session engine for an interactive command shell.
//!
//! The engine keeps a bounded transcript, an editable input line with cursor,
//! a command history with recall, and an autocomplete state.  It decides what
//! each key press and each submitted line does, and asks its host to perform
//! whatever needs the operating system: looking up a directory, running a
//! program, asking for the current branch.  The host hands the outcome back
//! and the engine finishes the step.

pub mod chars;
pub mod complete;
pub mod dispatch;
pub mod editor;
pub mod history;
pub mod host;
pub mod prompt;
pub mod session;
pub mod terminal;
pub mod text;
pub mod transcript;
