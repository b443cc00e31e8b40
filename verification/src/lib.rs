//! A small personal note book: an ordered collection of numbered notes,
//! the commands that act on it, and the state machine of its read-only viewer.
//!
//! Every function here works on plain values. Reading and writing the
//! store file, parsing arguments and driving the terminal are left to the
//! program built around this library.

pub mod text;
pub mod note;
pub mod laws;
pub mod command;
pub mod viewer;
