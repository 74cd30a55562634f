//! Cursor-anchored command resolution and insertion for an editor of markup
//! source.
//!
//! Given a text buffer and a cursor, the library decides whether the cursor
//! stands in or right behind a command of the form `\name{argument}`, parses
//! that command, decides whether a new reference key can join it, and either
//! changes the command in place or inserts a new one.
//!
//! - [`buffer`] models the text buffer: characters, a cursor and a selection.
//! - [`scan`] looks left and right of the cursor for the bounds of a command.
//! - [`command`] holds the grammar of a command and its parser.
//! - [`resolve`] combines the two scans and the parser.
//! - [`merge`] decides whether a command takes one more reference key.
//! - [`editor`] holds the operations that the editor's buttons start.
//! - [`laws`] states what holds of all of them on every input.
//! - [`chars`] and [`text`] hold character classes and string conversions.

pub mod buffer;
pub mod chars;
pub mod command;
pub mod editor;
pub mod laws;
pub mod merge;
pub mod resolve;
pub mod scan;
pub mod text;
