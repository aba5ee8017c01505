//! The core of a terminal text editor: a line-indexed text buffer, a cursor
//! that edits it, and a viewport that follows the cursor.
//!
//! - [`lines`]: what the lines of a text are, and how edits move them.
//! - [`buffer`]: the text buffer, a rope read by offset and by line.
//! - [`model`]: the editing operations as functions, and what holds of them.
//! - [`editor`]: the cursor and the viewport on a buffer.
//! - [`order`], [`file_explorer`]: the directory tree beside the editor.
//! - [`session`]: the open files and what a key means to the whole.
//! - [`rope`], [`std_ext`]: what is taken on trust from outside.

pub mod buffer;
pub mod editor;
pub mod file_explorer;
pub mod lines;
pub mod model;
pub mod order;
pub mod position;
pub mod rope;
pub mod session;
pub mod std_ext;
