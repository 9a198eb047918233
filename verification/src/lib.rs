//! The verified core of a small modal text editor for the terminal.
//!
//! The editor state, the effect of every key, the per-frame bookkeeping,
//! loading and saving a buffer and the composition of a screen frame live
//! here; the terminal and the file system are handled by the program around it.

pub mod edit_laws;
pub mod editor;
pub mod frame_laws;
pub mod keys;
pub mod laws;
pub mod model;
pub mod screen;
pub mod terminal;
pub mod text;
pub mod wrap;
