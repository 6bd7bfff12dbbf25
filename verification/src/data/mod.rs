//! The document: its text buffer and the session state that owns it.

pub mod chars;
pub mod editor_state;
pub mod lines;
pub mod piece_table;
pub mod pieces;
pub mod text;
