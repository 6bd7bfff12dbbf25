//! Core editing engine of a modal terminal text editor.
//!
//! * [`data`] holds the document: a piece-table text buffer
//!   ([`data::piece_table`]), the geometry of its lines and words
//!   ([`data::text`], [`data::lines`]) and the session with its cursor
//!   ([`data::editor_state`]).
//! * [`controller`] reads keystrokes: the expression grammar of navigate
//!   mode, the command line, and the rule that the active mode picks the
//!   handler.
//! * [`view`] composes what a terminal shows of a session, as text.
//! * [`editor_state`], [`editor_view`], [`context`], [`editor_api`] and
//!   [`widget`] are a second, line-based model of a document with its
//!   window and widgets.
//!
//! The library reads no keys, paints nothing and touches no file: a host
//! hands it classified input events and plain text, and does what the
//! library asks for in return.

pub mod context;
pub mod controller;
pub mod data;
pub mod editor_api;
pub mod editor_state;
pub mod editor_view;
pub mod view;
pub mod widget;
