//! The keystroke interpreter: input events, the expression grammar of
//! navigate mode, and the handlers of the three modes.

pub mod commands;
pub mod composition;
pub mod events;
pub mod input;
pub mod util;
