//! What the terminal shows of a session, as text: the host only has to
//! write it out.

pub mod layout;
pub mod terminal;
