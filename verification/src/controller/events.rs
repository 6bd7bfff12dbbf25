//! Input events as the interpreter sees them, what handling them leaves for
//! the host to do, and the multiplexer that hands each event to the handler
//! of the active mode.

use vstd::prelude::*;
use crate::controller::input::{
    command_requests, navigate_effect, navigate_requests, next_expr_state, settled,
    CommandModeInputHandler, ExprStateView, InsertModeInputHandler, ModeInputHandler,
    NavigateModeInputHandler,
};
use crate::data::editor_state::{EditorModel, EditorState, Mode, StateApi};

verus! {

/// One classified keystroke. The host maps whatever its terminal library
/// reports to one of these; keys the editor has no use for become `Other`.
#[derive(Debug, Clone, Copy, PartialEq, Eq)]
pub enum InputEvent {
    /// A printable character, Enter (`'\n'`) and Tab included.
    Char(char),
    Left,
    Right,
    Up,
    Down,
    /// Any other key, mouse event or escape sequence.
    Other,
}

/// What the session asks its host to do once an input has been handled.
/// The library performs neither: it has no file and no process to end.
#[derive(Debug, Clone, Copy, PartialEq, Eq)]
pub enum EditorRequest {
    /// Write the document to its file.
    SaveFile,
    /// End the program.
    Quit,
}

/// The three mode handlers of a session, and the rule that the active mode
/// picks the one that gets the input.
pub struct InputModeMultiplexer {
    navigate: NavigateModeInputHandler,
    command: CommandModeInputHandler,
    insert: InsertModeInputHandler,
}

impl InputModeMultiplexer {
    /// The handler of navigate mode.
    pub closed spec fn navigate_handler(&self) -> NavigateModeInputHandler {
        self.navigate
    }

    /// The handler of command mode.
    pub closed spec fn command_handler(&self) -> CommandModeInputHandler {
        self.command
    }

    /// The handler of insert mode.
    pub closed spec fn insert_handler(&self) -> InsertModeInputHandler {
        self.insert
    }

    /// The input that the handler of `mode` has collected.
    pub open spec fn buffer_of(&self, mode: Mode) -> Seq<char> {
        match mode {
            Mode::Navigate => self.navigate_handler().input_buffer(),
            Mode::Command => self.command_handler().input_buffer(),
            Mode::Insert => self.insert_handler().input_buffer(),
        }
    }

    /// One fresh handler for each mode.
    pub fn new() -> (multiplexer: InputModeMultiplexer)
        ensures
            multiplexer.navigate_handler().expression() == ExprStateView::Waiting,
            multiplexer.buffer_of(Mode::Navigate) == Seq::<char>::empty(),
            multiplexer.buffer_of(Mode::Command) == Seq::<char>::empty(),
            multiplexer.buffer_of(Mode::Insert) == Seq::<char>::empty(),
    {
        InputModeMultiplexer {
            navigate: NavigateModeInputHandler::new(),
            command: CommandModeInputHandler::new(),
            insert: InsertModeInputHandler::new(),
        }
    }

    /// The input collected by the handler of the active mode.
    pub fn get_command_buffer(&self, state: &EditorState) -> (buffer: &Vec<char>)
        ensures
            buffer@ == self.buffer_of(state@.mode),
    {
        match state.get_mode() {
            Mode::Navigate => self.navigate.get_input_buffer(),
            Mode::Command => self.command.get_input_buffer(),
            Mode::Insert => self.insert.get_input_buffer(),
        }
    }

    /// Hands `event` to the handler of the active mode, shows on the session
    /// what that handler has collected, and says what is left for the host
    /// to do.
    pub fn do_action_for_input(&mut self, event: InputEvent, state: &mut EditorState) -> (requests:
        Vec<EditorRequest>)
        requires
            old(state).wf(),
        ensures
            final(state).wf(),
            final(state)@.mode_input_buffer == final(self).buffer_of(old(state)@.mode),
            old(state)@.mode == Mode::Navigate ==> {
                let before = old(self).navigate_handler().expression();
                &&& final(self).navigate_handler().expression() == settled(
                    next_expr_state(before, event),
                )
                &&& final(self).buffer_of(Mode::Navigate) == old(self).buffer_of(Mode::Navigate)
                &&& final(self).command_handler() == old(self).command_handler()
                &&& final(self).insert_handler() == old(self).insert_handler()
                &&& requests@ == navigate_requests(before, event)
                &&& final(state)@ == (EditorModel {
                    mode_input_buffer: old(self).buffer_of(Mode::Navigate),
                    ..navigate_effect(before, event, old(state)@)
                })
            },
            old(state)@.mode == Mode::Command ==> {
                let line = old(self).buffer_of(Mode::Command);
                &&& final(self).navigate_handler() == old(self).navigate_handler()
                &&& final(self).insert_handler() == old(self).insert_handler()
                &&& event == InputEvent::Char('\n') ==> {
                    &&& requests@ == command_requests(line)
                    &&& final(self).buffer_of(Mode::Command) == Seq::<char>::empty()
                    &&& final(state)@ == (EditorModel {
                        mode: Mode::Navigate,
                        mode_input_buffer: Seq::<char>::empty(),
                        ..old(state)@
                    })
                }
                &&& event != InputEvent::Char('\n') ==> {
                    &&& requests@ == Seq::<EditorRequest>::empty()
                    &&& final(self).buffer_of(Mode::Command) == match event {
                        InputEvent::Char(ch) => line.push(ch),
                        _ => line,
                    }
                    &&& final(state)@ == (EditorModel {
                        mode_input_buffer: final(self).buffer_of(Mode::Command),
                        ..old(state)@
                    })
                }
            },
            old(state)@.mode == Mode::Insert ==> {
                &&& final(self).navigate_handler() == old(self).navigate_handler()
                &&& final(self).command_handler() == old(self).command_handler()
                &&& final(self).buffer_of(Mode::Insert) == old(self).buffer_of(Mode::Insert)
                &&& requests@ == Seq::<EditorRequest>::empty()
                &&& final(state)@ == (EditorModel {
                    mode_input_buffer: old(self).buffer_of(Mode::Insert),
                    ..old(state)@
                })
            },
    {
        let mode = *state.get_mode();
        match mode {
            Mode::Navigate => {
                let requests = self.navigate.handle_input(event, state);
                state.set_mode_input_buffer(copy_of(self.navigate.get_input_buffer()));
                requests
            },
            Mode::Command => {
                let requests = self.command.handle_input(event, state);
                state.set_mode_input_buffer(copy_of(self.command.get_input_buffer()));
                requests
            },
            Mode::Insert => {
                let requests = self.insert.handle_input(event, state);
                state.set_mode_input_buffer(copy_of(self.insert.get_input_buffer()));
                requests
            },
        }
    }
}

/// A copy of `buffer`.
fn copy_of(buffer: &Vec<char>) -> (copy: Vec<char>)
    ensures
        copy@ == buffer@,
{
    let mut copy: Vec<char> = Vec::new();
    let mut k: usize = 0;
    while k < buffer.len()
        invariant
            k <= buffer.len(),
            copy@ == buffer@.take(k as int),
        decreases buffer.len() - k,
    {
        copy.push(buffer[k]);
        k += 1;
        assert(copy@ =~= buffer@.take(k as int));
    }
    assert(buffer@.take(k as int) =~= buffer@);
    copy
}

} // verus!
