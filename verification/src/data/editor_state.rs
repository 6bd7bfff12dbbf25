//! The editing session: one document, one cursor, the active mode and what
//! the status bar shows of the pending input.
//!
//! The cursor is a single offset into the document. Line and column are
//! derived from it on demand and never stored.

use vstd::prelude::*;
use crate::controller::input::{ExprState, ExprStateView};
use crate::data::piece_table::PieceTable;
use crate::data::text::{
    after_dec, after_end_of_line, after_inc, after_line_down, after_line_up, after_next_word,
    after_prev_word, after_start_of_line, column_of, count_newlines_before, end_of_line_from,
    find_line_start, find_word_start, last_offset, least, lemma_line_start,
    has_line_start, lemma_motions_stay_in_range, line_down_from, line_end, line_offset,
    line_up_from, line_views, lines_of, newlines_before, next_word_from, position_offset,
};
use crate::data::chars::string_of;

verus! {

/// The grammar by which keystrokes are read.
#[derive(Eq, PartialEq, Hash, Debug, Clone, Copy)]
pub enum Mode {
    /// Keys move the cursor.
    Navigate,
    /// Keys are collected into a command line that Enter runs.
    Command,
    /// Keys are text.
    Insert,
}

impl Mode {
    /// The name of the mode, as the status bar shows it.
    pub fn name(&self) -> (name: &'static str)
        ensures
            name@ == match *self {
                Mode::Navigate => "Navigate"@,
                Mode::Command => "Command"@,
                Mode::Insert => "Insert"@,
            },
    {
        match self {
            Mode::Navigate => "Navigate",
            Mode::Command => "Command",
            Mode::Insert => "Insert",
        }
    }
}

/// Where the cursor stands in the text: `x` is the column and `y` the line,
/// both counted from 0.
#[derive(Debug)]
pub struct CursorPosition {
    pub x: usize,
    pub y: usize,
}

/// The mathematical content of an [`EditorState`].
pub struct EditorModel {
    pub file_name: Seq<char>,
    pub mode: Mode,
    pub cursor: int,
    pub text: Seq<char>,
    pub mode_input_buffer: Seq<char>,
    pub expression_state: ExprStateView,
}

/// The state of one editing session.
pub struct EditorState {
    file_name: String,
    mode: Mode,
    cursor_index: usize,
    piece_table: PieceTable,
    mode_input_buffer: Vec<char>,
    expression_state: ExprState,
}

impl View for EditorState {
    type V = EditorModel;

    closed spec fn view(&self) -> EditorModel {
        EditorModel {
            file_name: self.file_name@,
            mode: self.mode,
            cursor: self.cursor_index as int,
            text: self.piece_table@,
            mode_input_buffer: self.mode_input_buffer@,
            expression_state: self.expression_state@,
        }
    }
}

/// What the interpreter and the view may ask of a session.
pub trait StateApi {
    /// The document is well formed and the cursor stands inside it.
    spec fn wf(&self) -> bool;

    /// The session as a mathematical value.
    spec fn model(&self) -> EditorModel;

    /// The active mode.
    fn get_mode(&self) -> (mode: &Mode)
        ensures
            *mode == self.model().mode,
    ;

    /// The pending input of the active mode, for the status bar.
    fn get_mode_input_buffer(&self) -> (buffer: &Vec<char>)
        ensures
            buffer@ == self.model().mode_input_buffer,
    ;

    /// The name of the file being edited.
    fn get_active_file_name(&self) -> (name: &str)
        ensures
            name@ == self.model().file_name,
    ;

    /// The lines of the document, without their separators.
    fn get_editor_lines(&self) -> (lines: Vec<String>)
        requires
            self.wf(),
        ensures
            line_views(lines@) == lines_of(self.model().text),
    ;

    /// The number of characters in the document.
    fn get_file_length_in_chars(&self) -> (length: usize)
        requires
            self.wf(),
        ensures
            length == self.model().text.len(),
    ;

    /// The line and column of the cursor: the number of separators before
    /// it, and its distance from the start of its line.
    fn get_cursor_position(&self) -> (position: CursorPosition)
        requires
            self.wf(),
        ensures
            position.x == column_of(self.model().text, self.model().cursor),
            position.y == newlines_before(self.model().text, self.model().cursor),
    ;

    /// Puts the cursor on offset `new_index`, or on the last character if
    /// the text is shorter.
    fn set_cursor_index(&mut self, new_index: usize)
        requires
            old(self).wf(),
        ensures
            final(self).wf(),
            final(self).model() == (EditorModel {
                cursor: least(new_index as int, last_offset(old(self).model().text)),
                ..old(self).model()
            }),
    ;

    /// Puts the cursor on the last character.
    fn cursor_to_eof(&mut self)
        requires
            old(self).wf(),
        ensures
            final(self).wf(),
            final(self).model() == (EditorModel {
                cursor: last_offset(old(self).model().text),
                ..old(self).model()
            }),
    ;

    /// One character forward; stays on the last character.
    fn inc_cursor(&mut self)
        requires
            old(self).wf(),
        ensures
            final(self).wf(),
            final(self).model() == (EditorModel {
                cursor: after_inc(old(self).model().text, old(self).model().cursor),
                ..old(self).model()
            }),
    ;

    /// One character back; stays on the first character.
    fn dec_cursor(&mut self)
        requires
            old(self).wf(),
        ensures
            final(self).wf(),
            final(self).model() == (EditorModel {
                cursor: after_dec(old(self).model().text, old(self).model().cursor),
                ..old(self).model()
            }),
    ;

    /// One line down in the same column, or at the end of a shorter line;
    /// from the last line, to the end of the text.
    fn cursor_line_down(&mut self)
        requires
            old(self).wf(),
        ensures
            final(self).wf(),
            final(self).model() == (EditorModel {
                cursor: after_line_down(old(self).model().text, old(self).model().cursor),
                ..old(self).model()
            }),
    ;

    /// One line up in the same column, or at the end of a shorter line; from
    /// the first line, to the start of the text.
    fn cursor_line_up(&mut self)
        requires
            old(self).wf(),
        ensures
            final(self).wf(),
            final(self).model() == (EditorModel {
                cursor: after_line_up(old(self).model().text, old(self).model().cursor),
                ..old(self).model()
            }),
    ;

    /// Past the word under the cursor and the white space that ends it.
    fn cursor_start_next_word(&mut self)
        requires
            old(self).wf(),
        ensures
            final(self).wf(),
            final(self).model() == (EditorModel {
                cursor: after_next_word(old(self).model().text, old(self).model().cursor),
                ..old(self).model()
            }),
    ;

    /// Back to just after the nearest white space before the cursor.
    fn cursor_start_prev_word(&mut self)
        requires
            old(self).wf(),
        ensures
            final(self).wf(),
            final(self).model() == (EditorModel {
                cursor: after_prev_word(old(self).model().text, old(self).model().cursor),
                ..old(self).model()
            }),
    ;

    /// To the first column of the cursor's line.
    fn cursor_start_of_line(&mut self)
        requires
            old(self).wf(),
        ensures
            final(self).wf(),
            final(self).model() == (EditorModel {
                cursor: after_start_of_line(old(self).model().text, old(self).model().cursor),
                ..old(self).model()
            }),
    ;

    /// To the separator that ends the cursor's line.
    fn cursor_end_of_line(&mut self)
        requires
            old(self).wf(),
        ensures
            final(self).wf(),
            final(self).model() == (EditorModel {
                cursor: after_end_of_line(old(self).model().text, old(self).model().cursor),
                ..old(self).model()
            }),
    ;
}

impl EditorState {
    /// A session on `piece_table` with nothing pending. A cursor index past
    /// the last character is put on the last character.
    pub fn new(
        file_name: String,
        mode: Mode,
        cursor_index: usize,
        piece_table: PieceTable,
        mode_input_buffer: Vec<char>,
    ) -> (state: Self)
        requires
            piece_table.wf(),
        ensures
            state.wf(),
            state@ == (EditorModel {
                file_name: file_name@,
                mode,
                cursor: least(cursor_index as int, last_offset(piece_table@)),
                text: piece_table@,
                mode_input_buffer: mode_input_buffer@,
                expression_state: ExprStateView::Waiting,
            }),
    {
        let length = piece_table.char_count();
        let last = if length == 0 {
            0
        } else {
            length - 1
        };
        let cursor_index = if cursor_index <= last {
            cursor_index
        } else {
            last
        };
        let expression_state = ExprState::Waiting;
        EditorState {
            file_name,
            mode,
            cursor_index,
            piece_table,
            mode_input_buffer,
            expression_state,
        }
    }

    /// Makes `new_mode` the active mode.
    pub fn set_mode(&mut self, new_mode: Mode)
        ensures
            final(self)@ == (EditorModel { mode: new_mode, ..old(self)@ }),
            old(self).wf() ==> final(self).wf(),
    {
        self.mode = new_mode;
    }

    /// Records where the expression grammar stands, for the status bar.
    pub fn set_expression_state(&mut self, state: ExprState)
        ensures
            final(self)@ == (EditorModel { expression_state: state@, ..old(self)@ }),
            old(self).wf() ==> final(self).wf(),
    {
        self.expression_state = state;
    }

    /// Records the pending input of the active mode, for the status bar.
    pub fn set_mode_input_buffer(&mut self, buffer: Vec<char>)
        ensures
            final(self)@ == (EditorModel { mode_input_buffer: buffer@, ..old(self)@ }),
            old(self).wf() ==> final(self).wf(),
    {
        self.mode_input_buffer = buffer;
    }

    /// Where the expression grammar stands.
    pub fn get_expression_state(&self) -> (state: &ExprState)
        ensures
            state@ == self@.expression_state,
    {
        &self.expression_state
    }

    /// Where the expression grammar stands, in words for the status bar.
    pub fn get_expression_state_description(&self) -> (text: String)
        ensures
            text@ == self@.expression_state.shown(),
    {
        self.expression_state.description()
    }

    /// The cursor of a well-formed session stands inside its text: on a
    /// character, or at offset 0 of an empty text.
    pub proof fn lemma_cursor_in_text(&self)
        requires
            self.wf(),
        ensures
            0 <= self@.cursor <= last_offset(self@.text),
            self@.text.len() <= usize::MAX,
    {
        self.piece_table.lemma_piece_lengths();
    }

    /// The offset of the cursor.
    pub fn get_cursor_index(&self) -> (index: usize)
        ensures
            index == self@.cursor,
    {
        self.cursor_index
    }

    /// The document.
    pub fn get_piece_table(&self) -> (table: &PieceTable)
        ensures
            table@ == self@.text,
            self.wf() ==> table.wf(),
    {
        &self.piece_table
    }

    /// The document as one string, each line with its separator: what a
    /// save writes to the file.
    pub fn get_text(&self) -> (text: String)
        requires
            self.wf(),
        ensures
            text@ == self@.text,
    {
        string_of(&self.piece_table.forward())
    }

    /// The offset of column `col` of line `line`, both counted from 1, if
    /// the document has that place.
    pub fn offset_of(&self, line: usize, col: usize) -> (offset: Option<usize>)
        requires
            self.wf(),
        ensures
            offset is Some == position_offset(self@.text, line as int, col as int) is Some,
            offset is Some ==> offset->Some_0 == position_offset(
                self@.text,
                line as int,
                col as int,
            )->Some_0,
    {
        self.piece_table.offset_of(line, col)
    }

    /// Whether the document and its add buffer have room for `extra` more
    /// characters.
    pub fn has_room_for(&self, extra: usize) -> (room: bool)
        requires
            self.wf(),
        ensures
            room == self.room_for(extra as nat),
    {
        let length = self.piece_table.char_count();
        let added = self.piece_table.added_count();
        extra <= usize::MAX - length && extra <= usize::MAX - added
    }

    /// The document and its add buffer have room for `extra` more
    /// characters.
    pub closed spec fn room_for(&self, extra: nat) -> bool {
        &&& self.piece_table@.len() + extra <= usize::MAX
        &&& self.piece_table.added().len() + extra <= usize::MAX
    }

    /// Puts `ch` at column `col` of line `line`, both counted from 1. The
    /// cursor keeps its offset.
    pub fn insert_char(&mut self, ch: char, line: usize, col: usize)
        requires
            old(self).wf(),
            position_offset(old(self)@.text, line as int, col as int) is Some,
            old(self).room_for(1),
        ensures
            final(self).wf(),
            final(self)@ == (EditorModel {
                text: old(self)@.text.insert(
                    position_offset(old(self)@.text, line as int, col as int)->Some_0,
                    ch,
                ),
                ..old(self)@
            }),
    {
        self.piece_table.insert_char(ch, line, col);
    }

    /// Removes the character before offset `offset`, if there is one. A
    /// cursor that stood on the last character moves back with the text.
    pub fn delete_char_before(&mut self, offset: usize)
        requires
            old(self).wf(),
            offset <= old(self)@.text.len(),
        ensures
            final(self).wf(),
            ({
                let text = if offset == 0 {
                    old(self)@.text
                } else {
                    old(self)@.text.remove(offset - 1)
                };
                final(self)@ == (EditorModel {
                    text,
                    cursor: least(old(self)@.cursor, last_offset(text)),
                    ..old(self)@
                })
            }),
    {
        self.piece_table.delete_char_before(offset);
        self.clamp_cursor();
    }

    /// Puts a new line with the text `initial_content` before line
    /// `line_num`, counted from 1. The cursor keeps its offset.
    pub fn insert_line(&mut self, line_num: usize, initial_content: &str)
        requires
            old(self).wf(),
            line_num >= 1,
            has_line_start(old(self)@.text, (line_num - 1) as nat),
            initial_content@.len() < usize::MAX,
            old(self).room_for(initial_content@.len() + 1),
        ensures
            final(self).wf(),
            ({
                let before = old(self)@.text;
                let start = line_offset(before, (line_num - 1) as nat);
                final(self)@ == (EditorModel {
                    text: before.subrange(0, start) + initial_content@.push('\n')
                        + before.subrange(start, before.len() as int),
                    ..old(self)@
                })
            }),
    {
        self.piece_table.insert_line(line_num, initial_content);
    }

    /// Adds `append_str` to the end of line `line_num`, counted from 1. The
    /// cursor keeps its offset.
    pub fn append_to_line(&mut self, line_num: usize, append_str: &str)
        requires
            old(self).wf(),
            line_num >= 1,
            has_line_start(old(self)@.text, (line_num - 1) as nat),
            old(self).room_for(append_str@.len()),
        ensures
            final(self).wf(),
            ({
                let before = old(self)@.text;
                let end = line_end(before, line_offset(before, (line_num - 1) as nat));
                final(self)@ == (EditorModel {
                    text: before.subrange(0, end) + append_str@ + before.subrange(
                        end,
                        before.len() as int,
                    ),
                    ..old(self)@
                })
            }),
    {
        self.piece_table.append_to_line(line_num, append_str);
    }

    /// Takes line `line_number`, counted from 1, out of the document with
    /// its separator, and hands back its text. A cursor past the new end of
    /// the text moves back to its last character.
    pub fn delete_line(&mut self, line_number: usize) -> (deleted_line: String)
        requires
            old(self).wf(),
            line_number >= 1,
            has_line_start(old(self)@.text, (line_number - 1) as nat),
            line_offset(old(self)@.text, (line_number - 1) as nat) < old(self)@.text.len(),
        ensures
            final(self).wf(),
            ({
                let before = old(self)@.text;
                let start = line_offset(before, (line_number - 1) as nat);
                let end = line_end(before, start);
                let stop = if end < before.len() {
                    end + 1
                } else {
                    end
                };
                let text = before.subrange(0, start) + before.subrange(
                    stop,
                    before.len() as int,
                );
                &&& deleted_line@ == before.subrange(start, end)
                &&& final(self)@ == (EditorModel {
                    text,
                    cursor: least(old(self)@.cursor, last_offset(text)),
                    ..old(self)@
                })
            }),
    {
        let deleted_line = self.piece_table.delete_line(line_number);
        self.clamp_cursor();
        deleted_line
    }

    /// Puts a cursor that is past the last character back on it.
    fn clamp_cursor(&mut self)
        requires
            old(self).piece_table.wf(),
        ensures
            final(self).wf(),
            final(self)@ == (EditorModel {
                cursor: least(old(self)@.cursor, last_offset(old(self)@.text)),
                ..old(self)@
            }),
    {
        let length = self.piece_table.char_count();
        let last = if length == 0 {
            0
        } else {
            length - 1
        };
        if self.cursor_index > last {
            self.cursor_index = last;
        }
    }
}

impl StateApi for EditorState {
    closed spec fn wf(&self) -> bool {
        &&& self.piece_table.wf()
        &&& self.cursor_index <= last_offset(self.piece_table@)
    }

    open spec fn model(&self) -> EditorModel {
        self@
    }

    fn get_mode(&self) -> (mode: &Mode) {
        &self.mode
    }

    fn get_mode_input_buffer(&self) -> (buffer: &Vec<char>) {
        &self.mode_input_buffer
    }

    fn get_active_file_name(&self) -> (name: &str) {
        self.file_name.as_str()
    }

    fn get_editor_lines(&self) -> (lines: Vec<String>) {
        self.piece_table.as_lines()
    }

    fn get_file_length_in_chars(&self) -> (length: usize) {
        self.piece_table.char_count()
    }

    fn get_cursor_position(&self) -> (position: CursorPosition) {
        let text = self.piece_table.forward();
        proof {
            lemma_line_start(text@, self.cursor_index as int);
        }
        let start_of_line = find_line_start(&text, self.cursor_index);
        CursorPosition {
            x: self.cursor_index - start_of_line,
            y: count_newlines_before(&text, self.cursor_index),
        }
    }

    fn set_cursor_index(&mut self, new_index: usize) {
        let length = self.piece_table.char_count();
        let last = if length == 0 {
            0
        } else {
            length - 1
        };
        self.cursor_index = if new_index <= last {
            new_index
        } else {
            last
        };
    }

    fn cursor_to_eof(&mut self) {
        let length = self.piece_table.char_count();
        self.cursor_index = if length == 0 {
            0
        } else {
            length - 1
        };
    }

    fn inc_cursor(&mut self) {
        let length = self.piece_table.char_count();
        if length > 0 && self.cursor_index < length - 1 {
            self.cursor_index += 1;
        }
    }

    fn dec_cursor(&mut self) {
        if self.cursor_index >= 1 {
            self.cursor_index -= 1;
        }
    }

    fn cursor_line_down(&mut self) {
        let text = self.piece_table.forward();
        proof {
            lemma_motions_stay_in_range(text@, self.cursor_index as int);
        }
        self.cursor_index = line_down_from(&text, self.cursor_index);
    }

    fn cursor_line_up(&mut self) {
        let text = self.piece_table.forward();
        proof {
            lemma_motions_stay_in_range(text@, self.cursor_index as int);
        }
        self.cursor_index = line_up_from(&text, self.cursor_index);
    }

    fn cursor_start_next_word(&mut self) {
        let text = self.piece_table.forward();
        proof {
            lemma_motions_stay_in_range(text@, self.cursor_index as int);
        }
        self.cursor_index = next_word_from(&text, self.cursor_index);
    }

    fn cursor_start_prev_word(&mut self) {
        let text = self.piece_table.forward();
        proof {
            lemma_motions_stay_in_range(text@, self.cursor_index as int);
        }
        self.cursor_index = find_word_start(&text, self.cursor_index);
    }

    fn cursor_start_of_line(&mut self) {
        let text = self.piece_table.forward();
        proof {
            lemma_motions_stay_in_range(text@, self.cursor_index as int);
        }
        self.cursor_index = find_line_start(&text, self.cursor_index);
    }

    fn cursor_end_of_line(&mut self) {
        let text = self.piece_table.forward();
        proof {
            lemma_motions_stay_in_range(text@, self.cursor_index as int);
        }
        self.cursor_index = end_of_line_from(&text, self.cursor_index);
    }
}

} // verus!
