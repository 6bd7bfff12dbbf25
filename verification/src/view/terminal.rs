//! The texts of the terminal view of a session: the gutter before each
//! line, the status line, and the cell of the cursor.

use vstd::prelude::*;
use vstd::string::{StrSliceExecFns, StringExecFns};
use crate::controller::util::{decimal_digits, decimal_string};
use crate::data::chars::{push_char, string_of};
use crate::data::editor_state::{EditorModel, EditorState, Mode, StateApi};
use crate::data::text::{column_of, lemma_line_start, newlines_before, row_of};
use crate::view::layout::{align_right, right_aligned};

verus! {

/// The columns that the line numbers take, the space after them included.
pub const GUTTER_WIDTH: usize = 4;

/// The columns between the gutter and the text.
pub const GUTTER_RIGHT_MARGIN: usize = 2;

/// The kind of file that the status line names.
pub open spec fn file_type() -> Seq<char> {
    "Python"@
}

/// The name of `mode`.
pub open spec fn mode_name(mode: Mode) -> Seq<char> {
    match mode {
        Mode::Navigate => "Navigate"@,
        Mode::Command => "Command"@,
        Mode::Insert => "Insert"@,
    }
}

/// The gutter before line `line_number`: the number at the right end of
/// three columns, and a space.
pub open spec fn gutter_text(line_number: nat) -> Seq<char> {
    right_aligned(decimal_digits(line_number), (GUTTER_WIDTH - 1) as nat).push(' ')
}

/// The gutter before line `line_number`.
pub fn gutter_for_line_number(line_number: usize) -> (text: String)
    ensures
        text@ == gutter_text(line_number as nat),
{
    let mut text = align_right(decimal_string(line_number).as_str(), GUTTER_WIDTH - 1);
    push_char(&mut text, ' ');
    text
}

/// How many lines of a document of `line_count` lines a terminal of
/// `term_height` rows shows: as many as there are rows, if the document has
/// that many.
pub fn visible_line_count(line_count: usize, term_height: usize) -> (count: usize)
    ensures
        count == if line_count <= term_height {
            line_count
        } else {
            term_height
        },
{
    if line_count <= term_height {
        line_count
    } else {
        term_height
    }
}

/// The left half of the status line: the file, the mode with its pending
/// input, and where the expression grammar stands.
pub open spec fn status_left(m: EditorModel) -> Seq<char> {
    "Editing: "@ + m.file_name + " | Mode: "@ + mode_name(m.mode) + " ("@ + m.mode_input_buffer
        + ") | Modifier: "@ + m.expression_state.shown()
}

/// The right half of the status line: line and column of the cursor,
/// counted from 1, its offset, and the kind of file.
pub open spec fn status_right(m: EditorModel) -> Seq<char> {
    "Ln "@ + decimal_digits(row_of(m.text, m.cursor) + 1) + ", Col "@ + decimal_digits(
        (column_of(m.text, m.cursor) + 1) as nat,
    ) + ", Idx "@ + decimal_digits(m.cursor as nat) + " | "@ + file_type()
}

/// The status line on a terminal of `term_width` columns: the left half,
/// then the right half at the right end of what is left of the width.
pub open spec fn status_text(m: EditorModel, term_width: nat) -> Seq<char> {
    let left = status_left(m);
    let room = if term_width >= left.len() {
        (term_width - left.len()) as nat
    } else {
        0
    };
    left + right_aligned(status_right(m), room)
}

/// A cursor stands at most as many lines and columns into the text as
/// characters.
pub proof fn lemma_position_bounds(s: Seq<char>, i: int)
    requires
        0 <= i <= s.len(),
    ensures
        newlines_before(s, i) <= i,
        0 <= column_of(s, i) <= i,
    decreases i,
{
    lemma_line_start(s, i);
    if i > 0 {
        lemma_position_bounds(s, i - 1);
    }
}

/// The left half of the status line.
pub fn status_line_left(state: &EditorState) -> (text: String)
    requires
        state.wf(),
    ensures
        text@ == status_left(state@),
{
    let mut text = String::from_str("Editing: ");
    text.append(state.get_active_file_name());
    text.append(" | Mode: ");
    text.append(state.get_mode().name());
    text.append(" (");
    text.append(string_of(state.get_mode_input_buffer()).as_str());
    text.append(") | Modifier: ");
    text.append(state.get_expression_state_description().as_str());
    text
}

/// The right half of the status line.
pub fn status_line_right(state: &EditorState) -> (text: String)
    requires
        state.wf(),
    ensures
        text@ == status_right(state@),
{
    let position = state.get_cursor_position();
    let index = state.get_cursor_index();
    let length = state.get_file_length_in_chars();
    proof {
        state.lemma_cursor_in_text();
        lemma_position_bounds(state@.text, state@.cursor);
    }
    let mut text = String::from_str("Ln ");
    text.append(decimal_string(position.y + 1).as_str());
    text.append(", Col ");
    text.append(decimal_string(position.x + 1).as_str());
    text.append(", Idx ");
    text.append(decimal_string(index).as_str());
    text.append(" | ");
    text.append("Python");
    text
}

/// The status line on a terminal of `term_width` columns.
pub fn status_line(state: &EditorState, term_width: usize) -> (text: String)
    requires
        state.wf(),
    ensures
        text@ == status_text(state@, term_width as nat),
{
    let mut text = status_line_left(state);
    let left_width = text.as_str().unicode_len();
    let room = if term_width >= left_width {
        term_width - left_width
    } else {
        0
    };
    text.append(align_right(status_line_right(state).as_str(), room).as_str());
    text
}

/// The cell of the screen on which the cursor is drawn, column first, both
/// counted from 1: the text begins after the gutter and its margin.
pub fn cursor_cell(state: &EditorState) -> (cell: (usize, usize))
    requires
        state.wf(),
        state@.text.len() <= usize::MAX - GUTTER_WIDTH - GUTTER_RIGHT_MARGIN,
    ensures
        cell.0 == column_of(state@.text, state@.cursor) + GUTTER_WIDTH + GUTTER_RIGHT_MARGIN,
        cell.1 == row_of(state@.text, state@.cursor) + 1,
{
    let position = state.get_cursor_position();
    proof {
        state.lemma_cursor_in_text();
        lemma_position_bounds(state@.text, state@.cursor);
    }
    (position.x + (GUTTER_WIDTH + GUTTER_RIGHT_MARGIN), position.y + 1)
}

} // verus!
