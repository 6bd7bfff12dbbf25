//! The editor as a plain programming interface: the cursor moves and edits
//! of the line-based document, with no window to keep in step. The window
//! is only held here for the host, which repaints it from the document.

use vstd::prelude::*;
use crate::editor_state::{line_changed, CursorBounds, CursorPosition, EditorState};
use crate::editor_view::ViewState;

verus! {

/// The document, and the window if one is open.
pub struct BulletApi {
    pub view: Option<ViewState>,
    pub model: EditorState,
}

impl BulletApi {
    /// The length of line `line` of the document, lines counted from 1.
    pub open spec fn line_len(&self, line: int) -> int {
        self.model.content.lines@[line - 1].content@.len() as int
    }

    /// One column to the right, if the line reaches that far.
    pub fn cursor_right(&mut self) -> (moved: Result<CursorPosition, CursorBounds>)
        ensures
            final(self).view == old(self).view,
            final(self).model.moved_to(
                &old(self).model,
                old(self).model.position.active_line as int,
                old(self).model.position.active_col + 1,
                moved,
            ),
    {
        self.model.cursor_mv_right()
    }

    /// One column to the left, if there is one.
    pub fn cursor_left(&mut self) -> (moved: Result<CursorPosition, CursorBounds>)
        ensures
            final(self).view == old(self).view,
            final(self).model.moved_to(
                &old(self).model,
                old(self).model.position.active_line as int,
                old(self).model.position.active_col - 1,
                moved,
            ),
    {
        self.model.cursor_mv_left()
    }

    /// One line down in the same column, if that line has it.
    pub fn cursor_down(&mut self) -> (moved: Result<CursorPosition, CursorBounds>)
        ensures
            final(self).view == old(self).view,
            final(self).model.moved_to(
                &old(self).model,
                old(self).model.position.active_line + 1,
                old(self).model.position.active_col as int,
                moved,
            ),
    {
        self.model.cursor_mv_down()
    }

    /// One line up; on the first line, to the start of the line; into a
    /// shorter line, to its end.
    pub fn cursor_up(&mut self) -> (moved: Result<CursorPosition, CursorBounds>)
        requires
            old(self).model.wf(),
        ensures
            final(self).view == old(self).view,
            final(self).model.wf(),
            moved is Ok,
            ({
                let line = old(self).model.position.active_line as int;
                let col = old(self).model.position.active_col as int;
                if line == 1 {
                    final(self).model.moved_to(&old(self).model, 1, 1, moved)
                } else if col <= old(self).line_len(line - 1) + 1 {
                    final(self).model.moved_to(&old(self).model, line - 1, col, moved)
                } else {
                    final(self).model.moved_to(
                        &old(self).model,
                        line - 1,
                        old(self).line_len(line - 1) + 1,
                        moved,
                    )
                }
            }),
    {
        match self.model.cursor_mv_up() {
            Ok(position) => Ok(position),
            Err(CursorBounds::RowOutOfBounds) => self.cursor_origin_x(),
            Err(CursorBounds::ColumnOutOfBounds) => {
                let current_line = self.get_current_line_number();
                let next_line = if current_line > 1 {
                    current_line - 1
                } else {
                    1
                };
                self.cursor_to_end_of_line(&next_line)
            },
        }
    }

    /// To the first column of the cursor's line.
    pub fn cursor_origin_x(&mut self) -> (moved: Result<CursorPosition, CursorBounds>)
        ensures
            final(self).view == old(self).view,
            final(self).model.moved_to(
                &old(self).model,
                old(self).model.position.active_line as int,
                1,
                moved,
            ),
    {
        self.model.cursor_origin_x()
    }

    /// To the first column of the cursor's line.
    pub fn cursor_origin(&mut self) -> (moved: Result<CursorPosition, CursorBounds>)
        ensures
            final(self).view == old(self).view,
            final(self).model.moved_to(
                &old(self).model,
                old(self).model.position.active_line as int,
                1,
                moved,
            ),
    {
        let active_line = self.model.position.active_line;
        self.model.set_position(CursorPosition { active_col: 1, active_line })
    }

    /// Moves the cursor to the end of line `new_line`, or leaves it where it
    /// is if that place cannot be counted.
    fn cursor_to_end_of_line(&mut self, new_line: &usize) -> (moved: Result<
        CursorPosition,
        CursorBounds,
    >)
        requires
            old(self).model.content.has_line(*new_line as int),
        ensures
            final(self).view == old(self).view,
            final(self).model.moved_to(
                &old(self).model,
                *new_line as int,
                old(self).line_len(*new_line as int) + 1,
                moved,
            ),
    {
        let from = self.model.position;
        self.model.position.active_line = *new_line;
        let moved = self.cursor_to_end_of_current_line();
        if moved.is_err() {
            self.model.position = from;
        }
        moved
    }

    /// To just past the end of the cursor's line.
    pub fn cursor_to_end_of_current_line(&mut self) -> (moved: Result<
        CursorPosition,
        CursorBounds,
    >)
        requires
            old(self).model.content.has_line(old(self).model.position.active_line as int),
        ensures
            final(self).view == old(self).view,
            final(self).model.moved_to(
                &old(self).model,
                old(self).model.position.active_line as int,
                old(self).line_len(old(self).model.position.active_line as int) + 1,
                moved,
            ),
    {
        self.model.cursor_to_end_of_line()
    }

    /// Puts `ch` at column `col` of line `row`.
    pub fn insert_char(&mut self, ch: &char, row: &usize, col: &usize)
        requires
            old(self).model.content.has_line(*row as int),
            1 <= *col <= old(self).line_len(*row as int) + 1,
        ensures
            final(self).view == old(self).view,
            final(self).model.filename == old(self).model.filename,
            final(self).model.position == old(self).model.position,
            line_changed(
                old(self).model.content.lines@,
                final(self).model.content.lines@,
                *row as int,
                old(self).model.content.lines@[*row - 1].content@.insert(*col - 1, *ch),
            ),
    {
        self.model.content.insert_char(ch, col, row);
    }

    /// Puts an empty line below the cursor's line.
    pub fn insert_line_below(&mut self)
        requires
            old(self).model.content.has_line(old(self).model.position.active_line as int),
            old(self).model.position.active_line < usize::MAX,
        ensures
            final(self).view == old(self).view,
            final(self).model.filename == old(self).model.filename,
            final(self).model.position == old(self).model.position,
            final(self).model.content.texts() == old(self).model.content.texts().insert(
                old(self).model.position.active_line as int,
                Seq::<char>::empty(),
            ),
    {
        let current_line_number = self.get_current_line_number();
        self.model.content.insert_line(&(current_line_number + 1), "");
        proof {
            reveal_strlit("");
            assert(""@ =~= Seq::<char>::empty());
        }
    }

    /// The text of the cursor's line.
    pub fn get_current_line(&self) -> (line: &str)
        requires
            self.model.content.has_line(self.model.position.active_line as int),
        ensures
            line@ == self.model.content.lines@[self.model.position.active_line - 1].content@,
    {
        self.model.get_current_line().content.as_str()
    }

    /// The number of the cursor's line.
    pub fn get_current_line_number(&self) -> (line_num: usize)
        ensures
            line_num == self.model.position.active_line,
    {
        self.model.position.active_line
    }

    /// The number of lines of the document.
    pub fn get_number_of_lines(&self) -> (count: usize)
        ensures
            count == self.model.content.lines@.len(),
    {
        self.model.content.lines.len()
    }
}

} // verus!
