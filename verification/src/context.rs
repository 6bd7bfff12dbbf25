//! What a widget may ask of the editor: cursor moves that fall back to the
//! nearest valid position, and the edits of the line-based document. The
//! context keeps the window's bookkeeping in step with the document.

use vstd::prelude::*;
use crate::editor_state::{line_changed, CursorBounds, CursorPosition, EditorState};
use crate::editor_view::{ViewState, INFO_BAR_HEIGHT};

verus! {

/// The cursor moves that a widget can ask for.
pub trait EditorContext {
    /// The context is in a state in which its moves can run.
    spec fn wf(&self) -> bool;

    /// One column to the right.
    fn cursor_right(&mut self) -> (moved: Result<CursorPosition, CursorBounds>)
        requires
            old(self).wf(),
        ensures
            final(self).wf(),
    ;

    /// One column to the left.
    fn cursor_left(&mut self) -> (moved: Result<CursorPosition, CursorBounds>)
        requires
            old(self).wf(),
        ensures
            final(self).wf(),
    ;

    /// One line down; on the last line, to the end of the line; into a
    /// shorter line, to its end.
    fn cursor_down(&mut self) -> (moved: Result<CursorPosition, CursorBounds>)
        requires
            old(self).wf(),
        ensures
            final(self).wf(),
    ;

    /// One line up; on the first line, to the start of the line; into a
    /// shorter line, to its end.
    fn cursor_up(&mut self) -> (moved: Result<CursorPosition, CursorBounds>)
        requires
            old(self).wf(),
        ensures
            final(self).wf(),
    ;

    /// To the first column of the line.
    fn cursor_origin_x(&mut self) -> (moved: Result<CursorPosition, CursorBounds>)
        requires
            old(self).wf(),
        ensures
            final(self).wf(),
    ;

    /// To just past the end of the line.
    fn cursor_to_end_of_current_line(&mut self) -> (moved: Result<CursorPosition, CursorBounds>)
        requires
            old(self).wf(),
        ensures
            final(self).wf(),
    ;
}

/// The document and the window that shows it.
pub struct BulletContext {
    pub view: Option<ViewState>,
    pub model: EditorState,
}

impl BulletContext {
    /// The length of line `line` of the document, lines counted from 1.
    pub open spec fn line_len(&self, line: int) -> int {
        self.model.content.lines@[line - 1].content@.len() as int
    }

    /// The window is open and has the size it had in `before`.
    pub open spec fn same_window(&self, before: &BulletContext) -> bool {
        &&& self.view is Some
        &&& self.view->Some_0.screen_width == before.view->Some_0.screen_width
        &&& self.view->Some_0.screen_height == before.view->Some_0.screen_height
    }

    /// Whether the context is in a state in which its moves can run.
    pub fn is_ready(&self) -> (ready: bool)
        ensures
            ready == self.wf(),
    {
        match &self.view {
            Some(view) => view.screen_height > INFO_BAR_HEIGHT && self.model.has_valid_position(),
            None => false,
        }
    }

    /// Moves the cursor of the document one column left and the window
    /// with it.
    fn step_left(&mut self) -> (moved: Result<CursorPosition, CursorBounds>)
        requires
            old(self).view is Some,
        ensures
            final(self).same_window(old(self)),
            final(self).model.moved_to(
                &old(self).model,
                old(self).model.position.active_line as int,
                old(self).model.position.active_col - 1,
                moved,
            ),
    {
        let new_pos = self.model.cursor_mv_left();
        match &mut self.view {
            Some(view) => view.cursor_mv_left(&mut self.model),
            None => {},
        }
        new_pos
    }

    /// Moves the cursor of the document one line up and the window with it.
    fn step_up(&mut self) -> (moved: Result<CursorPosition, CursorBounds>)
        requires
            old(self).view is Some,
        ensures
            final(self).same_window(old(self)),
            final(self).model.moved_to(
                &old(self).model,
                old(self).model.position.active_line - 1,
                old(self).model.position.active_col as int,
                moved,
            ),
    {
        let new_pos = self.model.cursor_mv_up();
        match &mut self.view {
            Some(view) => view.cursor_mv_up(&mut self.model),
            None => {},
        }
        new_pos
    }

    /// Moves the cursor of the document to the end of line `new_line`, or
    /// leaves it where it is if that place cannot be counted.
    fn cursor_to_end_of_line(&mut self, new_line: &usize) -> (moved: Result<
        CursorPosition,
        CursorBounds,
    >)
        requires
            old(self).model.content.has_line(*new_line as int),
        ensures
            final(self).view == old(self).view,
            final(self).model.moved_to(
                &old(self).model,
                *new_line as int,
                old(self).line_len(*new_line as int) + 1,
                moved,
            ),
    {
        let from = self.model.position;
        self.model.position.active_line = *new_line;
        let moved = self.model.cursor_to_end_of_line();
        if moved.is_err() {
            self.model.position = from;
        }
        moved
    }

    /// To the first column of the line, the window left as it is.
    pub fn cursor_origin(&mut self) -> (moved: Result<CursorPosition, CursorBounds>)
        ensures
            final(self).view == old(self).view,
            final(self).model.moved_to(
                &old(self).model,
                old(self).model.position.active_line as int,
                1,
                moved,
            ),
    {
        let active_line = self.model.position.active_line;
        self.model.set_position(CursorPosition { active_col: 1, active_line })
    }

    /// Puts `ch` at column `col` of line `row`.
    pub fn insert_char(&mut self, ch: &char, row: &usize, col: &usize)
        requires
            old(self).model.content.has_line(*row as int),
            1 <= *col <= old(self).line_len(*row as int) + 1,
        ensures
            final(self).view == old(self).view,
            final(self).model.filename == old(self).model.filename,
            final(self).model.position == old(self).model.position,
            line_changed(
                old(self).model.content.lines@,
                final(self).model.content.lines@,
                *row as int,
                old(self).model.content.lines@[*row - 1].content@.insert(*col - 1, *ch),
            ),
    {
        self.model.content.insert_char(ch, col, row);
    }

    /// Puts an empty line below the cursor's line.
    pub fn insert_line_below(&mut self)
        requires
            old(self).model.content.has_line(old(self).model.position.active_line as int),
            old(self).model.position.active_line < usize::MAX,
        ensures
            final(self).view == old(self).view,
            final(self).model.filename == old(self).model.filename,
            final(self).model.position == old(self).model.position,
            final(self).model.content.texts() == old(self).model.content.texts().insert(
                old(self).model.position.active_line as int,
                Seq::<char>::empty(),
            ),
    {
        let current_line_number = self.get_current_line_number();
        self.model.content.insert_line(&(current_line_number + 1), "");
        proof {
            reveal_strlit("");
            assert(""@ =~= Seq::<char>::empty());
        }
    }

    /// Adds `append_str` to the end of line `line_num`.
    pub fn append_to_line(&mut self, line_num: usize, append_str: &str)
        requires
            old(self).model.content.has_line(line_num as int),
        ensures
            final(self).view == old(self).view,
            final(self).model.filename == old(self).model.filename,
            final(self).model.position == old(self).model.position,
            line_changed(
                old(self).model.content.lines@,
                final(self).model.content.lines@,
                line_num as int,
                old(self).model.content.lines@[line_num - 1].content@ + append_str@,
            ),
    {
        self.model.content.append_to_line(line_num, append_str);
    }

    /// The number of the cursor's line.
    pub fn get_current_line_number(&self) -> (line_num: usize)
        ensures
            line_num == self.model.position.active_line,
    {
        self.model.position.active_line
    }

    /// The number of lines of the document.
    pub fn get_number_of_lines(&self) -> (count: usize)
        ensures
            count == self.model.content.lines@.len(),
    {
        self.model.content.lines.len()
    }

    /// Backspace. In the first column of a line that has one above it, the
    /// line is joined to the end of the one above and the cursor goes to
    /// the joint. Anywhere else the character before the cursor goes and
    /// the cursor moves one column left; in the first column of the first
    /// line there is nothing to remove and the move is refused.
    pub fn delete_char_back(&mut self) -> (moved: Result<CursorPosition, CursorBounds>)
        requires
            old(self).wf(),
        ensures
            final(self).wf(),
            final(self).same_window(old(self)),
            final(self).model.filename == old(self).model.filename,
            ({
                let line = old(self).model.position.active_line as int;
                let col = old(self).model.position.active_col as int;
                let before = old(self).model.content.texts();
                let after = final(self).model.content.texts();
                if col == 1 && line > 1 {
                    &&& after == before.remove(line - 1).update(
                        line - 2,
                        before[line - 2] + before[line - 1],
                    )
                    &&& final(self).model.position.active_line == line - 1
                    &&& if before[line - 2].len() < usize::MAX {
                        &&& moved == Ok::<CursorPosition, CursorBounds>(
                            final(self).model.position,
                        )
                        &&& final(self).model.position.active_col == before[line - 2].len() + 1
                    } else {
                        &&& moved == Err::<CursorPosition, CursorBounds>(
                            CursorBounds::ColumnOutOfBounds,
                        )
                        &&& final(self).model.position.active_col == 1
                    }
                } else if col > 1 {
                    &&& after == before.update(line - 1, before[line - 1].remove(col - 2))
                    &&& moved == Ok::<CursorPosition, CursorBounds>(final(self).model.position)
                    &&& final(self).model.position.active_line == line
                    &&& final(self).model.position.active_col == col - 1
                } else {
                    &&& after == before
                    &&& moved == Err::<CursorPosition, CursorBounds>(
                        CursorBounds::ColumnOutOfBounds,
                    )
                    &&& final(self).model.position == old(self).model.position
                }
            }),
    {
        let active_line_num = self.model.position.active_line;
        let ghost before = self.model.content.texts();
        if self.model.position.active_col == 1 && active_line_num > 1 {
            let deleted_line = self.model.content.delete_line(active_line_num);
            proof {
                assert(self.model.content.texts() =~= before.remove(active_line_num - 1));
            }
            // The line above is there and has a first column.
            let _ = self.step_up();
            let new_pos = self.model.cursor_to_end_of_line();
            self.model.content.append_to_line(active_line_num - 1, deleted_line.content.as_str());
            proof {
                assert(self.model.content.texts() =~= before.remove(active_line_num - 1).update(
                    active_line_num - 2,
                    before[active_line_num - 2] + before[active_line_num - 1],
                ));
            }
            new_pos
        } else {
            let position = self.model.position;
            self.model.content.delete_char_behind(&position);
            proof {
                let line = active_line_num as int;
                let col = position.active_col as int;
                if col > 1 {
                    assert(self.model.content.texts() =~= before.update(
                        line - 1,
                        before[line - 1].remove(col - 2),
                    ));
                } else {
                    assert(self.model.content.texts() =~= before);
                }
            }
            self.step_left()
        }
    }
}

impl EditorContext for BulletContext {
    /// The window has been opened and has room above its info bar, and
    /// the cursor stands on a position of the document.
    open spec fn wf(&self) -> bool {
        &&& self.view is Some
        &&& self.view->Some_0.screen_height > INFO_BAR_HEIGHT
        &&& self.model.wf()
    }

    fn cursor_right(&mut self) -> (moved: Result<CursorPosition, CursorBounds>)
        ensures
            final(self).same_window(old(self)),
            final(self).model.moved_to(
                &old(self).model,
                old(self).model.position.active_line as int,
                old(self).model.position.active_col + 1,
                moved,
            ),
    {
        let new_pos = self.model.cursor_mv_right();
        match &mut self.view {
            Some(view) => view.cursor_mv_right(&mut self.model),
            None => {},
        }
        new_pos
    }

    fn cursor_left(&mut self) -> (moved: Result<CursorPosition, CursorBounds>)
        ensures
            final(self).same_window(old(self)),
            final(self).model.moved_to(
                &old(self).model,
                old(self).model.position.active_line as int,
                old(self).model.position.active_col - 1,
                moved,
            ),
    {
        self.step_left()
    }

    fn cursor_down(&mut self) -> (moved: Result<CursorPosition, CursorBounds>)
        ensures
            final(self).same_window(old(self)),
            ({
                let line = old(self).model.position.active_line as int;
                let col = old(self).model.position.active_col as int;
                let last = old(self).model.content.lines@.len() as int;
                if line == last {
                    final(self).model.moved_to(
                        &old(self).model,
                        line,
                        old(self).line_len(line) + 1,
                        moved,
                    )
                } else if col <= old(self).line_len(line + 1) + 1 {
                    final(self).model.moved_to(&old(self).model, line + 1, col, moved)
                } else {
                    &&& moved is Ok
                    &&& final(self).model.moved_to(
                        &old(self).model,
                        line + 1,
                        old(self).line_len(line + 1) + 1,
                        moved,
                    )
                }
            }),
    {
        let new_pos = self.model.cursor_mv_down();
        match &mut self.view {
            Some(view) => view.cursor_mv_down(&mut self.model),
            None => {},
        }
        match new_pos {
            Ok(position) => Ok(position),
            Err(CursorBounds::RowOutOfBounds) => self.cursor_to_end_of_current_line(),
            Err(CursorBounds::ColumnOutOfBounds) => {
                assert(self.model.content.lines.len() == self.model.content.lines@.len());
                let line_below = self.get_current_line_number() + 1;
                self.cursor_to_end_of_line(&line_below)
            },
        }
    }

    fn cursor_up(&mut self) -> (moved: Result<CursorPosition, CursorBounds>)
        ensures
            final(self).same_window(old(self)),
            moved is Ok,
            ({
                let line = old(self).model.position.active_line as int;
                let col = old(self).model.position.active_col as int;
                if line == 1 {
                    final(self).model.moved_to(&old(self).model, 1, 1, moved)
                } else if col <= old(self).line_len(line - 1) + 1 {
                    final(self).model.moved_to(&old(self).model, line - 1, col, moved)
                } else {
                    final(self).model.moved_to(
                        &old(self).model,
                        line - 1,
                        old(self).line_len(line - 1) + 1,
                        moved,
                    )
                }
            }),
    {
        let new_pos = self.step_up();
        match new_pos {
            Ok(position) => Ok(position),
            Err(CursorBounds::RowOutOfBounds) => self.cursor_origin_x(),
            Err(CursorBounds::ColumnOutOfBounds) => {
                let current_line = self.get_current_line_number();
                let next_line = if current_line > 1 {
                    current_line - 1
                } else {
                    1
                };
                self.cursor_to_end_of_line(&next_line)
            },
        }
    }

    fn cursor_origin_x(&mut self) -> (moved: Result<CursorPosition, CursorBounds>)
        ensures
            final(self).same_window(old(self)),
            final(self).model.moved_to(
                &old(self).model,
                old(self).model.position.active_line as int,
                1,
                moved,
            ),
            moved is Ok,
    {
        let new_pos = self.model.cursor_origin_x();
        match &mut self.view {
            Some(view) => view.cursor_origin_x(&mut self.model),
            None => {},
        }
        new_pos
    }

    fn cursor_to_end_of_current_line(&mut self) -> (moved: Result<CursorPosition, CursorBounds>)
        ensures
            final(self).view == old(self).view,
            final(self).model.moved_to(
                &old(self).model,
                old(self).model.position.active_line as int,
                old(self).line_len(old(self).model.position.active_line as int) + 1,
                moved,
            ),
    {
        self.model.cursor_to_end_of_line()
    }
}

} // verus!
