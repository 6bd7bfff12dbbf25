//! A document kept line by line, with a cursor addressed by line and column.
//!
//! Lines and columns count from 1. Column `n + 1` of a line of `n`
//! characters is the place just past its end, where text is appended.

use vstd::prelude::*;
use vstd::string::{StrSliceExecFns, StringExecFns};
use crate::data::chars::{chars_of, push_char, string_of};

verus! {

/// A cursor position by line and column, both counted from 1.
#[derive(Clone, Copy, Debug)]
pub struct CursorPosition {
    pub active_line: usize,
    pub active_col: usize,
}

/// Why a cursor position was refused.
#[derive(Clone, Copy, Debug, PartialEq, Eq)]
pub enum CursorBounds {
    /// The document has no such line.
    RowOutOfBounds,
    /// The line has no such column.
    ColumnOutOfBounds,
}

/// One line of text, and whether it was changed since the last save.
#[derive(Debug)]
pub struct LineBuffer {
    pub content: String,
    pub is_dirty: bool,
}

impl Clone for LineBuffer {
    fn clone(&self) -> (copy: Self)
        ensures
            copy == *self,
    {
        LineBuffer { content: self.content.clone(), is_dirty: self.is_dirty }
    }
}

impl Default for LineBuffer {
    /// An empty line that has not been changed.
    fn default() -> (line: Self)
        ensures
            line.content@ == Seq::<char>::empty(),
            !line.is_dirty,
    {
        LineBuffer { content: String::new(), is_dirty: false }
    }
}

/// The lines of a document.
#[derive(Debug)]
pub struct EditorContent {
    pub lines: Vec<LineBuffer>,
}

impl Default for EditorContent {
    /// A document without a line.
    fn default() -> (content: Self)
        ensures
            content.lines@ == Seq::<LineBuffer>::empty(),
    {
        EditorContent { lines: Vec::new() }
    }
}

impl Clone for EditorContent {
    /// The same lines, each as it is.
    fn clone(&self) -> (copy: Self)
        ensures
            copy.lines@ == self.lines@,
    {
        let mut lines: Vec<LineBuffer> = Vec::new();
        let mut k: usize = 0;
        while k < self.lines.len()
            invariant
                k <= self.lines@.len(),
                lines@ == self.lines@.take(k as int),
            decreases self.lines@.len() - k,
        {
            lines.push(self.lines[k].clone());
            k += 1;
            assert(lines@ =~= self.lines@.take(k as int));
        }
        assert(self.lines@.take(k as int) =~= self.lines@);
        EditorContent { lines }
    }
}

/// The texts of the lines of `lines`.
pub open spec fn texts_of(lines: Seq<LineBuffer>) -> Seq<Seq<char>> {
    lines.map_values(|line: LineBuffer| line.content@)
}

/// What is wrong with the position (`line`, `col`) in a document of these
/// lines, if anything: the line is checked first, then the column. A column
/// too large to be counted is out of bounds whatever the line holds.
pub open spec fn bounds_error(lines: Seq<LineBuffer>, line: int, col: int) -> Option<
    CursorBounds,
> {
    if line < 1 || line > lines.len() {
        Some(CursorBounds::RowOutOfBounds)
    } else if col < 1 || col > lines[line - 1].content@.len() + 1 || col > usize::MAX {
        Some(CursorBounds::ColumnOutOfBounds)
    } else {
        None
    }
}

/// `after` is `before` with the text of line `line`, counted from 1,
/// replaced by `text`: that line counts as changed, every other line is as
/// it was.
pub open spec fn line_changed(
    before: Seq<LineBuffer>,
    after: Seq<LineBuffer>,
    line: int,
    text: Seq<char>,
) -> bool {
    &&& after.len() == before.len()
    &&& after[line - 1].content@ == text
    &&& after[line - 1].is_dirty
    &&& forall|i: int| 0 <= i < before.len() && i != line - 1 ==> after[i] == before[i]
}

/// `after` is `before` with a changed line of the text `text` put in as
/// line `line`, counted from 1: the lines from there on have moved one
/// down.
pub open spec fn line_added(
    before: Seq<LineBuffer>,
    after: Seq<LineBuffer>,
    line: int,
    text: Seq<char>,
) -> bool {
    &&& after.len() == before.len() + 1
    &&& after[line - 1].content@ == text
    &&& after[line - 1].is_dirty
    &&& forall|i: int| 0 <= i < line - 1 ==> after[i] == before[i]
    &&& forall|i: int| line - 1 <= i < before.len() ==> after[i + 1] == before[i]
}

/// The texts of `lines` in one text, with a separator between each two.
pub open spec fn joined(lines: Seq<Seq<char>>) -> Seq<char>
    decreases lines.len(),
{
    if lines.len() == 0 {
        Seq::empty()
    } else if lines.len() == 1 {
        lines[0]
    } else {
        joined(lines.drop_last()) + seq!['\n'] + lines.last()
    }
}

impl EditorContent {
    /// The texts of the lines.
    pub open spec fn texts(&self) -> Seq<Seq<char>> {
        texts_of(self.lines@)
    }

    /// The document has a line number `line_num`.
    pub open spec fn has_line(&self, line_num: int) -> bool {
        1 <= line_num <= self.lines@.len()
    }

    /// A document of one empty line.
    pub fn new() -> (content: EditorContent)
        ensures
            content.lines@.len() == 1,
            content.lines@[0].content@ == Seq::<char>::empty(),
            !content.lines@[0].is_dirty,
    {
        let mut lines: Vec<LineBuffer> = Vec::new();
        lines.push(LineBuffer { content: String::new(), is_dirty: false });
        EditorContent { lines }
    }

    /// Puts `ch` at column `col` of line `line_num`; what stood there and
    /// after it moves one column to the right.
    pub fn insert_char(&mut self, ch: &char, col: &usize, line_num: &usize)
        requires
            old(self).has_line(*line_num as int),
            1 <= *col <= old(self).lines@[*line_num - 1].content@.len() + 1,
        ensures
            line_changed(
                old(self).lines@,
                final(self).lines@,
                *line_num as int,
                old(self).lines@[*line_num - 1].content@.insert(*col - 1, *ch),
            ),
    {
        let mut chars: Vec<char> = chars_of(self.lines[*line_num - 1].content.as_str());
        chars.insert(*col - 1, *ch);
        self.lines.set(*line_num - 1, LineBuffer { content: string_of(&chars), is_dirty: true });
    }

    /// Puts a new line with the text `initial_content` before line
    /// `line_num`, or after the last line if `line_num` is one past it.
    pub fn insert_line(&mut self, line_num: &usize, initial_content: &str)
        requires
            1 <= *line_num <= old(self).lines@.len() + 1,
        ensures
            line_added(old(self).lines@, final(self).lines@, *line_num as int, initial_content@),
            final(self).texts() == old(self).texts().insert(*line_num - 1, initial_content@),
    {
        let line = LineBuffer { content: initial_content.to_owned(), is_dirty: true };
        self.lines.insert(*line_num - 1, line);
        assert(self.texts() =~= old(self).texts().insert(*line_num - 1, initial_content@));
    }

    /// Removes the character before column `active_col` of line
    /// `active_line`; in column 1 there is none and the text stays as it is.
    /// Either way the line counts as changed.
    pub fn delete_char_behind(&mut self, pos: &CursorPosition)
        requires
            bounds_error(old(self).lines@, pos.active_line as int, pos.active_col as int)
                is None,
        ensures
            line_changed(
                old(self).lines@,
                final(self).lines@,
                pos.active_line as int,
                if pos.active_col > 1 {
                    old(self).lines@[pos.active_line - 1].content@.remove(pos.active_col - 2)
                } else {
                    old(self).lines@[pos.active_line - 1].content@
                },
            ),
    {
        let mut chars: Vec<char> = chars_of(self.lines[pos.active_line - 1].content.as_str());
        if pos.active_col > 1 {
            chars.remove(pos.active_col - 2);
        }
        self.lines.set(
            pos.active_line - 1,
            LineBuffer { content: string_of(&chars), is_dirty: true },
        );
    }

    /// Adds `append_str` to the end of line `line_num`.
    pub fn append_to_line(&mut self, line_num: usize, append_str: &str)
        requires
            old(self).has_line(line_num as int),
        ensures
            line_changed(
                old(self).lines@,
                final(self).lines@,
                line_num as int,
                old(self).lines@[line_num - 1].content@ + append_str@,
            ),
    {
        let mut chars: Vec<char> = chars_of(self.lines[line_num - 1].content.as_str());
        let mut tail: Vec<char> = chars_of(append_str);
        chars.append(&mut tail);
        self.lines.set(line_num - 1, LineBuffer { content: string_of(&chars), is_dirty: true });
    }

    /// Takes line `line_number` out of the document and hands it back.
    pub fn delete_line(&mut self, line_number: usize) -> (deleted_line: LineBuffer)
        requires
            old(self).has_line(line_number as int),
        ensures
            deleted_line == old(self).lines@[line_number - 1],
            final(self).lines@ == old(self).lines@.remove(line_number - 1),
    {
        self.lines.remove(line_number - 1)
    }

    /// Line `line_number`.
    pub fn get_line_by_line_number(&self, line_number: &usize) -> (line: &LineBuffer)
        requires
            self.has_line(*line_number as int),
        ensures
            *line == self.lines@[*line_number - 1],
    {
        &self.lines[*line_number - 1]
    }
}

/// A document, the name of its file and the position of the cursor in it.
#[derive(Debug)]
pub struct EditorState {
    pub filename: String,
    pub content: EditorContent,
    pub position: CursorPosition,
}

impl Clone for EditorState {
    /// The same file name, lines and cursor.
    fn clone(&self) -> (copy: Self)
        ensures
            copy.filename == self.filename,
            copy.content.lines@ == self.content.lines@,
            copy.position == self.position,
            copy.wf() == self.wf(),
    {
        EditorState {
            filename: self.filename.clone(),
            content: self.content.clone(),
            position: self.position,
        }
    }
}

impl EditorState {
    /// The cursor stands on a line of the document, in one of its columns
    /// or just past its end.
    pub open spec fn wf(&self) -> bool {
        bounds_error(
            self.content.lines@,
            self.position.active_line as int,
            self.position.active_col as int,
        ) is None
    }

    /// Whether the cursor stands on a position of the document.
    pub fn has_valid_position(&self) -> (valid: bool)
        ensures
            valid == self.wf(),
    {
        let line = self.position.active_line;
        let col = self.position.active_col;
        if line < 1 || line > self.content.lines.len() {
            return false;
        }
        col >= 1 && col - 1 <= self.get_line_by_line_number(&line).content.as_str().unicode_len()
    }

    /// An unnamed document of one empty line, with the cursor at its start.
    pub fn new() -> (state: EditorState)
        ensures
            state.wf(),
            state.filename@ == Seq::<char>::empty(),
            state.content.texts() == seq![Seq::<char>::empty()],
            !state.content.lines@[0].is_dirty,
            state.position.active_line == 1,
            state.position.active_col == 1,
    {
        let state = EditorState {
            filename: String::new(),
            content: EditorContent::new(),
            position: CursorPosition { active_line: 1, active_col: 1 },
        };
        assert(state.content.texts() =~= seq![Seq::<char>::empty()]);
        state
    }

    /// One column to the right, if the line reaches that far.
    pub fn cursor_mv_right(&mut self) -> (moved: Result<CursorPosition, CursorBounds>)
        ensures
            final(self).moved_to(
                old(self),
                old(self).position.active_line as int,
                old(self).position.active_col + 1,
                moved,
            ),
    {
        let new_row = self.position.active_line;
        match self.position.active_col.checked_add(1) {
            Some(new_col) => self.set_position(
                CursorPosition { active_col: new_col, active_line: new_row },
            ),
            None => self.refuse_column(new_row),
        }
    }

    /// One column to the left, if there is one.
    pub fn cursor_mv_left(&mut self) -> (moved: Result<CursorPosition, CursorBounds>)
        ensures
            final(self).moved_to(
                old(self),
                old(self).position.active_line as int,
                old(self).position.active_col - 1,
                moved,
            ),
    {
        let new_row = self.position.active_line;
        match self.position.active_col.checked_sub(1) {
            Some(new_col) => self.set_position(
                CursorPosition { active_col: new_col, active_line: new_row },
            ),
            None => self.refuse_column(new_row),
        }
    }

    /// One line up in the same column, if that line has it.
    pub fn cursor_mv_up(&mut self) -> (moved: Result<CursorPosition, CursorBounds>)
        ensures
            final(self).moved_to(
                old(self),
                old(self).position.active_line - 1,
                old(self).position.active_col as int,
                moved,
            ),
    {
        let new_col = self.position.active_col;
        match self.position.active_line.checked_sub(1) {
            Some(new_row) => self.set_position(
                CursorPosition { active_col: new_col, active_line: new_row },
            ),
            None => Err(CursorBounds::RowOutOfBounds),
        }
    }

    /// One line down in the same column, if that line has it.
    pub fn cursor_mv_down(&mut self) -> (moved: Result<CursorPosition, CursorBounds>)
        ensures
            final(self).moved_to(
                old(self),
                old(self).position.active_line + 1,
                old(self).position.active_col as int,
                moved,
            ),
    {
        let new_col = self.position.active_col;
        match self.position.active_line.checked_add(1) {
            Some(new_row) => self.set_position(
                CursorPosition { active_col: new_col, active_line: new_row },
            ),
            None => {
                assert(self.content.lines.len() <= usize::MAX);
                Err(CursorBounds::RowOutOfBounds)
            },
        }
    }

    /// To the first column of the cursor's line.
    pub fn cursor_origin_x(&mut self) -> (moved: Result<CursorPosition, CursorBounds>)
        ensures
            final(self).moved_to(old(self), old(self).position.active_line as int, 1, moved),
    {
        let active_line = self.position.active_line;
        self.set_position(CursorPosition { active_col: 1, active_line })
    }

    /// To just past the end of the cursor's line.
    pub fn cursor_to_end_of_line(&mut self) -> (moved: Result<CursorPosition, CursorBounds>)
        requires
            old(self).content.has_line(old(self).position.active_line as int),
        ensures
            final(self).moved_to(
                old(self),
                old(self).position.active_line as int,
                old(self).content.lines@[old(self).position.active_line - 1].content@.len() + 1int,
                moved,
            ),
    {
        let active_line = self.position.active_line;
        match self.get_current_line().content.as_str().unicode_len().checked_add(1) {
            Some(new_col) => self.set_position(
                CursorPosition { active_col: new_col, active_line },
            ),
            None => Err(CursorBounds::ColumnOutOfBounds),
        }
    }

    /// Refuses a column that cannot be counted, on line `line`: the line is
    /// checked first, as for any other position.
    fn refuse_column(&self, line: usize) -> (moved: Result<CursorPosition, CursorBounds>)
        ensures
            moved == Err::<CursorPosition, CursorBounds>(
                if self.content.has_line(line as int) {
                    CursorBounds::ColumnOutOfBounds
                } else {
                    CursorBounds::RowOutOfBounds
                },
            ),
    {
        if line < 1 || line > self.content.lines.len() {
            Err(CursorBounds::RowOutOfBounds)
        } else {
            Err(CursorBounds::ColumnOutOfBounds)
        }
    }

    /// What a move to (`line`, `col`) from the state `before` comes to: the
    /// position is taken if the document has it, and refused with the
    /// reason otherwise. Nothing but the position ever changes.
    pub open spec fn moved_to(
        &self,
        before: &EditorState,
        line: int,
        col: int,
        moved: Result<CursorPosition, CursorBounds>,
    ) -> bool {
        &&& self.filename == before.filename
        &&& self.content == before.content
        &&& match bounds_error(before.content.lines@, line, col) {
            Some(reason) => moved == Err::<CursorPosition, CursorBounds>(reason) && self.position
                == before.position,
            None => moved is Ok && moved->Ok_0 == self.position && self.position.active_line
                == line && self.position.active_col == col,
        }
    }

    /// Puts the cursor on `new_pos` if the document has that position.
    pub fn set_position(&mut self, new_pos: CursorPosition) -> (moved: Result<
        CursorPosition,
        CursorBounds,
    >)
        ensures
            final(self).moved_to(
                old(self),
                new_pos.active_line as int,
                new_pos.active_col as int,
                moved,
            ),
    {
        if new_pos.active_line < 1 || new_pos.active_line > self.content.lines.len() {
            return Err(CursorBounds::RowOutOfBounds);
        }
        let line_len = self.get_line_by_line_number(
            &new_pos.active_line,
        ).content.as_str().unicode_len();
        if new_pos.active_col < 1 || new_pos.active_col - 1 > line_len {
            return Err(CursorBounds::ColumnOutOfBounds);
        }
        self.position = new_pos;
        Ok(new_pos)
    }

    /// Whether the cursor stands on a character of its line, not past its
    /// end.
    pub fn cursor_within_line_bounds(&self) -> (within: bool)
        requires
            self.content.has_line(self.position.active_line as int),
        ensures
            within == (self.position.active_col <= self.content.lines@[self.position.active_line
                - 1].content@.len()),
    {
        let current_line_len = self.get_line_by_line_number(
            &self.position.active_line,
        ).content.as_str().unicode_len();
        self.position.active_col <= current_line_len
    }

    /// Line `line_num`.
    pub fn get_line_by_line_number(&self, line_num: &usize) -> (line: &LineBuffer)
        requires
            self.content.has_line(*line_num as int),
        ensures
            *line == self.content.lines@[*line_num - 1],
    {
        &self.content.lines[*line_num - 1]
    }

    /// The number of the cursor's line.
    pub fn get_current_line_number(&self) -> (line_num: usize)
        ensures
            line_num == self.position.active_line,
    {
        self.position.active_line
    }

    /// The cursor's line.
    pub fn get_current_line(&self) -> (line: &LineBuffer)
        requires
            self.content.has_line(self.position.active_line as int),
        ensures
            *line == self.content.lines@[self.position.active_line - 1],
    {
        self.content.get_line_by_line_number(&self.get_current_line_number())
    }
    /// The document as one text, with a separator between each two lines:
    /// what a save writes to the file.
    pub fn content_as_string(&self) -> (text: String)
        ensures
            text@ == joined(self.content.texts()),
    {
        let mut text = String::new();
        let mut k: usize = 0;
        proof {
            assert(self.content.texts().take(0) =~= Seq::<Seq<char>>::empty());
        }
        while k < self.content.lines.len()
            invariant
                k <= self.content.lines@.len(),
                text@ == joined(self.content.texts().take(k as int)),
            decreases self.content.lines@.len() - k,
        {
            let ghost before = self.content.texts().take(k as int);
            let ghost upto = self.content.texts().take(k + 1);
            proof {
                assert(upto.drop_last() =~= before);
                assert(upto.last() == self.content.lines@[k as int].content@);
            }
            if k > 0 {
                push_char(&mut text, '\n');
            }
            text.append(self.content.lines[k].content.as_str());
            proof {
                if k == 0 {
                    assert(text@ =~= upto[0]);
                } else {
                    assert(text@ =~= joined(before) + seq!['\n'] + upto.last());
                }
            }
            k += 1;
        }
        proof {
            assert(self.content.texts().take(k as int) =~= self.content.texts());
        }
        text
    }
}

} // verus!
