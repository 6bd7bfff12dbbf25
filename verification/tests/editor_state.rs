use bullet::editor_state::{
    CursorBounds, CursorPosition, EditorContent, EditorState, LineBuffer,
};

fn four_lines() -> EditorState {
    let mut state = EditorState::new();
    state.content.insert_line(&2, "line two");
    state.content.insert_line(&3, "line three");
    state.content.insert_line(&4, "line four");
    state
}

#[test]
fn starts_on_line_one_of_a_single_empty_line() {
    let state = EditorState::new();
    assert_eq!(state.get_current_line_number(), 1);
    assert_eq!(state.content.lines.len(), 1);
    assert_eq!(state.get_current_line().content, "");
    assert!(!state.get_current_line().is_dirty);
}

#[test]
fn inserts_x_at_one_one_of_a_one_line_empty_document() {
    let mut content = EditorContent::new();
    content.insert_char(&'X', &1, &1);
    assert_eq!(content.lines.len(), 1);
    assert_eq!(content.get_line_by_line_number(&1).content, "X");
    assert!(content.get_line_by_line_number(&1).is_dirty);
}

#[test]
fn inserts_a_line_at_the_bottom() {
    let mut state = four_lines();
    state.content.insert_line(&5, "test");
    assert_eq!(state.content.get_line_by_line_number(&5).content, "test");
}

#[test]
fn inserts_a_line_and_shifts_the_lines_below() {
    let mut state = four_lines();
    state.content.insert_line(&2, "test");
    assert_eq!(state.content.get_line_by_line_number(&2).content, "test");
    assert_eq!(state.content.get_line_by_line_number(&3).content, "line two");
}

#[test]
fn inserts_a_character_at_start_middle_and_end() {
    let mut state = four_lines();
    state.content.insert_char(&'X', &1, &2);
    assert_eq!(state.content.get_line_by_line_number(&2).content, "Xline two");
    state.content.insert_char(&'Y', &10, &2);
    assert_eq!(state.content.get_line_by_line_number(&2).content, "Xline twoY");
    state.content.insert_char(&'é', &6, &2);
    assert_eq!(state.content.get_line_by_line_number(&2).content, "Xlineé twoY");
}

#[test]
fn deletes_the_character_behind_the_cursor() {
    let mut state = four_lines();
    state.content.delete_char_behind(&CursorPosition { active_line: 3, active_col: 6 });
    assert_eq!(state.content.get_line_by_line_number(&3).content, "line three".replacen(' ', "", 1));
    state.content.delete_char_behind(&CursorPosition { active_line: 4, active_col: 1 });
    assert_eq!(state.content.get_line_by_line_number(&4).content, "line four");
    assert!(state.content.get_line_by_line_number(&4).is_dirty);
}

#[test]
fn appends_to_and_deletes_a_line() {
    let mut state = four_lines();
    state.content.append_to_line(2, " and more");
    assert_eq!(state.content.get_line_by_line_number(&2).content, "line two and more");
    let deleted = state.content.delete_line(2);
    assert_eq!(deleted.content, "line two and more");
    assert_eq!(state.content.lines.len(), 3);
    assert_eq!(state.content.get_line_by_line_number(&2).content, "line three");
}

#[test]
fn set_position_refuses_rows_and_columns_out_of_bounds() {
    let mut state = four_lines();
    let ok = state.set_position(CursorPosition { active_line: 2, active_col: 9 });
    assert_eq!(ok.map(|p| (p.active_line, p.active_col)), Ok((2, 9)));
    let row = state.set_position(CursorPosition { active_line: 5, active_col: 1 });
    assert_eq!(row.map(|p| (p.active_line, p.active_col)), Err(CursorBounds::RowOutOfBounds));
    let row = state.set_position(CursorPosition { active_line: 0, active_col: 1 });
    assert_eq!(row.map(|p| (p.active_line, p.active_col)), Err(CursorBounds::RowOutOfBounds));
    let col = state.set_position(CursorPosition { active_line: 2, active_col: 10 });
    assert_eq!(col.map(|p| (p.active_line, p.active_col)), Err(CursorBounds::ColumnOutOfBounds));
    let col = state.set_position(CursorPosition { active_line: 2, active_col: 0 });
    assert_eq!(col.map(|p| (p.active_line, p.active_col)), Err(CursorBounds::ColumnOutOfBounds));
    assert_eq!((state.position.active_line, state.position.active_col), (2, 9));
}

#[test]
fn moves_by_one_cell_inside_the_document() {
    let mut state = four_lines();
    assert!(state.cursor_mv_down().is_ok());
    assert!(state.cursor_mv_right().is_ok());
    assert_eq!((state.position.active_line, state.position.active_col), (2, 2));
    assert!(state.cursor_within_line_bounds());
    assert!(state.cursor_to_end_of_line().is_ok());
    assert_eq!(state.position.active_col, 9);
    assert!(!state.cursor_within_line_bounds());
    assert_eq!(state.cursor_mv_right().map(|p| p.active_col), Err(CursorBounds::ColumnOutOfBounds));
    assert!(state.cursor_origin_x().is_ok());
    assert_eq!(state.cursor_mv_left().map(|p| p.active_col), Err(CursorBounds::ColumnOutOfBounds));
    assert!(state.cursor_mv_up().is_ok());
    assert_eq!(state.cursor_mv_up().map(|p| p.active_line), Err(CursorBounds::RowOutOfBounds));
    assert_eq!(state.get_line_by_line_number(&3).content, "line three");
}

#[test]
fn saved_text_joins_the_lines_with_separators() {
    let state = four_lines();
    assert_eq!(state.content_as_string(), "\nline two\nline three\nline four");
    assert_eq!(EditorState::new().content_as_string(), "");
    let mut one = EditorState::new();
    one.content.append_to_line(1, "only");
    assert_eq!(one.content_as_string(), "only");
}

#[test]
fn default_line_and_content_are_empty() {
    let line = LineBuffer::default();
    assert_eq!(line.content, "");
    assert!(!line.is_dirty);
    assert!(EditorContent::default().lines.is_empty());
}

#[test]
fn clones_hold_the_same_lines_and_cursor() {
    let mut state = four_lines();
    state.filename = String::from("notes.txt");
    state.set_position(CursorPosition { active_line: 3, active_col: 4 }).unwrap();
    let mut copy = state.clone();
    assert_eq!(copy.filename, "notes.txt");
    assert_eq!(copy.content.lines.len(), 4);
    assert_eq!(copy.content_as_string(), state.content_as_string());
    assert!(copy.content.lines[1].is_dirty);
    assert!(!copy.content.lines[0].is_dirty);
    assert_eq!((copy.position.active_line, copy.position.active_col), (3, 4));
    copy.content.append_to_line(2, "!");
    assert_eq!(state.content.get_line_by_line_number(&2).content, "line two");
    let content = state.content.clone();
    assert_eq!(content.get_line_by_line_number(&4).content, "line four");
}
