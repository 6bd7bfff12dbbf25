use bullet::controller::events::InputEvent;
use bullet::controller::input::{ModeInputHandler, NavigateModeInputHandler};
use bullet::data::editor_state::{EditorState, Mode};
use bullet::data::piece_table::PieceTable;
use bullet::editor_state::{CursorPosition, EditorState as LineDocument};
use bullet::editor_view::{gutter_for_line, ViewState};
use bullet::view::layout::{align_left, align_right};
use bullet::view::terminal::{
    cursor_cell, gutter_for_line_number, status_line, status_line_left, status_line_right,
    visible_line_count,
};

fn shown_session(text: &str, cursor: usize) -> EditorState {
    EditorState::new(String::from("notes.py"), Mode::Navigate, cursor, PieceTable::new(text), vec![])
}

#[test]
fn text_is_padded_as_std_pads_it() {
    for text in ["", "a", "abc", "héllo", "a long text"] {
        for width in [0usize, 1, 3, 5, 8, 20] {
            assert_eq!(align_right(text, width), format!("{:>1$}", text, width));
            assert_eq!(align_left(text, width), format!("{:<1$}", text, width));
        }
    }
    assert_eq!(align_right("7", 3), "  7");
    assert_eq!(align_left("7", 3), "7  ");
}

#[test]
fn gutter_holds_the_line_number_at_its_right_end() {
    assert_eq!(gutter_for_line_number(1), "  1 ");
    assert_eq!(gutter_for_line_number(42), " 42 ");
    assert_eq!(gutter_for_line_number(1234), "1234 ");
    for n in [0usize, 7, 99, 100, 12345] {
        assert_eq!(gutter_for_line_number(n), format!("{:>width$} ", n, width = 3));
        assert_eq!(gutter_for_line(n, 4), format!(" {: >4}  ", n));
    }
}

#[test]
fn status_line_names_file_mode_and_position() {
    let mut state = shown_session("ab\ncde\n", 5);
    assert_eq!(status_line_left(&state), "Editing: notes.py | Mode: Navigate () | Modifier: None");
    assert_eq!(status_line_right(&state), "Ln 2, Col 3, Idx 5 | Python");
    let left = status_line_left(&state);
    let width = left.chars().count() + 40;
    assert_eq!(
        status_line(&state, width),
        format!("{}{:>40}", left, "Ln 2, Col 3, Idx 5 | Python")
    );
    assert_eq!(status_line(&state, 3), format!("{}{}", left, "Ln 2, Col 3, Idx 5 | Python"));

    let mut handler = NavigateModeInputHandler::new();
    handler.handle_input(InputEvent::Char('2'), &mut state);
    state.set_mode_input_buffer(vec!['w', 'q']);
    state.set_mode(Mode::Command);
    assert_eq!(
        status_line_left(&state),
        "Editing: notes.py | Mode: Command (wq) | Modifier: Repeat ( 2x, _ )"
    );
}

#[test]
fn cursor_is_drawn_after_the_gutter() {
    let state = shown_session("ab\ncde\n", 5);
    assert_eq!(cursor_cell(&state), (8, 2));
    assert_eq!(cursor_cell(&shown_session("", 0)), (6, 1));
}

#[test]
fn terminal_shows_as_many_lines_as_it_has_rows() {
    assert_eq!(visible_line_count(10, 24), 10);
    assert_eq!(visible_line_count(30, 24), 24);
    assert_eq!(visible_line_count(0, 24), 0);
}

#[test]
fn info_bar_fills_both_halves_of_the_screen() {
    let mut document = LineDocument::new();
    document.filename = String::from("a.txt");
    document.content.insert_line(&2, "second");
    document.set_position(CursorPosition { active_line: 2, active_col: 3 }).unwrap();
    let mut view = ViewState::new(120, 24);
    view.scroll.scroll_down();
    let right = "Line 2 out of 2 lines. Column 3. Scroll 1 ";
    assert_eq!(view.info_bar(&document), format!("{: <60}{: >60}", " Editing a.txt", right));
    let narrow = ViewState::new(10, 24);
    assert_eq!(
        narrow.info_bar(&document),
        format!(" Editing a.txt{}", "Line 2 out of 2 lines. Column 3. Scroll 0 ")
    );
}
