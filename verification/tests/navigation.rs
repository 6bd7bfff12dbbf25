use bullet::controller::events::{EditorRequest, InputEvent, InputModeMultiplexer};
use bullet::controller::input::{
    CommandModeInputHandler, InsertModeInputHandler, ModeInputHandler, NavigateModeInputHandler,
};
use bullet::controller::util::{decimal_string, repeater_chain_to_usize};
use bullet::data::editor_state::{EditorState, Mode, StateApi};
use bullet::data::piece_table::PieceTable;

fn navigate_session(text: &str, cursor: usize) -> EditorState {
    EditorState::new(String::from("notes.txt"), Mode::Navigate, cursor, PieceTable::new(text), vec![])
}

fn type_keys(handler: &mut NavigateModeInputHandler, state: &mut EditorState, keys: &str) {
    for key in keys.chars() {
        handler.handle_input(InputEvent::Char(key), state);
    }
}

#[test]
fn three_l_equals_three_inc_cursor_calls() {
    let mut by_keys = navigate_session("hello world\nsecond\n", 2);
    let mut handler = NavigateModeInputHandler::new();
    type_keys(&mut handler, &mut by_keys, "3l");

    let mut by_calls = navigate_session("hello world\nsecond\n", 2);
    by_calls.inc_cursor();
    by_calls.inc_cursor();
    by_calls.inc_cursor();

    assert_eq!(by_keys.get_cursor_index(), 5);
    assert_eq!(by_keys.get_cursor_index(), by_calls.get_cursor_index());
}

#[test]
fn twelve_j_moves_down_twelve_lines() {
    let mut text = String::new();
    for n in 0..20 {
        text.push_str(&format!("row {}\n", n));
    }
    let mut state = navigate_session(&text, 1);
    let mut handler = NavigateModeInputHandler::new();
    type_keys(&mut handler, &mut state, "12j");
    let position = state.get_cursor_position();
    assert_eq!(position.y, 12);
    assert_eq!(position.x, 1);
}

#[test]
fn twelve_j_is_clamped_at_the_last_line() {
    let mut state = navigate_session("a\nb\nc\nlast\n", 0);
    let mut handler = NavigateModeInputHandler::new();
    type_keys(&mut handler, &mut state, "12j");
    assert_eq!(state.get_cursor_position().y, 3);
    assert_eq!(state.get_cursor_index(), 10);
}

#[test]
fn two_j_then_dollar_reaches_the_end_of_line_three() {
    let mut state = navigate_session("line one\nline two\nline three\n", 0);
    assert_eq!(state.get_editor_lines(), vec!["line one", "line two", "line three"]);
    let start = state.get_cursor_position();
    assert_eq!((start.y + 1, start.x + 1), (1, 1));

    let mut handler = NavigateModeInputHandler::new();
    type_keys(&mut handler, &mut state, "2j");
    let moved = state.get_cursor_position();
    assert_eq!((moved.y + 1, moved.x + 1), (3, 1));

    type_keys(&mut handler, &mut state, "$");
    let at_end = state.get_cursor_position();
    assert_eq!(at_end.y + 1, 3);
    assert_eq!(at_end.x + 1, "line three".len() + 1);
}

#[test]
fn word_motion_lands_on_the_next_word() {
    let mut state = navigate_session("foo bar baz", 0);
    state.cursor_start_next_word();
    assert_eq!(state.get_cursor_index(), 4);
    state.cursor_start_next_word();
    assert_eq!(state.get_cursor_index(), 8);
    state.cursor_start_next_word();
    assert_eq!(state.get_cursor_index(), 10);
}

#[test]
fn prev_word_lands_after_the_nearest_white_space() {
    let mut state = navigate_session("foo bar baz", 6);
    state.cursor_start_prev_word();
    assert_eq!(state.get_cursor_index(), 4);
    state.set_cursor_index(2);
    state.cursor_start_prev_word();
    assert_eq!(state.get_cursor_index(), 0);
}

#[test]
fn clamps_at_both_ends() {
    let mut state = navigate_session("ab\ncd", 0);
    state.dec_cursor();
    assert_eq!(state.get_cursor_index(), 0);
    state.cursor_line_up();
    assert_eq!(state.get_cursor_index(), 0);
    state.cursor_to_eof();
    assert_eq!(state.get_cursor_index(), 4);
    state.inc_cursor();
    assert_eq!(state.get_cursor_index(), 4);
    state.cursor_line_down();
    assert_eq!(state.get_cursor_index(), 4);
}

#[test]
fn an_empty_document_keeps_the_cursor_at_zero() {
    let mut state = navigate_session("", 7);
    assert_eq!(state.get_cursor_index(), 0);
    state.inc_cursor();
    state.cursor_line_down();
    state.cursor_to_eof();
    state.cursor_end_of_line();
    state.cursor_start_next_word();
    assert_eq!(state.get_cursor_index(), 0);
    assert_eq!(state.get_file_length_in_chars(), 0);
    assert!(state.get_editor_lines().is_empty());
}

#[test]
fn end_then_start_of_line_returns_to_column_zero() {
    let mut state = navigate_session("first\nsecond line\nthird", 9);
    state.cursor_end_of_line();
    assert_eq!(state.get_cursor_index(), 17);
    state.cursor_start_of_line();
    assert_eq!(state.get_cursor_index(), 6);
    let position = state.get_cursor_position();
    assert_eq!((position.x, position.y), (0, 1));
}

#[test]
fn line_down_clamps_the_column_to_a_shorter_line() {
    let mut state = navigate_session("a long line\nab\nanother long line\n", 8);
    state.cursor_line_down();
    assert_eq!(state.get_cursor_index(), 14);
    state.cursor_line_up();
    assert_eq!(state.get_cursor_index(), 2);
}

#[test]
fn line_up_clamps_the_column_to_a_shorter_line() {
    let mut state = navigate_session("ab\na long line\n", 10);
    state.cursor_line_up();
    assert_eq!(state.get_cursor_index(), 2);
}

#[test]
fn arrow_keys_move_like_their_letters() {
    let mut state = navigate_session("ab\ncd\n", 0);
    let mut handler = NavigateModeInputHandler::new();
    handler.handle_input(InputEvent::Right, &mut state);
    assert_eq!(state.get_cursor_index(), 1);
    handler.handle_input(InputEvent::Down, &mut state);
    assert_eq!(state.get_cursor_index(), 4);
    handler.handle_input(InputEvent::Left, &mut state);
    assert_eq!(state.get_cursor_index(), 3);
    handler.handle_input(InputEvent::Up, &mut state);
    assert_eq!(state.get_cursor_index(), 0);
}

#[test]
fn find_next_takes_an_argument_and_moves_down() {
    let mut state = navigate_session("a\nb\nc\nd\n", 0);
    let mut handler = NavigateModeInputHandler::new();
    type_keys(&mut handler, &mut state, "2f");
    assert_eq!(state.get_cursor_index(), 0);
    type_keys(&mut handler, &mut state, "x");
    assert_eq!(state.get_cursor_position().y, 2);
}

#[test]
fn find_next_takes_any_key_as_its_argument() {
    let mut state = navigate_session("a\nb\nc\nd\n", 0);
    let mut handler = NavigateModeInputHandler::new();
    type_keys(&mut handler, &mut state, "2f");
    assert_eq!(state.get_cursor_index(), 0);
    handler.handle_input(InputEvent::Down, &mut state);
    assert_eq!(state.get_cursor_index(), 4);
    assert_eq!(state.get_expression_state_description(), "None");
    type_keys(&mut handler, &mut state, "j");
    assert_eq!(state.get_cursor_index(), 6);
}

#[test]
fn find_next_without_a_count_moves_one_line_whatever_the_argument() {
    for argument in [InputEvent::Left, InputEvent::Other, InputEvent::Char('3'), InputEvent::Char('x')] {
        let mut state = navigate_session("a\nb\n", 0);
        let mut handler = NavigateModeInputHandler::new();
        handler.handle_input(InputEvent::Char('f'), &mut state);
        assert_eq!(state.get_cursor_index(), 0);
        handler.handle_input(argument, &mut state);
        assert_eq!(state.get_cursor_index(), 2);
        assert_eq!(state.get_expression_state_description(), "None");
    }
}

#[test]
fn q_asks_the_host_to_quit() {
    let mut state = navigate_session("text", 0);
    let mut handler = NavigateModeInputHandler::new();
    let requests = handler.handle_input(InputEvent::Char('q'), &mut state);
    assert_eq!(requests, vec![EditorRequest::Quit]);
}

#[test]
fn unknown_keys_are_ignored() {
    let mut state = navigate_session("text", 1);
    let mut handler = NavigateModeInputHandler::new();
    let requests = handler.handle_input(InputEvent::Char('z'), &mut state);
    assert!(requests.is_empty());
    assert!(handler.handle_input(InputEvent::Other, &mut state).is_empty());
    assert_eq!(state.get_cursor_index(), 1);
    assert_eq!(*state.get_mode(), Mode::Navigate);
}

#[test]
fn semicolon_enters_command_mode_and_enter_runs_the_line() {
    let mut state = navigate_session("text", 0);
    let mut keys = InputModeMultiplexer::new();
    assert!(keys.do_action_for_input(InputEvent::Char(';'), &mut state).is_empty());
    assert_eq!(*state.get_mode(), Mode::Command);
    keys.do_action_for_input(InputEvent::Char('w'), &mut state);
    keys.do_action_for_input(InputEvent::Char('x'), &mut state);
    keys.do_action_for_input(InputEvent::Char('q'), &mut state);
    assert_eq!(state.get_mode_input_buffer(), &vec!['w', 'x', 'q']);
    assert_eq!(keys.get_command_buffer(&state), &vec!['w', 'x', 'q']);
    let requests = keys.do_action_for_input(InputEvent::Char('\n'), &mut state);
    assert_eq!(requests, vec![EditorRequest::SaveFile, EditorRequest::Quit]);
    assert_eq!(*state.get_mode(), Mode::Navigate);
    assert!(state.get_mode_input_buffer().is_empty());
}

#[test]
fn command_handler_collects_until_enter() {
    let mut state = navigate_session("text", 0);
    state.set_mode(Mode::Command);
    let mut handler = CommandModeInputHandler::new();
    handler.push_input('q');
    handler.handle_input(InputEvent::Left, &mut state);
    assert_eq!(handler.get_input_buffer(), &vec!['q']);
    let requests = handler.handle_input(InputEvent::Char('\n'), &mut state);
    assert_eq!(requests, vec![EditorRequest::Quit]);
    assert!(handler.get_input_buffer().is_empty());
}

#[test]
fn insert_handler_takes_input_and_does_nothing() {
    let mut state = navigate_session("text", 2);
    state.set_mode(Mode::Insert);
    let mut handler = InsertModeInputHandler::new();
    handler.push_input('a');
    assert!(handler.handle_input(InputEvent::Char('a'), &mut state).is_empty());
    assert!(handler.get_input_buffer().is_empty());
    assert_eq!(state.get_cursor_index(), 2);
    assert_eq!(state.get_editor_lines(), vec!["text"]);
}

#[test]
fn repeat_prefix_is_read_as_std_reads_it() {
    for chain in ["", "0", "1", "12", "007", "+5", "+", "-3", "1a", " 1", "99999999999999999999999", "18446744073709551615", "18446744073709551616"] {
        assert_eq!(repeater_chain_to_usize(chain), chain.parse::<usize>().unwrap_or(1), "{:?}", chain);
    }
    assert_eq!(repeater_chain_to_usize("12"), 12);
    assert_eq!(repeater_chain_to_usize("x"), 1);
}

#[test]
fn numbers_are_written_as_std_writes_them() {
    for n in [0usize, 1, 9, 10, 11, 99, 100, 101, 1000, 987654321, usize::MAX] {
        assert_eq!(decimal_string(n), n.to_string());
        assert_eq!(repeater_chain_to_usize(&decimal_string(n)), n);
    }
}
