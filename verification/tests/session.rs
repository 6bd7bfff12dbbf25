use bullet::controller::events::InputEvent;
use bullet::controller::input::{
    Action, ExecutableExpr, ExprState, FnAlias, FnArg, ModeInputHandler, NavigateModeInputHandler,
    Repeatable,
};
use bullet::controller::commands::{build_fn_from_event, build_op_from_event, event_to_fn_alias};
use bullet::controller::input::{event_digit, next_state, run_expression};
use bullet::controller::util::{apply_action, repeat_state_op};
use bullet::data::editor_state::{EditorState, Mode, StateApi};
use bullet::data::piece_table::PieceTable;

fn session(text: &str, cursor: usize) -> EditorState {
    EditorState::new(String::from("notes.txt"), Mode::Navigate, cursor, PieceTable::new(text), vec![])
}

#[test]
fn insert_x_into_a_one_line_empty_document() {
    let mut state = session("\n", 0);
    assert_eq!(state.get_editor_lines(), vec![""]);
    assert!(state.has_room_for(1));
    assert_eq!(state.offset_of(1, 1), Some(0));
    state.insert_char('X', 1, 1);
    assert_eq!(state.get_editor_lines(), vec!["X"]);
    assert_eq!(state.get_cursor_index(), 0);
}

#[test]
fn a_new_session_starts_in_its_mode_with_nothing_pending() {
    let state = EditorState::new(
        String::from("a.txt"),
        Mode::Insert,
        3,
        PieceTable::new("hello"),
        vec!['x'],
    );
    assert_eq!(*state.get_mode(), Mode::Insert);
    assert_eq!(state.get_active_file_name(), "a.txt");
    assert_eq!(state.get_mode_input_buffer(), &vec!['x']);
    assert_eq!(state.get_cursor_index(), 3);
    assert_eq!(state.get_file_length_in_chars(), 5);
    assert_eq!(state.get_expression_state_description(), "None");
    assert_eq!(state.get_text(), "hello");
    assert_eq!(state.get_piece_table().char_count(), 5);
}

#[test]
fn a_cursor_past_the_end_is_put_on_the_last_character() {
    let mut state = session("hello", 99);
    assert_eq!(state.get_cursor_index(), 4);
    state.set_cursor_index(2);
    assert_eq!(state.get_cursor_index(), 2);
    state.set_cursor_index(5);
    assert_eq!(state.get_cursor_index(), 4);
}

#[test]
fn cursor_position_counts_lines_and_columns_from_zero() {
    let state = session("ab\ncde\n", 5);
    let position = state.get_cursor_position();
    assert_eq!((position.x, position.y), (2, 1));
    let at_separator = session("ab\ncde\n", 2).get_cursor_position();
    assert_eq!((at_separator.x, at_separator.y), (2, 0));
}

#[test]
fn edits_keep_the_cursor_inside_the_document() {
    let mut state = session("ab\ncd", 4);
    state.delete_char_before(5);
    assert_eq!(state.get_text(), "ab\nc");
    assert_eq!(state.get_cursor_index(), 3);
    assert_eq!(state.delete_line(2), "c");
    assert_eq!(state.get_text(), "ab\n");
    assert_eq!(state.get_cursor_index(), 2);
    state.insert_line(1, "first");
    assert_eq!(state.get_editor_lines(), vec!["first", "ab"]);
    assert_eq!(state.get_cursor_index(), 2);
    state.append_to_line(2, "c");
    assert_eq!(state.get_text(), "first\nabc\n");
}

#[test]
fn mode_names_are_their_variant_names() {
    assert_eq!(Mode::Navigate.name(), "Navigate");
    assert_eq!(Mode::Command.name(), "Command");
    assert_eq!(Mode::Insert.name(), "Insert");
}

#[test]
fn keystroke_table_is_the_one_of_the_grammar() {
    let op = |event: InputEvent| build_op_from_event(&event);
    assert_eq!(op(InputEvent::Char('h')), Some(ExecutableExpr::Operator(Action::Left)));
    assert_eq!(op(InputEvent::Left), Some(ExecutableExpr::Operator(Action::Left)));
    assert_eq!(op(InputEvent::Char('l')), Some(ExecutableExpr::Operator(Action::Right)));
    assert_eq!(op(InputEvent::Right), Some(ExecutableExpr::Operator(Action::Right)));
    assert_eq!(op(InputEvent::Char('j')), Some(ExecutableExpr::Operator(Action::Down)));
    assert_eq!(op(InputEvent::Down), Some(ExecutableExpr::Operator(Action::Down)));
    assert_eq!(op(InputEvent::Char('k')), Some(ExecutableExpr::Operator(Action::Up)));
    assert_eq!(op(InputEvent::Up), Some(ExecutableExpr::Operator(Action::Up)));
    assert_eq!(op(InputEvent::Char('w')), Some(ExecutableExpr::Operator(Action::StartNextWord)));
    assert_eq!(op(InputEvent::Char('b')), Some(ExecutableExpr::Operator(Action::StartPrevWord)));
    assert_eq!(op(InputEvent::Char('^')), Some(ExecutableExpr::Operator(Action::StartOfLine)));
    assert_eq!(op(InputEvent::Char('$')), Some(ExecutableExpr::Operator(Action::EndOfLine)));
    assert_eq!(op(InputEvent::Char(';')), Some(ExecutableExpr::Operator(Action::ToCommandMode)));
    assert_eq!(op(InputEvent::Char('q')), Some(ExecutableExpr::Operator(Action::ExitEditor)));
    assert_eq!(op(InputEvent::Char('f')), None);
    assert_eq!(op(InputEvent::Other), None);
    assert_eq!(event_to_fn_alias(&InputEvent::Char('f')), FnAlias::FindNext);
    assert_eq!(event_to_fn_alias(&InputEvent::Char('g')), FnAlias::NoOp);
    assert_eq!(
        build_fn_from_event(&InputEvent::Char('f')),
        Some(ExecutableExpr::Function(FnAlias::FindNext, FnArg::NoArg))
    );
    assert_eq!(build_fn_from_event(&InputEvent::Left), None);
    assert_eq!(event_digit(&InputEvent::Char('7')), Some('7'));
    assert_eq!(event_digit(&InputEvent::Char('x')), None);
    assert_eq!(event_digit(&InputEvent::Up), None);
}

#[test]
fn grammar_walks_through_its_states() {
    let waiting = ExprState::Waiting;
    let one = next_state(&waiting, &InputEvent::Char('1'));
    assert_eq!(one.description(), "Repeat ( 1x, _ )");
    let twelve = next_state(&one, &InputEvent::Char('2'));
    assert_eq!(twelve.description(), "Repeat ( 12x, _ )");
    let function = next_state(&twelve, &InputEvent::Char('f'));
    assert_eq!(function.description(), "Repeat ( 12x, FindNext ( _ ) )");
    assert!(matches!(function, ExprState::Function { .. }));
    let execute = next_state(&function, &InputEvent::Char('x'));
    assert_eq!(execute.description(), "Repeat ( 12x, FindNext ( x ) )");
    assert!(matches!(execute, ExprState::Execute { .. }));
    assert!(matches!(next_state(&execute, &InputEvent::Char('j')), ExprState::Waiting));
    let without_argument = next_state(&function, &InputEvent::Left);
    assert_eq!(without_argument.description(), "Repeat ( 12x, FindNext ( _ ) )");
    assert!(matches!(without_argument, ExprState::Execute { .. }));
    let direct = next_state(&waiting, &InputEvent::Char('w'));
    assert_eq!(direct.description(), "Repeat ( 1x, CursorTo ( StartNextWord ) )");
    let unknown = next_state(&twelve, &InputEvent::Char('z'));
    assert_eq!(unknown.description(), "Repeat ( 12x, _ )");
    assert!(matches!(unknown, ExprState::Execute { .. }));
    assert_eq!(ExprState::Waiting.description(), "None");
}

#[test]
fn names_of_actions_and_functions() {
    assert_eq!(Action::Right.description(), "Right");
    assert_eq!(Action::ExitEditor.description(), "ExitEditor");
    assert_eq!(FnAlias::NoOp.description(), "NoOp");
    assert_eq!(FnArg::NoArg.description(), "_");
    assert_eq!(FnArg::Argument('é').description(), "é");
    assert_eq!(
        ExecutableExpr::Function(FnAlias::FindNext, FnArg::Argument('a')).description(),
        "FindNext ( a )"
    );
    assert_eq!(ExecutableExpr::Operator(Action::Up).description(), "CursorTo ( Up )");
}

#[test]
fn handler_shows_its_state_on_the_session() {
    let mut state = session("a\nb\nc\n", 0);
    let mut handler = NavigateModeInputHandler::new();
    handler.handle_input(InputEvent::Char('4'), &mut state);
    assert_eq!(state.get_expression_state_description(), "Repeat ( 4x, _ )");
    assert_eq!(handler.get_state().description(), "Repeat ( 4x, _ )");
    handler.handle_input(InputEvent::Char('2'), &mut state);
    assert_eq!(state.get_expression_state().description(), "Repeat ( 42x, _ )");
    handler.handle_input(InputEvent::Char('j'), &mut state);
    assert_eq!(state.get_expression_state_description(), "None");
    assert_eq!(state.get_cursor_index(), 5);
    assert_eq!(state.get_cursor_position().y, 2);
    handler.push_input('x');
    assert_eq!(handler.get_input_buffer(), &vec!['x']);
}

#[test]
fn zero_as_a_count_runs_nothing() {
    let mut state = session("abc", 1);
    let mut handler = NavigateModeInputHandler::new();
    handler.handle_input(InputEvent::Char('0'), &mut state);
    handler.handle_input(InputEvent::Char('l'), &mut state);
    assert_eq!(state.get_cursor_index(), 1);
}

#[test]
fn a_count_too_large_to_read_runs_once() {
    let mut state = session("abcdef", 0);
    let mut handler = NavigateModeInputHandler::new();
    for key in "99999999999999999999999999l".chars() {
        handler.handle_input(InputEvent::Char(key), &mut state);
    }
    assert_eq!(state.get_cursor_index(), 1);
}

#[test]
fn actions_run_once_or_many_times() {
    let mut state = session("one two three\nfour\n", 0);
    apply_action(&Action::StartNextWord, &mut state);
    assert_eq!(state.get_cursor_index(), 4);
    repeat_state_op(&3, &Action::Right, &mut state);
    assert_eq!(state.get_cursor_index(), 7);
    repeat_state_op(&0, &Action::Down, &mut state);
    assert_eq!(state.get_cursor_index(), 7);
    apply_action(&Action::ToCommandMode, &mut state);
    apply_action(&Action::ExitEditor, &mut state);
    assert_eq!(state.get_cursor_index(), 7);
    assert_eq!(*state.get_mode(), Mode::Navigate);
    let expression = Repeatable {
        times: String::from("2"),
        expr: Some(ExecutableExpr::Operator(Action::Left)),
    };
    assert!(run_expression(&expression, &mut state).is_empty());
    assert_eq!(state.get_cursor_index(), 5);
    let pending = Repeatable {
        times: String::from("2"),
        expr: Some(ExecutableExpr::Function(FnAlias::FindNext, FnArg::NoArg)),
    };
    assert!(run_expression(&pending, &mut state).is_empty());
    assert_eq!(state.get_cursor_index(), 18);
    let nothing = Repeatable { times: String::from("2"), expr: None };
    assert!(run_expression(&nothing, &mut state).is_empty());
    let no_function = Repeatable {
        times: String::from("2"),
        expr: Some(ExecutableExpr::Function(FnAlias::NoOp, FnArg::Argument('x'))),
    };
    assert!(run_expression(&no_function, &mut state).is_empty());
    assert_eq!(state.get_cursor_index(), 18);
}
