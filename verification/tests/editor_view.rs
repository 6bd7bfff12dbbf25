use bullet::editor_state::{CursorPosition, EditorState};
use bullet::editor_view::{width_of_number, Coordinate, EditorScroll, ViewState};

#[test]
fn coordinate_moves_by_one() {
    let mut cell = Coordinate { x: 3, y: 4 };
    cell.inc_x();
    cell.inc_y();
    assert_eq!(cell, Coordinate { x: 4, y: 5 });
    cell.dec_x();
    cell.dec_y();
    cell.dec_y();
    assert_eq!(cell, Coordinate { x: 3, y: 3 });
    cell.set_x(9);
    cell.set_y(0);
    assert_eq!(cell, Coordinate { x: 9, y: 0 });
}

#[test]
fn scroll_up_stops_at_the_first_line() {
    let mut scroll = EditorScroll::default();
    scroll.scroll_up();
    assert_eq!(scroll.v_scroll, 0);
    scroll.scroll_down();
    scroll.scroll_down();
    scroll.scroll_up();
    assert_eq!(scroll, EditorScroll { v_scroll: 1, h_scroll: 0 });
}

#[test]
fn numbers_are_as_wide_as_their_digits() {
    for n in [0usize, 1, 9, 10, 99, 100, 12345, usize::MAX] {
        assert_eq!(width_of_number(n), n.to_string().len());
    }
}

#[test]
fn window_scrolls_at_its_edges_and_places_the_cursor() {
    let mut view = ViewState::new(80, 5);
    let mut state = EditorState::new();
    view.cursor_mv_up(&mut state);
    assert_eq!(view.scroll.v_scroll, 0);
    view.cursor_coords.set_y(3);
    view.cursor_mv_down(&mut state);
    assert_eq!(view.scroll.v_scroll, 1);
    view.cursor_mv_right(&mut state);
    view.cursor_mv_right(&mut state);
    view.cursor_mv_left(&mut state);
    assert_eq!(view.cursor_coords.x, 1);
    view.set_cursor_x(81);
    assert_eq!(view.cursor_coords.x, 1);
    view.set_cursor_x(80);
    assert_eq!(view.cursor_coords.x, 80);
    view.cursor_mv_right(&mut state);
    assert_eq!(view.cursor_coords.x, 80);
    view.cursor_origin_x(&mut state);
    assert_eq!(view.cursor_coords.x, 0);

    for n in 2..=12 {
        state.content.insert_line(&n, "text");
    }
    state.set_position(CursorPosition { active_line: 4, active_col: 3 }).unwrap();
    assert_eq!(view.place_cursor(&state), 2);
    assert_eq!(view.cursor_coords, Coordinate { x: 2, y: 2 });
    assert_eq!(view.visible_lines(12), (1, 5));
    assert_eq!(view.visible_lines(3), (1, 3));
    assert_eq!(view.visible_lines(1), (1, 1));
}

#[test]
fn coordinate_is_described_by_its_numbers() {
    assert_eq!(Coordinate { x: 0, y: 12 }.description(), "x 0, y 12");
    assert_eq!(
        Coordinate { x: usize::MAX, y: 7 }.description(),
        format!("x {}, y 7", usize::MAX)
    );
}
