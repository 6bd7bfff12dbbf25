use bullet::context::{BulletContext, EditorContext};
use bullet::controller::events::InputEvent;
use bullet::editor_api::BulletApi;
use bullet::editor_state::{CursorBounds, CursorPosition, EditorState};
use bullet::editor_view::ViewState;
use bullet::widget::{
    Handling, Renderable, SearchWidget, SimpleWidgetRegistry, Widget, WidgetKey, WidgetRegistry,
};
use std::cell::RefCell;
use std::rc::Rc;

fn document() -> EditorState {
    let mut state = EditorState::new();
    state.content.append_to_line(1, "first line");
    state.content.insert_line(&2, "two");
    state.content.insert_line(&3, "the third line");
    state
}

fn context() -> BulletContext {
    BulletContext { view: Some(ViewState::new(80, 24)), model: document() }
}

fn at(context: &BulletContext) -> (usize, usize) {
    (context.model.position.active_line, context.model.position.active_col)
}

fn place(position: Result<CursorPosition, CursorBounds>) -> Result<(usize, usize), CursorBounds> {
    position.map(|p| (p.active_line, p.active_col))
}

#[test]
fn down_into_a_shorter_line_goes_to_its_end() {
    let mut context = context();
    context.model.set_position(CursorPosition { active_line: 1, active_col: 8 }).unwrap();
    assert_eq!(place(context.cursor_down()), Ok((2, 4)));
    assert_eq!(place(context.cursor_down()), Ok((3, 4)));
    assert_eq!(place(context.cursor_down()), Ok((3, 15)));
    assert_eq!(at(&context), (3, 15));
}

#[test]
fn up_into_a_shorter_line_goes_to_its_end_and_stops_at_the_first_line() {
    let mut context = context();
    context.model.set_position(CursorPosition { active_line: 3, active_col: 10 }).unwrap();
    assert_eq!(place(context.cursor_up()), Ok((2, 4)));
    assert_eq!(place(context.cursor_up()), Ok((1, 4)));
    assert_eq!(place(context.cursor_up()), Ok((1, 1)));
}

#[test]
fn left_and_right_stop_at_the_ends_of_the_line() {
    let mut context = context();
    assert_eq!(place(context.cursor_left()), Err(CursorBounds::ColumnOutOfBounds));
    assert_eq!(place(context.cursor_right()), Ok((1, 2)));
    assert_eq!(place(context.cursor_to_end_of_current_line()), Ok((1, 11)));
    assert_eq!(place(context.cursor_right()), Err(CursorBounds::ColumnOutOfBounds));
    assert_eq!(place(context.cursor_origin_x()), Ok((1, 1)));
    assert_eq!(place(context.cursor_origin()), Ok((1, 1)));
    assert_eq!(context.view.as_ref().map(|view| view.cursor_coords.x), Some(0));
}

#[test]
fn backspace_in_the_first_column_joins_the_line_to_the_one_above() {
    let mut context = context();
    context.model.set_position(CursorPosition { active_line: 2, active_col: 1 }).unwrap();
    assert_eq!(place(context.delete_char_back()), Ok((1, 11)));
    assert_eq!(context.get_number_of_lines(), 2);
    assert_eq!(context.model.get_line_by_line_number(&1).content, "first linetwo");
    assert_eq!(context.model.get_line_by_line_number(&2).content, "the third line");
}

#[test]
fn backspace_removes_the_character_before_the_cursor() {
    let mut context = context();
    context.model.set_position(CursorPosition { active_line: 2, active_col: 4 }).unwrap();
    assert_eq!(place(context.delete_char_back()), Ok((2, 3)));
    assert_eq!(context.model.get_line_by_line_number(&2).content, "tw");
    context.model.set_position(CursorPosition { active_line: 1, active_col: 1 }).unwrap();
    assert_eq!(place(context.delete_char_back()), Err(CursorBounds::ColumnOutOfBounds));
    assert_eq!(context.model.get_line_by_line_number(&1).content, "first line");
}

#[test]
fn context_edits_the_document() {
    let mut context = context();
    context.insert_char(&'X', &2, &1);
    context.insert_line_below();
    context.append_to_line(3, "!");
    assert_eq!(context.get_current_line_number(), 1);
    assert_eq!(context.get_number_of_lines(), 4);
    assert_eq!(context.model.get_line_by_line_number(&2).content, "");
    assert_eq!(context.model.get_line_by_line_number(&3).content, "Xtwo!");
}

#[test]
fn api_moves_without_a_window() {
    let mut api = BulletApi { view: None, model: document() };
    assert_eq!(place(api.cursor_down()), Ok((2, 1)));
    assert_eq!(place(api.cursor_to_end_of_current_line()), Ok((2, 4)));
    assert_eq!(place(api.cursor_down()), Ok((3, 4)));
    assert_eq!(place(api.cursor_down()), Err(CursorBounds::RowOutOfBounds));
    assert_eq!(place(api.cursor_to_end_of_current_line()), Ok((3, 15)));
    assert_eq!(place(api.cursor_up()), Ok((2, 4)));
    assert_eq!(place(api.cursor_right()), Err(CursorBounds::ColumnOutOfBounds));
    assert_eq!(place(api.cursor_left()), Ok((2, 3)));
    assert_eq!(place(api.cursor_up()), Ok((1, 3)));
    assert_eq!(place(api.cursor_up()), Ok((1, 1)));
    assert_eq!(place(api.cursor_origin_x()), Ok((1, 1)));
    assert_eq!(place(api.cursor_origin()), Ok((1, 1)));
    api.insert_char(&'>', &1, &1);
    api.insert_line_below();
    assert_eq!(api.get_current_line(), ">first line");
    assert_eq!(api.get_current_line_number(), 1);
    assert_eq!(api.get_number_of_lines(), 4);
}

#[test]
fn search_widget_is_switched_and_shown() {
    let mut widget = SearchWidget::new(WidgetKey::MainEditor);
    assert_eq!(widget.get_key(), WidgetKey::Search);
    assert!(!widget.is_active());
    assert!(!widget.is_displayed());
    assert_eq!(widget.search_text, "");
    assert_eq!(widget.num_matches, 0);
    widget.activate();
    widget.show();
    assert!(widget.is_active() && widget.is_displayed());
    widget.deactivate();
    widget.hide_from_screen();
    assert!(!widget.is_active() && !widget.is_displayed());
    let mut context = context();
    widget.handle_input(InputEvent::Char('a'), &mut context);
    SearchWidget::render(&widget, &ViewState::new(80, 24));
    assert_eq!(at(&context), (1, 1));
}

#[test]
fn registry_switches_on_the_widget_under_the_key() {
    let mut registry: SimpleWidgetRegistry<SearchWidget, BulletContext> =
        SimpleWidgetRegistry::new(context());
    let mut widget = SearchWidget::new(WidgetKey::Search);
    widget.search_text = String::from("old");
    registry.register_widget(widget);
    let mut replacement = SearchWidget::new(WidgetKey::Search);
    replacement.search_text = String::from("new");
    registry.register_widget(replacement);
    registry.activate_widget(WidgetKey::Search);
    registry.forward_input(InputEvent::Char('x'));
    registry.activate_widget(WidgetKey::InfoBar);
    registry.forward_input(InputEvent::Char('y'));
}

#[test]
fn context_is_ready_with_a_window_and_a_valid_cursor() {
    let mut context = context();
    assert!(context.is_ready());
    assert!(context.model.has_valid_position());
    context.model.position = CursorPosition { active_line: 2, active_col: 5 };
    assert!(!context.model.has_valid_position());
    assert!(!context.is_ready());
    context.model.position = CursorPosition { active_line: 2, active_col: 4 };
    assert!(context.is_ready());
    context.model.position = CursorPosition { active_line: 0, active_col: 1 };
    assert!(!context.is_ready());
    context.model.position = CursorPosition { active_line: 4, active_col: 1 };
    assert!(!context.is_ready());
    context.model.position = CursorPosition { active_line: 1, active_col: 0 };
    assert!(!context.is_ready());
    context.model.position = CursorPosition { active_line: 1, active_col: 1 };
    context.view = Some(ViewState::new(80, 1));
    assert!(!context.is_ready());
    context.view = None;
    assert!(!context.is_ready());
}

/// A widget that moves the cursor one column right for every input and
/// notes where the cursor then stands.
struct Stepper {
    key: WidgetKey,
    active: bool,
    seen: Rc<RefCell<Vec<(char, usize)>>>,
}

impl Widget for Stepper {
    fn key(&self) -> WidgetKey {
        self.key
    }

    fn active(&self) -> bool {
        self.active
    }

    fn new(key: WidgetKey) -> Self {
        Stepper { key, active: false, seen: Rc::new(RefCell::new(Vec::new())) }
    }

    fn get_key(&self) -> WidgetKey {
        self.key
    }

    fn is_active(&self) -> bool {
        self.active
    }

    fn activate(&mut self) {
        self.active = true;
    }

    fn deactivate(&mut self) {
        self.active = false;
    }

    fn handle_input<C: EditorContext>(&self, input: InputEvent, context: &mut C) {
        if let (InputEvent::Char(c), Ok(position)) = (input, context.cursor_right()) {
            self.seen.borrow_mut().push((c, position.active_col));
        }
    }
}

impl<C: EditorContext> Handling<C> for Stepper {
    fn handles(&self, _input: InputEvent, _before: C, _after: C) -> bool {
        true
    }
}

fn stepper(key: WidgetKey, active: bool, seen: &Rc<RefCell<Vec<(char, usize)>>>) -> Stepper {
    let mut widget = Stepper::new(key);
    widget.active = active;
    widget.seen = seen.clone();
    widget
}

#[test]
fn input_goes_to_the_widgets_that_are_switched_on_one_after_another() {
    let seen = Rc::new(RefCell::new(Vec::new()));
    let mut registry: SimpleWidgetRegistry<Stepper, BulletContext> =
        SimpleWidgetRegistry::new(context());
    registry.register_widget(stepper(WidgetKey::MainEditor, true, &seen));
    registry.register_widget(stepper(WidgetKey::InfoBar, false, &seen));
    registry.register_widget(stepper(WidgetKey::Search, true, &seen));
    registry.forward_input(InputEvent::Char('a'));
    assert_eq!(*seen.borrow(), vec![('a', 2), ('a', 3)]);
    registry.activate_widget(WidgetKey::InfoBar);
    registry.forward_input(InputEvent::Char('b'));
    assert_eq!(*seen.borrow(), vec![('a', 2), ('a', 3), ('b', 4)]);
    registry.activate_widget(WidgetKey::MainEditor);
    registry.forward_input(InputEvent::Left);
    assert_eq!(seen.borrow().len(), 3);
}

#[test]
fn a_registry_without_a_widget_switched_on_forwards_to_none() {
    let seen = Rc::new(RefCell::new(Vec::new()));
    let mut registry: SimpleWidgetRegistry<Stepper, BulletContext> =
        SimpleWidgetRegistry::new(context());
    registry.forward_input(InputEvent::Char('a'));
    registry.register_widget(stepper(WidgetKey::Search, false, &seen));
    registry.forward_input(InputEvent::Char('a'));
    assert!(seen.borrow().is_empty());
}
