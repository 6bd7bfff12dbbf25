//! The expression grammar of navigate mode and the input handlers of the
//! three modes.

use vstd::prelude::*;
use vstd::string::StringExecFns;
use crate::controller::commands::{build_op_from_event, event_to_fn_alias, fn_alias_of, op_of};
use crate::controller::events::{EditorRequest, InputEvent};
use crate::controller::util::{
    is_digit, repeat_count, repeat_motion, repeat_state_op, repeater_chain_to_usize,
};
use crate::data::chars::{push_char, string_of_char};
use crate::data::editor_state::{EditorModel, EditorState, Mode, StateApi};

verus! {

/// What a resolved keystroke does.
#[derive(Clone, Copy, Debug, PartialEq, Eq)]
pub enum Action {
    Right,
    Left,
    Down,
    Up,
    StartNextWord,
    StartPrevWord,
    StartOfLine,
    EndOfLine,
    ToCommandMode,
    ExitEditor,
}

/// A command that waits for one more keystroke as its argument.
#[derive(Clone, Copy, Debug, PartialEq, Eq)]
pub enum FnAlias {
    FindNext,
    NoOp,
}

/// The argument of a function, once it has been typed.
#[derive(Clone, Copy, Debug, PartialEq, Eq)]
pub enum FnArg {
    NoArg,
    Argument(char),
}

/// What an expression resolves to: an operator, or a function with its
/// argument.
#[derive(Clone, Copy, Debug, PartialEq, Eq)]
pub enum ExecutableExpr {
    Operator(Action),
    Function(FnAlias, FnArg),
}

/// An expression under construction: the digits of its repeat count as they
/// were typed, and what it will run.
#[derive(Debug)]
pub struct Repeatable {
    pub times: String,
    pub expr: Option<ExecutableExpr>,
}

/// The mathematical content of a [`Repeatable`].
pub struct RepeatableView {
    pub times: Seq<char>,
    pub expr: Option<ExecutableExpr>,
}

impl View for Repeatable {
    type V = RepeatableView;

    open spec fn view(&self) -> RepeatableView {
        RepeatableView { times: self.times@, expr: self.expr }
    }
}

impl Clone for Repeatable {
    fn clone(&self) -> (copy: Self)
        ensures
            copy == *self,
    {
        Repeatable { times: self.times.clone(), expr: self.expr }
    }
}

/// Where the expression grammar stands. Each state names the last input
/// seen, not the one expected next.
#[derive(Debug)]
pub enum ExprState {
    /// Nothing is pending.
    Waiting,
    /// A function key was typed; the next key is its argument.
    Function { repeatable: Repeatable },
    /// One or more digits of a repeat count were typed.
    Repeater { repeatable: Repeatable },
    /// The expression is complete and runs now.
    Execute { repeatable: Repeatable },
}

/// The mathematical content of an [`ExprState`].
pub enum ExprStateView {
    Waiting,
    Function { repeatable: RepeatableView },
    Repeater { repeatable: RepeatableView },
    Execute { repeatable: RepeatableView },
}

impl View for ExprState {
    type V = ExprStateView;

    open spec fn view(&self) -> ExprStateView {
        match *self {
            ExprState::Waiting => ExprStateView::Waiting,
            ExprState::Function { repeatable } => ExprStateView::Function {
                repeatable: repeatable@,
            },
            ExprState::Repeater { repeatable } => ExprStateView::Repeater {
                repeatable: repeatable@,
            },
            ExprState::Execute { repeatable } => ExprStateView::Execute {
                repeatable: repeatable@,
            },
        }
    }
}

impl Clone for ExprState {
    fn clone(&self) -> (copy: Self)
        ensures
            copy == *self,
    {
        match self {
            ExprState::Waiting => ExprState::Waiting,
            ExprState::Function { repeatable } => ExprState::Function {
                repeatable: repeatable.clone(),
            },
            ExprState::Repeater { repeatable } => ExprState::Repeater {
                repeatable: repeatable.clone(),
            },
            ExprState::Execute { repeatable } => ExprState::Execute {
                repeatable: repeatable.clone(),
            },
        }
    }
}

/// The state an operator or function key leads to when the repeat count so
/// far is written `times`: a function key waits for its argument, any other
/// key completes the expression.
pub open spec fn resolve(times: Seq<char>, event: InputEvent) -> ExprStateView {
    match fn_alias_of(event) {
        FnAlias::NoOp => ExprStateView::Execute {
            repeatable: RepeatableView { times, expr: op_of(event) },
        },
        alias => ExprStateView::Function {
            repeatable: RepeatableView {
                times,
                expr: Some(ExecutableExpr::Function(alias, FnArg::NoArg)),
            },
        },
    }
}

/// The digit that `event` types, if it types one.
pub open spec fn digit_of(event: InputEvent) -> Option<char> {
    match event {
        InputEvent::Char(c) => if is_digit(c) {
            Some(c)
        } else {
            None
        },
        _ => None,
    }
}

/// The argument that `event` gives to a function: the character it types,
/// or none if it types no character.
pub open spec fn argument_of(event: InputEvent) -> FnArg {
    match event {
        InputEvent::Char(ch) => FnArg::Argument(ch),
        _ => FnArg::NoArg,
    }
}

/// The transition of the expression grammar on one input: digits are
/// collected as the repeat count, a function key then waits for one more
/// key as its argument, and any other key completes the expression.
pub open spec fn next_expr_state(state: ExprStateView, event: InputEvent) -> ExprStateView {
    match state {
        ExprStateView::Waiting => match digit_of(event) {
            Some(c) => ExprStateView::Repeater {
                repeatable: RepeatableView { times: seq![c], expr: None },
            },
            None => resolve(seq!['1'], event),
        },
        ExprStateView::Repeater { repeatable } => match digit_of(event) {
            Some(c) => ExprStateView::Repeater {
                repeatable: RepeatableView { times: repeatable.times.push(c), expr: None },
            },
            None => resolve(repeatable.times, event),
        },
        ExprStateView::Function { repeatable } => match repeatable.expr {
            Some(ExecutableExpr::Function(alias, _)) => ExprStateView::Execute {
                repeatable: RepeatableView {
                    times: repeatable.times,
                    expr: Some(ExecutableExpr::Function(alias, argument_of(event))),
                },
            },
            _ => ExprStateView::Waiting,
        },
        ExprStateView::Execute { repeatable } => ExprStateView::Waiting,
    }
}

/// The state the grammar rests in after an input: a complete expression
/// runs at once and leaves nothing pending.
pub open spec fn settled(next: ExprStateView) -> ExprStateView {
    match next {
        ExprStateView::Execute { repeatable } => ExprStateView::Waiting,
        _ => next,
    }
}

/// What running a complete expression does to the session: a motion runs as
/// often as its repeat count says, `find-next` moves down that many lines
/// whatever key was given as its argument, the switch to command mode
/// happens once.
pub open spec fn expression_effect(expression: RepeatableView, m: EditorModel) -> EditorModel {
    match expression.expr {
        Some(ExecutableExpr::Operator(Action::ToCommandMode)) => EditorModel {
            mode: Mode::Command,
            ..m
        },
        Some(ExecutableExpr::Operator(Action::ExitEditor)) => m,
        Some(ExecutableExpr::Operator(action)) => EditorModel {
            cursor: repeat_motion(action, m.text, m.cursor, repeat_count(expression.times)),
            ..m
        },
        Some(ExecutableExpr::Function(FnAlias::FindNext, _)) => EditorModel {
            cursor: repeat_motion(Action::Down, m.text, m.cursor, repeat_count(expression.times)),
            ..m
        },
        _ => m,
    }
}

/// What running a complete expression asks of the host.
pub open spec fn expression_requests(expression: RepeatableView) -> Seq<EditorRequest> {
    match expression.expr {
        Some(ExecutableExpr::Operator(Action::ExitEditor)) => seq![EditorRequest::Quit],
        _ => Seq::empty(),
    }
}

/// The session after navigate mode has handled `event` in grammar state
/// `state`.
pub open spec fn navigate_effect(
    state: ExprStateView,
    event: InputEvent,
    m: EditorModel,
) -> EditorModel {
    let next = next_expr_state(state, event);
    match next {
        ExprStateView::Execute { repeatable } => EditorModel {
            expression_state: ExprStateView::Waiting,
            ..expression_effect(repeatable, m)
        },
        _ => EditorModel { expression_state: next, ..m },
    }
}

/// What navigate mode asks of the host after it has handled `event` in
/// grammar state `state`.
pub open spec fn navigate_requests(state: ExprStateView, event: InputEvent) -> Seq<
    EditorRequest,
> {
    match next_expr_state(state, event) {
        ExprStateView::Execute { repeatable } => expression_requests(repeatable),
        _ => Seq::empty(),
    }
}

/// What a command line asks of the host: `w` saves, `q` quits, each
/// character on its own and in the order typed; any other is ignored.
pub open spec fn command_requests(line: Seq<char>) -> Seq<EditorRequest>
    decreases line.len(),
{
    if line.len() == 0 {
        Seq::empty()
    } else {
        let before = command_requests(line.drop_last());
        if line.last() == 'w' {
            before.push(EditorRequest::SaveFile)
        } else if line.last() == 'q' {
            before.push(EditorRequest::Quit)
        } else {
            before
        }
    }
}

/// The digit that `event` types, if it types one.
pub fn event_digit(event: &InputEvent) -> (digit: Option<char>)
    ensures
        digit == digit_of(*event),
{
    match event {
        InputEvent::Char(c) => match *c {
            '0' | '1' | '2' | '3' | '4' | '5' | '6' | '7' | '8' | '9' => Some(*c),
            _ => None,
        },
        _ => None,
    }
}

/// The state an operator or function key leads to when the repeat count so
/// far is written `times`.
fn resolve_event(times: String, event: &InputEvent) -> (next: ExprState)
    ensures
        next@ == resolve(times@, *event),
{
    match event_to_fn_alias(event) {
        FnAlias::NoOp => ExprState::Execute {
            repeatable: Repeatable { times, expr: build_op_from_event(event) },
        },
        alias => ExprState::Function {
            repeatable: Repeatable {
                times,
                expr: Some(ExecutableExpr::Function(alias, FnArg::NoArg)),
            },
        },
    }
}

/// The transition of the expression grammar on one input.
pub fn next_state(current: &ExprState, event: &InputEvent) -> (next: ExprState)
    ensures
        next@ == next_expr_state(current@, *event),
{
    match current {
        ExprState::Waiting => match event_digit(event) {
            Some(c) => ExprState::Repeater {
                repeatable: Repeatable { times: string_of_char(c), expr: None },
            },
            None => resolve_event(string_of_char('1'), event),
        },
        ExprState::Repeater { repeatable } => match event_digit(event) {
            Some(c) => {
                let mut times = repeatable.times.clone();
                push_char(&mut times, c);
                ExprState::Repeater { repeatable: Repeatable { times, expr: None } }
            },
            None => resolve_event(repeatable.times.clone(), event),
        },
        ExprState::Function { repeatable } => match repeatable.expr {
            Some(ExecutableExpr::Function(alias, _)) => {
                let argument = match event {
                    InputEvent::Char(ch) => FnArg::Argument(*ch),
                    _ => FnArg::NoArg,
                };
                ExprState::Execute {
                    repeatable: Repeatable {
                        times: repeatable.times.clone(),
                        expr: Some(ExecutableExpr::Function(alias, argument)),
                    },
                }
            },
            _ => ExprState::Waiting,
        },
        ExprState::Execute { repeatable } => ExprState::Waiting,
    }
}

/// Runs a complete expression on the session and says what is left for the
/// host to do.
pub fn run_expression(expression: &Repeatable, state: &mut EditorState) -> (requests: Vec<
    EditorRequest,
>)
    requires
        old(state).wf(),
    ensures
        final(state).wf(),
        final(state)@ == expression_effect(expression@, old(state)@),
        requests@ == expression_requests(expression@),
{
    let mut requests: Vec<EditorRequest> = Vec::new();
    match expression.expr {
        Some(ExecutableExpr::Operator(Action::ToCommandMode)) => {
            state.set_mode(Mode::Command);
        },
        Some(ExecutableExpr::Operator(Action::ExitEditor)) => {
            requests.push(EditorRequest::Quit);
        },
        Some(ExecutableExpr::Operator(action)) => {
            let times = repeater_chain_to_usize(expression.times.as_str());
            repeat_state_op(&times, &action, state);
        },
        Some(ExecutableExpr::Function(FnAlias::FindNext, _)) => {
            let times = repeater_chain_to_usize(expression.times.as_str());
            repeat_state_op(&times, &Action::Down, state);
        },
        _ => {},
    }
    requests
}

/// What each mode's input handler offers.
pub trait ModeInputHandler {
    /// The input the handler has collected and not yet run.
    spec fn input_buffer(&self) -> Seq<char>;

    /// Handles one input event and says what is left for the host to do.
    fn handle_input(&mut self, event: InputEvent, state: &mut EditorState) -> (requests: Vec<
        EditorRequest,
    >)
        requires
            old(state).wf(),
        ensures
            final(state).wf(),
    ;

    /// The input collected so far, for the status bar.
    fn get_input_buffer(&self) -> (buffer: &Vec<char>)
        ensures
            buffer@ == self.input_buffer(),
    ;

    /// Adds a character to the collected input.
    fn push_input(&mut self, ch: char)
    ;
}

/// Navigate mode: reads keystrokes as expressions of the grammar
/// `[count] operator` or `[count] function argument` and runs them.
pub struct NavigateModeInputHandler {
    expression_state: ExprState,
    command_buffer: Vec<char>,
}

impl NavigateModeInputHandler {
    /// Where the expression grammar stands.
    pub closed spec fn expression(&self) -> ExprStateView {
        self.expression_state@
    }

    /// A handler with nothing pending.
    pub fn new() -> (handler: Self)
        ensures
            handler.expression() == ExprStateView::Waiting,
            handler.input_buffer() == Seq::<char>::empty(),
    {
        Self { expression_state: ExprState::Waiting, command_buffer: Vec::new() }
    }

    /// Moves the grammar to `state` and shows it on the session.
    fn goto_state(&mut self, editor_state: &mut EditorState, state: ExprState)
        ensures
            final(self).expression() == state@,
            final(self).input_buffer() == old(self).input_buffer(),
            final(editor_state)@ == (EditorModel {
                expression_state: state@,
                ..old(editor_state)@
            }),
            old(editor_state).wf() ==> final(editor_state).wf(),
    {
        editor_state.set_expression_state(state.clone());
        self.expression_state = state;
    }

    /// Where the expression grammar stands.
    pub fn get_state(&self) -> (state: &ExprState)
        ensures
            state@ == self.expression(),
    {
        &self.expression_state
    }
}

impl ModeInputHandler for NavigateModeInputHandler {
    closed spec fn input_buffer(&self) -> Seq<char> {
        self.command_buffer@
    }

    fn handle_input(&mut self, event: InputEvent, state: &mut EditorState) -> (requests: Vec<
        EditorRequest,
    >)
        ensures
            final(self).expression() == settled(next_expr_state(old(self).expression(), event)),
            final(self).input_buffer() == old(self).input_buffer(),
            final(state)@ == navigate_effect(old(self).expression(), event, old(state)@),
            requests@ == navigate_requests(old(self).expression(), event),
    {
        let move_to_state = next_state(&self.expression_state, &event);
        match move_to_state {
            ExprState::Execute { repeatable } => {
                let requests = run_expression(&repeatable, state);
                self.goto_state(state, ExprState::Waiting);
                requests
            },
            _ => {
                self.goto_state(state, move_to_state);
                Vec::new()
            },
        }
    }

    fn get_input_buffer(&self) -> (buffer: &Vec<char>) {
        &self.command_buffer
    }

    fn push_input(&mut self, ch: char)
        ensures
            final(self).input_buffer() == old(self).input_buffer().push(ch),
            final(self).expression() == old(self).expression(),
    {
        self.command_buffer.push(ch);
    }
}

/// Command mode: collects a line of one-letter commands and runs it on
/// Enter.
pub struct CommandModeInputHandler {
    command_buffer: Vec<char>,
}

impl CommandModeInputHandler {
    /// A handler with an empty command line.
    pub fn new() -> (handler: Self)
        ensures
            handler.input_buffer() == Seq::<char>::empty(),
    {
        Self { command_buffer: Vec::new() }
    }

    /// Reads the command line character by character, then clears it.
    fn process_command_buffer(&mut self) -> (requests: Vec<EditorRequest>)
        ensures
            requests@ == command_requests(old(self).input_buffer()),
            final(self).input_buffer() == Seq::<char>::empty(),
    {
        let mut requests: Vec<EditorRequest> = Vec::new();
        let mut k: usize = 0;
        proof {
            assert(self.command_buffer@.take(0) =~= Seq::<char>::empty());
        }
        while k < self.command_buffer.len()
            invariant
                k <= self.command_buffer@.len(),
                self.command_buffer@ == old(self).command_buffer@,
                requests@ == command_requests(self.command_buffer@.take(k as int)),
            decreases self.command_buffer@.len() - k,
        {
            let cmd_char = self.command_buffer[k];
            proof {
                assert(self.command_buffer@.take(k + 1).drop_last() =~= self.command_buffer@.take(
                    k as int,
                ));
            }
            if cmd_char == 'w' {
                requests.push(EditorRequest::SaveFile);
            } else if cmd_char == 'q' {
                requests.push(EditorRequest::Quit);
            }
            k += 1;
        }
        proof {
            assert(self.command_buffer@.take(k as int) =~= self.command_buffer@);
        }
        self.command_buffer.clear();
        requests
    }
}

impl ModeInputHandler for CommandModeInputHandler {
    closed spec fn input_buffer(&self) -> Seq<char> {
        self.command_buffer@
    }

    fn handle_input(&mut self, event: InputEvent, state: &mut EditorState) -> (requests: Vec<
        EditorRequest,
    >)
        ensures
            event == InputEvent::Char('\n') ==> {
                &&& requests@ == command_requests(old(self).input_buffer())
                &&& final(self).input_buffer() == Seq::<char>::empty()
                &&& final(state)@ == (EditorModel { mode: Mode::Navigate, ..old(state)@ })
            },
            event != InputEvent::Char('\n') ==> {
                &&& requests@ == Seq::<EditorRequest>::empty()
                &&& final(state)@ == old(state)@
                &&& final(self).input_buffer() == match event {
                    InputEvent::Char(ch) => old(self).input_buffer().push(ch),
                    _ => old(self).input_buffer(),
                }
            },
    {
        match event {
            InputEvent::Char('\n') => {
                let requests = self.process_command_buffer();
                state.set_mode(Mode::Navigate);
                requests
            },
            InputEvent::Char(ch) => {
                self.command_buffer.push(ch);
                Vec::new()
            },
            _ => Vec::new(),
        }
    }

    fn get_input_buffer(&self) -> (buffer: &Vec<char>) {
        &self.command_buffer
    }

    fn push_input(&mut self, ch: char)
        ensures
            final(self).input_buffer() == old(self).input_buffer().push(ch),
    {
        self.command_buffer.push(ch);
    }
}

/// Insert mode: typing text is the host's business, so this handler takes
/// every input and does nothing with it.
pub struct InsertModeInputHandler {
    command_buffer: Vec<char>,
}

impl InsertModeInputHandler {
    /// A handler with an empty buffer.
    pub fn new() -> (handler: Self)
        ensures
            handler.input_buffer() == Seq::<char>::empty(),
    {
        Self { command_buffer: Vec::new() }
    }
}

impl ModeInputHandler for InsertModeInputHandler {
    closed spec fn input_buffer(&self) -> Seq<char> {
        self.command_buffer@
    }

    fn handle_input(&mut self, event: InputEvent, state: &mut EditorState) -> (requests: Vec<
        EditorRequest,
    >)
        ensures
            requests@ == Seq::<EditorRequest>::empty(),
            final(state)@ == old(state)@,
            final(self).input_buffer() == old(self).input_buffer(),
    {
        Vec::new()
    }

    fn get_input_buffer(&self) -> (buffer: &Vec<char>) {
        &self.command_buffer
    }

    fn push_input(&mut self, ch: char)
        ensures
            final(self).input_buffer() == old(self).input_buffer(),
    {
    }
}

impl Action {
    /// The name of the action, as the status bar shows it.
    pub open spec fn name(self) -> Seq<char> {
        match self {
            Action::Right => "Right"@,
            Action::Left => "Left"@,
            Action::Down => "Down"@,
            Action::Up => "Up"@,
            Action::StartNextWord => "StartNextWord"@,
            Action::StartPrevWord => "StartPrevWord"@,
            Action::StartOfLine => "StartOfLine"@,
            Action::EndOfLine => "EndOfLine"@,
            Action::ToCommandMode => "ToCommandMode"@,
            Action::ExitEditor => "ExitEditor"@,
        }
    }

    /// The name of the action, as the status bar shows it.
    pub fn description(&self) -> (text: &'static str)
        ensures
            text@ == self.name(),
    {
        match self {
            Action::Right => "Right",
            Action::Left => "Left",
            Action::Down => "Down",
            Action::Up => "Up",
            Action::StartNextWord => "StartNextWord",
            Action::StartPrevWord => "StartPrevWord",
            Action::StartOfLine => "StartOfLine",
            Action::EndOfLine => "EndOfLine",
            Action::ToCommandMode => "ToCommandMode",
            Action::ExitEditor => "ExitEditor",
        }
    }
}

impl FnAlias {
    /// The name of the function, as the status bar shows it.
    pub open spec fn name(self) -> Seq<char> {
        match self {
            FnAlias::FindNext => "FindNext"@,
            FnAlias::NoOp => "NoOp"@,
        }
    }

    /// The name of the function, as the status bar shows it.
    pub fn description(&self) -> (text: &'static str)
        ensures
            text@ == self.name(),
    {
        match self {
            FnAlias::FindNext => "FindNext",
            FnAlias::NoOp => "NoOp",
        }
    }
}

impl FnArg {
    /// The argument as the status bar shows it: the character that was
    /// typed, or `_` while none was.
    pub open spec fn shown(self) -> Seq<char> {
        match self {
            FnArg::NoArg => seq!['_'],
            FnArg::Argument(arg) => seq![arg],
        }
    }

    /// The argument as the status bar shows it.
    pub fn description(&self) -> (text: String)
        ensures
            text@ == self.shown(),
    {
        match self {
            FnArg::NoArg => string_of_char('_'),
            FnArg::Argument(arg) => string_of_char(*arg),
        }
    }
}

impl ExecutableExpr {
    /// The expression as the status bar shows it: `CursorTo ( action )` for
    /// an operator, `function ( argument )` for a function.
    pub open spec fn shown(self) -> Seq<char> {
        match self {
            ExecutableExpr::Operator(action) => "CursorTo ( "@ + action.name() + " )"@,
            ExecutableExpr::Function(alias, arg) => alias.name() + " ( "@ + arg.shown() + " )"@,
        }
    }

    /// The expression as the status bar shows it.
    pub fn description(&self) -> (text: String)
        ensures
            text@ == self.shown(),
    {
        match self {
            ExecutableExpr::Operator(action) => {
                let mut text = String::from_str("CursorTo ( ");
                text.append(action.description());
                text.append(" )");
                text
            },
            ExecutableExpr::Function(alias, arg) => {
                let mut text = String::from_str(alias.description());
                text.append(" ( ");
                text.append(arg.description().as_str());
                text.append(" )");
                text
            },
        }
    }
}

impl RepeatableView {
    /// A pending expression as the status bar shows it: the digits of the
    /// count, then what will run, or `_` while that is open.
    pub open spec fn shown(self) -> Seq<char> {
        "Repeat ( "@ + self.times + "x, "@ + (match self.expr {
            Some(expr) => expr.shown(),
            None => seq!['_'],
        }) + " )"@
    }
}

impl Repeatable {
    /// A pending expression as the status bar shows it.
    pub fn description(&self) -> (text: String)
        ensures
            text@ == self@.shown(),
    {
        let mut text = String::from_str("Repeat ( ");
        text.append(self.times.as_str());
        text.append("x, ");
        match self.expr {
            Some(expr) => text.append(expr.description().as_str()),
            None => push_char(&mut text, '_'),
        }
        text.append(" )");
        text
    }
}

impl ExprStateView {
    /// The state of the grammar as the status bar shows it: `None` while
    /// nothing is pending, else the pending expression.
    pub open spec fn shown(self) -> Seq<char> {
        match self {
            ExprStateView::Waiting => "None"@,
            ExprStateView::Function { repeatable } => repeatable.shown(),
            ExprStateView::Repeater { repeatable } => repeatable.shown(),
            ExprStateView::Execute { repeatable } => repeatable.shown(),
        }
    }
}

impl ExprState {
    /// The state of the grammar as the status bar shows it.
    pub fn description(&self) -> (text: String)
        ensures
            text@ == self@.shown(),
    {
        match self {
            ExprState::Waiting => String::from_str("None"),
            ExprState::Function { repeatable } => repeatable.description(),
            ExprState::Repeater { repeatable } => repeatable.description(),
            ExprState::Execute { repeatable } => repeatable.description(),
        }
    }
}

} // verus!
