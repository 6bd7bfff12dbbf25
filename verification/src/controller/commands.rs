//! The static table from keystrokes to operators and functions.

use vstd::prelude::*;
use crate::controller::events::InputEvent;
use crate::controller::input::{Action, ExecutableExpr, FnAlias, FnArg};

verus! {

/// The function that `event` names, `NoOp` if it names none.
pub open spec fn fn_alias_of(event: InputEvent) -> FnAlias {
    match event {
        InputEvent::Char('f') => FnAlias::FindNext,
        _ => FnAlias::NoOp,
    }
}

/// The operator that `event` names, if any.
pub open spec fn action_of(event: InputEvent) -> Option<Action> {
    match event {
        InputEvent::Char('h') | InputEvent::Left => Some(Action::Left),
        InputEvent::Char('l') | InputEvent::Right => Some(Action::Right),
        InputEvent::Char('j') | InputEvent::Down => Some(Action::Down),
        InputEvent::Char('k') | InputEvent::Up => Some(Action::Up),
        InputEvent::Char('w') => Some(Action::StartNextWord),
        InputEvent::Char('b') => Some(Action::StartPrevWord),
        InputEvent::Char('^') => Some(Action::StartOfLine),
        InputEvent::Char('$') => Some(Action::EndOfLine),
        InputEvent::Char(';') => Some(Action::ToCommandMode),
        InputEvent::Char('q') => Some(Action::ExitEditor),
        _ => None,
    }
}

/// The operator expression that `event` resolves to, if any.
pub open spec fn op_of(event: InputEvent) -> Option<ExecutableExpr> {
    match action_of(event) {
        Some(action) => Some(ExecutableExpr::Operator(action)),
        None => None,
    }
}

/// The function that `event` names, `NoOp` if it names none.
pub fn event_to_fn_alias(event: &InputEvent) -> (alias: FnAlias)
    ensures
        alias == fn_alias_of(*event),
{
    match event {
        InputEvent::Char('f') => FnAlias::FindNext,
        _ => FnAlias::NoOp,
    }
}

/// The function expression that `event` opens, still without its argument.
pub fn build_fn_from_event(event: &InputEvent) -> (expr: Option<ExecutableExpr>)
    ensures
        expr == match fn_alias_of(*event) {
            FnAlias::NoOp => None,
            alias => Some(ExecutableExpr::Function(alias, FnArg::NoArg)),
        },
{
    match event {
        InputEvent::Char('f') => Some(ExecutableExpr::Function(FnAlias::FindNext, FnArg::NoArg)),
        _ => None,
    }
}

/// The operator expression that `event` resolves to, if any.
pub fn build_op_from_event(event: &InputEvent) -> (expr: Option<ExecutableExpr>)
    ensures
        expr == op_of(*event),
{
    match *event {
        InputEvent::Char('h') | InputEvent::Left => Some(ExecutableExpr::Operator(Action::Left)),
        InputEvent::Char('l') | InputEvent::Right => Some(
            ExecutableExpr::Operator(Action::Right),
        ),
        InputEvent::Char('j') | InputEvent::Down => Some(ExecutableExpr::Operator(Action::Down)),
        InputEvent::Char('k') | InputEvent::Up => Some(ExecutableExpr::Operator(Action::Up)),
        InputEvent::Char('w') => Some(ExecutableExpr::Operator(Action::StartNextWord)),
        InputEvent::Char('b') => Some(ExecutableExpr::Operator(Action::StartPrevWord)),
        InputEvent::Char('^') => Some(ExecutableExpr::Operator(Action::StartOfLine)),
        InputEvent::Char('$') => Some(ExecutableExpr::Operator(Action::EndOfLine)),
        InputEvent::Char(';') => Some(ExecutableExpr::Operator(Action::ToCommandMode)),
        InputEvent::Char('q') => Some(ExecutableExpr::Operator(Action::ExitEditor)),
        _ => None,
    }
}

} // verus!
