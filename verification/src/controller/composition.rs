//! What sequences of keystrokes come to in navigate mode: a count typed
//! before an operator runs the operator's motion that many times.

use vstd::prelude::*;
use crate::controller::commands::action_of;
use crate::controller::events::InputEvent;
use crate::controller::input::{
    argument_of, navigate_effect, next_expr_state, settled, Action, ExecutableExpr,
    ExprStateView, FnAlias, FnArg, RepeatableView,
};
use crate::controller::util::{
    all_digits, decimal_value, is_digit, motion, repeat_count, repeat_motion,
};
use crate::data::editor_state::EditorModel;
use crate::data::text::{
    after_inc, after_line_down, last_offset, least, lemma_line_down_row,
    lemma_motions_stay_in_range, lemma_rows_grow, row_of,
};

verus! {

/// The events that type the characters of `keys`.
pub open spec fn typed(keys: Seq<char>) -> Seq<InputEvent>
    decreases keys.len(),
{
    if keys.len() == 0 {
        Seq::empty()
    } else {
        typed(keys.drop_last()).push(InputEvent::Char(keys.last()))
    }
}

/// The grammar state and the session after navigate mode has handled
/// `events` one after another, from the grammar state `state` and the
/// session `m`.
pub open spec fn navigate_run(state: ExprStateView, events: Seq<InputEvent>, m: EditorModel) -> (
    ExprStateView,
    EditorModel,
)
    decreases events.len(),
{
    if events.len() == 0 {
        (state, m)
    } else {
        let before = navigate_run(state, events.drop_last(), m);
        (
            settled(next_expr_state(before.0, events.last())),
            navigate_effect(before.0, events.last(), before.1),
        )
    }
}

/// The actions that move the cursor.
pub open spec fn is_motion(action: Action) -> bool {
    action != Action::ToCommandMode && action != Action::ExitEditor
}

/// Digits typed from rest are collected as the repeat count and leave the
/// session as it was.
pub proof fn lemma_digits_are_collected(digits: Seq<char>, m: EditorModel)
    requires
        digits.len() > 0,
        all_digits(digits),
    ensures
        ({
            let collected = ExprStateView::Repeater {
                repeatable: RepeatableView { times: digits, expr: None },
            };
            navigate_run(ExprStateView::Waiting, typed(digits), m) == (
                collected,
                EditorModel { expression_state: collected, ..m },
            )
        }),
    decreases digits.len(),
{
    let events = typed(digits);
    let c = digits.last();
    assert(is_digit(c));
    assert(events.drop_last() =~= typed(digits.drop_last()));
    if digits.len() == 1 {
        assert(digits =~= seq![c]);
        assert(typed(digits.drop_last()) =~= Seq::<InputEvent>::empty());
        assert(navigate_run(ExprStateView::Waiting, events.drop_last(), m) == (
            ExprStateView::Waiting,
            m,
        ));
    } else {
        lemma_digits_are_collected(digits.drop_last(), m);
        assert(digits.drop_last().push(c) =~= digits);
    }
}

/// Repeat composition: a count typed before an operator key runs the
/// motion of that operator as often as the count says, and leaves nothing
/// pending.
pub proof fn lemma_repeat_composition(
    digits: Seq<char>,
    key: InputEvent,
    action: Action,
    m: EditorModel,
)
    requires
        digits.len() > 0,
        all_digits(digits),
        action_of(key) == Some(action),
        is_motion(action),
    ensures
        navigate_run(ExprStateView::Waiting, typed(digits).push(key), m) == (
            ExprStateView::Waiting,
            EditorModel {
                cursor: repeat_motion(action, m.text, m.cursor, repeat_count(digits)),
                expression_state: ExprStateView::Waiting,
                ..m
            },
        ),
{
    lemma_digits_are_collected(digits, m);
    let events = typed(digits).push(key);
    assert(events.drop_last() =~= typed(digits));
    assert(events.last() == key);
}

/// Running a motion three times is running it, then again, then again.
pub proof fn lemma_repeat_three(action: Action, s: Seq<char>, i: int)
    ensures
        repeat_motion(action, s, i, 3) == motion(
            action,
            s,
            motion(action, s, motion(action, s, i)),
        ),
{
    assert(repeat_motion(action, s, i, 0) == i);
    assert(repeat_motion(action, s, i, 1) == motion(action, s, i));
    assert(repeat_motion(action, s, i, 2) == motion(action, s, motion(action, s, i)));
}

/// The keystrokes `3`, `l` come to three moves of one character forward.
pub proof fn lemma_three_l(m: EditorModel)
    ensures
        navigate_run(
            ExprStateView::Waiting,
            seq![InputEvent::Char('3'), InputEvent::Char('l')],
            m,
        ).1.cursor == after_inc(m.text, after_inc(m.text, after_inc(m.text, m.cursor))),
{
    let digits = seq!['3'];
    assert(digits.drop_last() =~= Seq::<char>::empty());
    assert(decimal_value(digits.drop_last()) == 0);
    assert(decimal_value(digits) == 3);
    assert(repeat_count(digits) == 3);
    lemma_repeat_composition(digits, InputEvent::Char('l'), Action::Right, m);
    lemma_repeat_three(Action::Right, m.text, m.cursor);
    assert(typed(digits.drop_last()) =~= Seq::<InputEvent>::empty());
    assert(typed(digits).push(InputEvent::Char('l')) =~= seq![
        InputEvent::Char('3'),
        InputEvent::Char('l'),
    ]);
}

/// Moving down `n` times from a cursor inside the text leads `n` lines
/// down, or to the last line if the text has fewer below the cursor.
pub proof fn lemma_repeat_down_rows(s: Seq<char>, i: int, n: nat)
    requires
        0 <= i <= last_offset(s),
    ensures
        0 <= repeat_motion(Action::Down, s, i, n) <= last_offset(s),
        row_of(s, repeat_motion(Action::Down, s, i, n)) == least(
            row_of(s, i) as int + n,
            row_of(s, last_offset(s)) as int,
        ),
    decreases n,
{
    if n == 0 {
        lemma_rows_grow(s, i, last_offset(s));
    } else {
        lemma_repeat_down_rows(s, i, (n - 1) as nat);
        let before = repeat_motion(Action::Down, s, i, (n - 1) as nat);
        lemma_motions_stay_in_range(s, before);
        lemma_line_down_row(s, before);
        assert(repeat_motion(Action::Down, s, i, n) == after_line_down(s, before));
    }
}

/// The keystrokes `1`, `2`, `j` move the cursor down twelve lines, or to
/// the last line if the text has fewer below the cursor.
pub proof fn lemma_twelve_j(m: EditorModel)
    requires
        0 <= m.cursor <= last_offset(m.text),
    ensures
        ({
            let after = navigate_run(
                ExprStateView::Waiting,
                seq![InputEvent::Char('1'), InputEvent::Char('2'), InputEvent::Char('j')],
                m,
            ).1;
            &&& after.text == m.text
            &&& row_of(after.text, after.cursor) == least(
                row_of(m.text, m.cursor) as int + 12,
                row_of(m.text, last_offset(m.text)) as int,
            )
        }),
{
    let digits = seq!['1', '2'];
    assert(digits.drop_last() =~= seq!['1']);
    assert(seq!['1'].drop_last() =~= Seq::<char>::empty());
    assert(decimal_value(seq!['1'].drop_last()) == 0);
    assert(decimal_value(seq!['1']) == 1);
    assert(decimal_value(digits) == 12);
    assert(repeat_count(digits) == 12);
    lemma_repeat_composition(digits, InputEvent::Char('j'), Action::Down, m);
    lemma_repeat_down_rows(m.text, m.cursor, 12);
    assert(typed(seq!['1'].drop_last()) =~= Seq::<InputEvent>::empty());
    assert(typed(seq!['1']) =~= seq![InputEvent::Char('1')]);
    assert(typed(digits).push(InputEvent::Char('j')) =~= seq![
        InputEvent::Char('1'),
        InputEvent::Char('2'),
        InputEvent::Char('j'),
    ]);
}

/// The session with its cursor moved down `n` lines, or to the last line,
/// and nothing pending.
pub open spec fn moved_down(m: EditorModel, n: nat) -> EditorModel {
    EditorModel {
        cursor: repeat_motion(Action::Down, m.text, m.cursor, n),
        expression_state: ExprStateView::Waiting,
        ..m
    }
}

/// The grammar after the function key `f` was typed behind the count
/// `times`: it waits for the argument.
pub open spec fn awaiting_argument(times: Seq<char>) -> ExprStateView {
    ExprStateView::Function {
        repeatable: RepeatableView {
            times,
            expr: Some(ExecutableExpr::Function(FnAlias::FindNext, FnArg::NoArg)),
        },
    }
}

/// Any key typed while `f` waits for its argument moves the cursor down as
/// many lines as the count says and leaves nothing pending.
pub proof fn lemma_argument_runs_find_next(times: Seq<char>, argument: InputEvent, m: EditorModel)
    ensures
        settled(next_expr_state(awaiting_argument(times), argument)) == ExprStateView::Waiting,
        navigate_effect(awaiting_argument(times), argument, m) == moved_down(
            m,
            repeat_count(times),
        ),
{
    let next = next_expr_state(awaiting_argument(times), argument);
    assert(next == ExprStateView::Execute {
        repeatable: RepeatableView {
            times,
            expr: Some(ExecutableExpr::Function(FnAlias::FindNext, argument_of(argument))),
        },
    });
}

/// The function key `f` takes the key after it as its argument, whatever
/// that key is, and then moves the cursor one line down.
pub proof fn lemma_find_next_takes_any_key(argument: InputEvent, m: EditorModel)
    ensures
        navigate_run(ExprStateView::Waiting, seq![InputEvent::Char('f'), argument], m) == (
            ExprStateView::Waiting,
            moved_down(m, 1),
        ),
{
    let keys = seq![InputEvent::Char('f'), argument];
    let first = keys.drop_last();
    let one = seq!['1'];
    let waiting = awaiting_argument(one);
    let shown = EditorModel { expression_state: waiting, ..m };
    assert(first =~= seq![InputEvent::Char('f')]);
    assert(first.drop_last() =~= Seq::<InputEvent>::empty());
    assert(navigate_run(ExprStateView::Waiting, first.drop_last(), m) == (
        ExprStateView::Waiting,
        m,
    ));
    assert(first.last() == InputEvent::Char('f'));
    assert(next_expr_state(ExprStateView::Waiting, InputEvent::Char('f')) == waiting);
    assert(navigate_run(ExprStateView::Waiting, first, m) == (waiting, shown));
    lemma_argument_runs_find_next(one, argument, shown);
    assert(one.drop_last() =~= Seq::<char>::empty());
    assert(decimal_value(one.drop_last()) == 0);
    assert(repeat_count(one) == 1);
    assert(keys.last() == argument);
    assert(moved_down(shown, 1) == moved_down(m, 1));
}

/// A count typed before the function key `f` and any key after it move the
/// cursor down as many lines as the count says.
pub proof fn lemma_counted_find_next(digits: Seq<char>, argument: InputEvent, m: EditorModel)
    requires
        digits.len() > 0,
        all_digits(digits),
    ensures
        navigate_run(
            ExprStateView::Waiting,
            typed(digits).push(InputEvent::Char('f')).push(argument),
            m,
        ) == (ExprStateView::Waiting, moved_down(m, repeat_count(digits))),
{
    lemma_digits_are_collected(digits, m);
    let keys = typed(digits).push(InputEvent::Char('f')).push(argument);
    let first = keys.drop_last();
    let collected = ExprStateView::Repeater {
        repeatable: RepeatableView { times: digits, expr: None },
    };
    let waiting = awaiting_argument(digits);
    let shown = EditorModel { expression_state: waiting, ..m };
    assert(first =~= typed(digits).push(InputEvent::Char('f')));
    assert(first.drop_last() =~= typed(digits));
    assert(first.last() == InputEvent::Char('f'));
    assert(next_expr_state(collected, InputEvent::Char('f')) == waiting);
    assert(navigate_run(ExprStateView::Waiting, first, m) == (waiting, shown));
    lemma_argument_runs_find_next(digits, argument, shown);
    assert(keys.last() == argument);
    assert(moved_down(shown, repeat_count(digits)) == moved_down(m, repeat_count(digits)));
}

} // verus!
