//! Repeat counts: how the digits typed before a command are read, and how a
//! motion is run that many times.

use vstd::prelude::*;
use crate::controller::input::Action;
use crate::data::chars::{chars_of, push_char, string_of_char};
use crate::data::editor_state::{EditorModel, EditorState, StateApi};
use crate::data::text::{
    after_dec, after_end_of_line, after_inc, after_line_down, after_line_up, after_next_word,
    after_prev_word, after_start_of_line,
};

verus! {

/// The decimal digits `'0'` to `'9'`.
pub open spec fn is_digit(c: char) -> bool {
    '0' <= c <= '9'
}

/// The number a decimal digit stands for; 0 for any other character.
pub open spec fn digit_value(c: char) -> nat {
    if is_digit(c) {
        (c as int - '0' as int) as nat
    } else {
        0
    }
}

/// Every character of `s` is a decimal digit.
pub open spec fn all_digits(s: Seq<char>) -> bool {
    forall|i: int| 0 <= i < s.len() ==> is_digit(#[trigger] s[i])
}

/// The number that the digits of `s` write in base ten.
pub open spec fn decimal_value(s: Seq<char>) -> nat
    decreases s.len(),
{
    if s.len() == 0 {
        0
    } else {
        decimal_value(s.drop_last()) * 10 + digit_value(s.last())
    }
}

/// The number that `s` writes, if it is an optional `+`, then one or more
/// decimal digits, and the number fits a machine word.
pub open spec fn parsed_count(s: Seq<char>) -> Option<nat> {
    let digits = if s.len() > 0 && s[0] == '+' {
        s.drop_first()
    } else {
        s
    };
    if digits.len() > 0 && all_digits(digits) && decimal_value(digits) <= usize::MAX {
        Some(decimal_value(digits))
    } else {
        None
    }
}

/// How often a command with the repeat prefix `s` runs: the number that `s`
/// writes, or once if it writes none.
pub open spec fn repeat_count(s: Seq<char>) -> nat {
    match parsed_count(s) {
        Some(n) => n,
        None => 1,
    }
}

/// A number is at least as large as the one its leading digits write.
pub proof fn lemma_decimal_value_grows(s: Seq<char>, k: int)
    requires
        0 <= k <= s.len(),
    ensures
        decimal_value(s.take(k)) <= decimal_value(s),
    decreases s.len() - k,
{
    if k < s.len() {
        lemma_decimal_value_grows(s, k + 1);
        assert(s.take(k + 1).drop_last() =~= s.take(k));
    } else {
        assert(s.take(k) =~= s);
    }
}

/// Reads a repeat prefix: the number it writes, or 1 if it is empty, holds
/// anything but digits after an optional `+`, or is too large.
pub fn repeater_chain_to_usize(repeater_chain: &str) -> (times: usize)
    ensures
        times == repeat_count(repeater_chain@),
{
    let chars = chars_of(repeater_chain);
    let first: usize = if chars.len() > 0 && chars[0] == '+' {
        1
    } else {
        0
    };
    let ghost digits = chars@.skip(first as int);
    proof {
        if first == 1 {
            assert(chars@.drop_first() =~= digits);
        } else {
            assert(chars@ =~= digits);
        }
    }
    if first == chars.len() {
        return 1;
    }
    let mut value: usize = 0;
    let mut k: usize = first;
    proof {
        assert(digits.take(0) =~= Seq::<char>::empty());
    }
    while k < chars.len()
        invariant
            first <= k <= chars.len(),
            first < chars.len(),
            chars@ == repeater_chain@,
            digits == chars@.skip(first as int),
            digits == if chars@.len() > 0 && chars@[0] == '+' {
                chars@.drop_first()
            } else {
                chars@
            },
            all_digits(digits.take(k - first)),
            value == decimal_value(digits.take(k - first)),
        decreases chars.len() - k,
    {
        let c = chars[k];
        let ghost prefix = digits.take(k - first + 1);
        proof {
            assert(prefix.drop_last() =~= digits.take(k - first));
            assert(prefix.last() == chars[k as int]);
            assert(digits[k - first] == chars[k as int]);
        }
        let digit: usize = match c {
            '0' => 0,
            '1' => 1,
            '2' => 2,
            '3' => 3,
            '4' => 4,
            '5' => 5,
            '6' => 6,
            '7' => 7,
            '8' => 8,
            '9' => 9,
            _ => {
                return 1;
            },
        };
        proof {
            lemma_decimal_value_grows(digits, k - first + 1);
        }
        match value.checked_mul(10) {
            Some(tens) => match tens.checked_add(digit) {
                Some(next) => {
                    value = next;
                },
                None => {
                    return 1;
                },
            },
            None => {
                return 1;
            },
        }
        k += 1;
        proof {
            assert forall|i: int| 0 <= i < prefix.len() implies is_digit(#[trigger] prefix[i]) by {
                if i < prefix.len() - 1 {
                    assert(prefix[i] == digits.take(k - first - 1)[i]);
                } else {
                    assert(prefix[i] == c);
                }
            }
        }
    }
    proof {
        assert(digits.take(k - first) =~= digits);
    }
    value
}

/// Where one run of `action` takes a cursor that stands on offset `i` of the
/// text `s`. Actions that are no motions leave it where it is.
pub open spec fn motion(action: Action, s: Seq<char>, i: int) -> int {
    match action {
        Action::Right => after_inc(s, i),
        Action::Left => after_dec(s, i),
        Action::Down => after_line_down(s, i),
        Action::Up => after_line_up(s, i),
        Action::StartNextWord => after_next_word(s, i),
        Action::StartPrevWord => after_prev_word(s, i),
        Action::StartOfLine => after_start_of_line(s, i),
        Action::EndOfLine => after_end_of_line(s, i),
        Action::ToCommandMode => i,
        Action::ExitEditor => i,
    }
}

/// Where `n` runs of `action`, one after another, take the cursor.
pub open spec fn repeat_motion(action: Action, s: Seq<char>, i: int, n: nat) -> int
    decreases n,
{
    if n == 0 {
        i
    } else {
        motion(action, s, repeat_motion(action, s, i, (n - 1) as nat))
    }
}

/// Runs the cursor motion of `action` once.
pub fn apply_action(action: &Action, state: &mut EditorState)
    requires
        old(state).wf(),
    ensures
        final(state).wf(),
        final(state)@ == (EditorModel {
            cursor: motion(*action, old(state)@.text, old(state)@.cursor),
            ..old(state)@
        }),
{
    match action {
        Action::Right => state.inc_cursor(),
        Action::Left => state.dec_cursor(),
        Action::Down => state.cursor_line_down(),
        Action::Up => state.cursor_line_up(),
        Action::StartNextWord => state.cursor_start_next_word(),
        Action::StartPrevWord => state.cursor_start_prev_word(),
        Action::StartOfLine => state.cursor_start_of_line(),
        Action::EndOfLine => state.cursor_end_of_line(),
        Action::ToCommandMode => {},
        Action::ExitEditor => {},
    }
}

/// Runs the cursor motion of `action` `times` times in a row.
pub fn repeat_state_op(times: &usize, action: &Action, state: &mut EditorState)
    requires
        old(state).wf(),
    ensures
        final(state).wf(),
        final(state)@ == (EditorModel {
            cursor: repeat_motion(*action, old(state)@.text, old(state)@.cursor, *times as nat),
            ..old(state)@
        }),
{
    let ghost start = state@;
    let mut done: usize = 0;
    while done < *times
        invariant
            done <= *times,
            state.wf(),
            state@ == (EditorModel {
                cursor: repeat_motion(*action, start.text, start.cursor, done as nat),
                ..start
            }),
        decreases *times - done,
    {
        apply_action(action, state);
        done += 1;
    }
}

/// The decimal digit that stands for `d`.
pub open spec fn digit_of_value(d: nat) -> char {
    if d == 0 {
        '0'
    } else if d == 1 {
        '1'
    } else if d == 2 {
        '2'
    } else if d == 3 {
        '3'
    } else if d == 4 {
        '4'
    } else if d == 5 {
        '5'
    } else if d == 6 {
        '6'
    } else if d == 7 {
        '7'
    } else if d == 8 {
        '8'
    } else {
        '9'
    }
}

/// The digits that write `n` in base ten, without leading zeros.
pub open spec fn decimal_digits(n: nat) -> Seq<char>
    decreases n,
{
    if n < 10 {
        seq![digit_of_value(n)]
    } else {
        decimal_digits(n / 10).push(digit_of_value(n % 10))
    }
}

/// Writing a number and reading it back gives the number.
pub proof fn lemma_decimal_round_trip(n: nat)
    ensures
        decimal_digits(n).len() > 0,
        all_digits(decimal_digits(n)),
        decimal_value(decimal_digits(n)) == n,
        n <= usize::MAX ==> repeat_count(decimal_digits(n)) == n,
    decreases n,
{
    let digits = decimal_digits(n);
    if n < 10 {
        assert(digits.drop_last() =~= Seq::<char>::empty());
        assert(decimal_value(digits.drop_last()) == 0);
    } else {
        lemma_decimal_round_trip(n / 10);
        assert(digits.drop_last() =~= decimal_digits(n / 10));
        assert forall|i: int| 0 <= i < digits.len() implies is_digit(#[trigger] digits[i]) by {
            if i < digits.len() - 1 {
                assert(digits[i] == decimal_digits(n / 10)[i]);
            }
        }
    }
    assert(digits[0] != '+');
}

/// The decimal digit that stands for `d`.
fn digit_char(d: usize) -> (c: char)
    requires
        d < 10,
    ensures
        c == digit_of_value(d as nat),
{
    match d {
        0 => '0',
        1 => '1',
        2 => '2',
        3 => '3',
        4 => '4',
        5 => '5',
        6 => '6',
        7 => '7',
        8 => '8',
        _ => '9',
    }
}

/// `n` written in base ten.
pub fn decimal_string(n: usize) -> (text: String)
    ensures
        text@ == decimal_digits(n as nat),
    decreases n,
{
    if n < 10 {
        string_of_char(digit_char(n))
    } else {
        let mut text = decimal_string(n / 10);
        push_char(&mut text, digit_char(n % 10));
        text
    }
}

} // verus!
