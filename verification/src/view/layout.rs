//! Padding text to a width, as columns of a status line need it.

use vstd::prelude::*;
use vstd::string::{StrSliceExecFns, StringExecFns};
use crate::data::chars::push_char;

verus! {

/// `n` spaces.
pub open spec fn spaces(n: nat) -> Seq<char> {
    Seq::new(n, |i: int| ' ')
}

/// `text` moved to the right end of a field of `width` characters: spaces
/// fill the field on the left. Text that is wider than the field stays as
/// it is.
pub open spec fn right_aligned(text: Seq<char>, width: nat) -> Seq<char> {
    if text.len() >= width {
        text
    } else {
        spaces((width - text.len()) as nat) + text
    }
}

/// `text` at the left end of a field of `width` characters: spaces fill the
/// field on the right. Text that is wider than the field stays as it is.
pub open spec fn left_aligned(text: Seq<char>, width: nat) -> Seq<char> {
    if text.len() >= width {
        text
    } else {
        text + spaces((width - text.len()) as nat)
    }
}

/// Adds `n` spaces to the end of `text`.
pub fn push_spaces(text: &mut String, n: usize)
    ensures
        final(text)@ == old(text)@ + spaces(n as nat),
{
    let mut k: usize = 0;
    proof {
        assert(text@ =~= old(text)@ + spaces(0));
    }
    while k < n
        invariant
            k <= n,
            text@ == old(text)@ + spaces(k as nat),
        decreases n - k,
    {
        push_char(text, ' ');
        k += 1;
        proof {
            assert(text@ =~= old(text)@ + spaces(k as nat));
        }
    }
}

/// `text` padded with spaces on the left to `width` characters.
pub fn align_right(text: &str, width: usize) -> (out: String)
    ensures
        out@ == right_aligned(text@, width as nat),
{
    let length = text.unicode_len();
    let mut out = String::new();
    if length < width {
        push_spaces(&mut out, width - length);
    }
    let ghost padding = out@;
    out.append(text);
    proof {
        if length < width {
            assert(out@ =~= spaces((width - length) as nat) + text@);
        } else {
            assert(padding =~= Seq::<char>::empty());
            assert(out@ =~= text@);
        }
    }
    out
}

/// `text` padded with spaces on the right to `width` characters.
pub fn align_left(text: &str, width: usize) -> (out: String)
    ensures
        out@ == left_aligned(text@, width as nat),
{
    let length = text.unicode_len();
    let mut out = String::from_str(text);
    if length < width {
        push_spaces(&mut out, width - length);
    }
    out
}

} // verus!
