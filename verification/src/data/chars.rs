//! Conversions between strings and character vectors.

use vstd::prelude::*;

verus! {

/// The characters of `text`, in order.
pub fn chars_of(text: &str) -> (out: Vec<char>)
    ensures
        out@ == text@,
{
    let mut out: Vec<char> = Vec::new();
    for c in it: text.chars()
        invariant
            it.seq() == text@,
            out@ == it.seq().take(it.index()),
    {
        out.push(c);
    }
    out
}

/// `String::push` of std: appends `c` to the end of `s`. Verus takes the
/// contract on trust; it says that the text grows by exactly that character.
#[verifier::external_body]
pub(crate) fn push_char(s: &mut String, c: char)
    ensures
        final(s)@ == old(s)@.push(c),
{
    s.push(c);
}

/// The characters of `text` from index `from` up to, not including, `to`,
/// as a string.
pub fn string_of_range(text: &Vec<char>, from: usize, to: usize) -> (out: String)
    requires
        from <= to <= text.len(),
    ensures
        out@ == text@.subrange(from as int, to as int),
{
    let mut out = String::new();
    let mut k = from;
    while k < to
        invariant
            from <= k <= to <= text.len(),
            out@ == text@.subrange(from as int, k as int),
        decreases to - k,
    {
        push_char(&mut out, text[k]);
        k += 1;
        assert(out@ =~= text@.subrange(from as int, k as int));
    }
    out
}

/// The characters of `text` as a string.
pub fn string_of(text: &Vec<char>) -> (out: String)
    ensures
        out@ == text@,
{
    let out = string_of_range(text, 0, text.len());
    assert(text@.subrange(0, text.len() as int) =~= text@);
    out
}

/// The one-character string that holds `c`.
pub fn string_of_char(c: char) -> (out: String)
    ensures
        out@ == seq![c],
{
    let mut out = String::new();
    push_char(&mut out, c);
    assert(out@ =~= seq![c]);
    out
}

} // verus!
