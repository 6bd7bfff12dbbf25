//! The geometry of a text: where its lines and words begin and end, and
//! where each cursor motion leads. A text is a sequence of characters in
//! which `'\n'` ends a line; every offset computation counts that separator
//! as the last character of its line.

use vstd::prelude::*;
use crate::data::chars::string_of_range;

verus! {

/// The characters with the Unicode property `White_Space`.
pub open spec fn is_whitespace(c: char) -> bool {
    let u = c as u32;
    ||| 0x09 <= u <= 0x0d
    ||| u == 0x20
    ||| u == 0x85
    ||| u == 0xa0
    ||| u == 0x1680
    ||| 0x2000 <= u <= 0x200a
    ||| u == 0x2028
    ||| u == 0x2029
    ||| u == 0x202f
    ||| u == 0x205f
    ||| u == 0x3000
}

/// Whether `c` is white space.
pub fn char_is_whitespace(c: char) -> (b: bool)
    ensures
        b == is_whitespace(c),
{
    let u = c as u32;
    (0x09 <= u && u <= 0x0d) || u == 0x20 || u == 0x85 || u == 0xa0 || u == 0x1680 || (0x2000 <= u
        && u <= 0x200a) || u == 0x2028 || u == 0x2029 || u == 0x202f || u == 0x205f || u == 0x3000
}

/// The greatest offset a cursor may stand on: that of the last character,
/// or 0 in an empty text.
pub open spec fn last_offset(s: Seq<char>) -> int {
    if s.len() == 0 {
        0
    } else {
        s.len() - 1
    }
}

/// The offset at which the line that holds offset `i` begins: just after the
/// nearest separator strictly before `i`, or 0 if there is none.
pub open spec fn line_start(s: Seq<char>, i: int) -> int
    decreases i,
{
    if i <= 0 {
        0
    } else if i <= s.len() && s[i - 1] == '\n' {
        i
    } else {
        line_start(s, i - 1)
    }
}

/// The offset of the nearest separator at or after `i`, or the length of the
/// text if there is none.
pub open spec fn line_end(s: Seq<char>, i: int) -> int
    decreases s.len() - i,
{
    if i < 0 || i >= s.len() {
        s.len() as int
    } else if s[i] == '\n' {
        i
    } else {
        line_end(s, i + 1)
    }
}

/// The number of separators strictly before offset `i`.
pub open spec fn newlines_before(s: Seq<char>, i: int) -> nat
    decreases i,
{
    if i <= 0 {
        0
    } else if i <= s.len() && s[i - 1] == '\n' {
        newlines_before(s, i - 1) + 1
    } else {
        newlines_before(s, i - 1)
    }
}

/// The offset of the nearest white space at or after `i`, or the length of
/// the text if there is none.
pub open spec fn word_end(s: Seq<char>, i: int) -> int
    decreases s.len() - i,
{
    if i < 0 || i >= s.len() {
        s.len() as int
    } else if is_whitespace(s[i]) {
        i
    } else {
        word_end(s, i + 1)
    }
}

/// The offset just after the nearest white space strictly before `i`, or 0
/// if there is none.
pub open spec fn word_start(s: Seq<char>, i: int) -> int
    decreases i,
{
    if i <= 0 {
        0
    } else if i <= s.len() && is_whitespace(s[i - 1]) {
        i
    } else {
        word_start(s, i - 1)
    }
}

/// The column of offset `i`, counted from 0 within its line.
pub open spec fn column_of(s: Seq<char>, i: int) -> int {
    i - line_start(s, i)
}

/// The smaller of two integers.
pub open spec fn least(a: int, b: int) -> int {
    if a <= b {
        a
    } else {
        b
    }
}

/// One character forward, unless the cursor stands on the last one.
pub open spec fn after_inc(s: Seq<char>, i: int) -> int {
    if i < last_offset(s) {
        i + 1
    } else {
        i
    }
}

/// One character back, unless the cursor stands on the first one.
pub open spec fn after_dec(s: Seq<char>, i: int) -> int {
    if i >= 1 {
        i - 1
    } else {
        i
    }
}

/// The same column one line down, or the end of that line where it is
/// shorter; from the last line, the end of the text.
pub open spec fn after_line_down(s: Seq<char>, i: int) -> int {
    let end = line_end(s, i);
    if end + 1 >= s.len() {
        last_offset(s)
    } else {
        let next_start = end + 1;
        let next_end = line_end(s, next_start);
        least(next_start + least(column_of(s, i), next_end - next_start), last_offset(s))
    }
}

/// The same column one line up, or the end of that line where it is shorter;
/// from the first line, the start of the text.
pub open spec fn after_line_up(s: Seq<char>, i: int) -> int {
    let start = line_start(s, i);
    if start == 0 {
        0
    } else {
        let prev_end = start - 1;
        let prev_start = line_start(s, prev_end);
        prev_start + least(i - start, prev_end - prev_start)
    }
}

/// Just past the white space that ends the word under the cursor, but never
/// past the last character.
pub open spec fn after_next_word(s: Seq<char>, i: int) -> int {
    least(word_end(s, i) + 1, last_offset(s))
}

/// Just after the nearest white space before the cursor, or the start of the
/// text.
pub open spec fn after_prev_word(s: Seq<char>, i: int) -> int {
    word_start(s, i)
}

/// The first column of the cursor's line.
pub open spec fn after_start_of_line(s: Seq<char>, i: int) -> int {
    line_start(s, i)
}

/// The separator that ends the cursor's line, or the last character of a
/// text whose last line has none.
pub open spec fn after_end_of_line(s: Seq<char>, i: int) -> int {
    least(line_end(s, i), last_offset(s))
}

/// What lies between the start of a line and offset `i` holds no separator.
pub proof fn lemma_line_start(s: Seq<char>, i: int)
    requires
        0 <= i <= s.len(),
    ensures
        0 <= line_start(s, i) <= i,
        line_start(s, i) == 0 || s[line_start(s, i) - 1] == '\n',
        forall|j: int| line_start(s, i) <= j < i ==> s[j] != '\n',
    decreases i,
{
    if i > 0 && s[i - 1] != '\n' {
        lemma_line_start(s, i - 1);
    }
}

/// What lies between offset `i` and the end of its line holds no separator.
pub proof fn lemma_line_end(s: Seq<char>, i: int)
    requires
        0 <= i <= s.len(),
    ensures
        i <= line_end(s, i) <= s.len(),
        line_end(s, i) == s.len() || s[line_end(s, i)] == '\n',
        forall|j: int| i <= j < line_end(s, i) ==> s[j] != '\n',
    decreases s.len() - i,
{
    if i < s.len() && s[i] != '\n' {
        lemma_line_end(s, i + 1);
    }
}

/// Two offsets with no separator between them lie on one line.
pub proof fn lemma_same_line(s: Seq<char>, i: int, j: int)
    requires
        0 <= i <= j <= s.len(),
        forall|k: int| i <= k < j ==> s[k] != '\n',
    ensures
        line_start(s, j) == line_start(s, i),
        newlines_before(s, j) == newlines_before(s, i),
    decreases j - i,
{
    if i < j {
        lemma_same_line(s, i, j - 1);
    }
}

/// A word ends at or after the offset it is asked from.
pub proof fn lemma_word_end(s: Seq<char>, i: int)
    requires
        0 <= i <= s.len(),
    ensures
        i <= word_end(s, i) <= s.len(),
    decreases s.len() - i,
{
    if i < s.len() && !is_whitespace(s[i]) {
        lemma_word_end(s, i + 1);
    }
}

/// A word starts at or before the offset it is asked from.
pub proof fn lemma_word_start(s: Seq<char>, i: int)
    requires
        0 <= i <= s.len(),
    ensures
        0 <= word_start(s, i) <= i,
    decreases i,
{
    if i > 0 && !is_whitespace(s[i - 1]) {
        lemma_word_start(s, i - 1);
    }
}

/// Every motion leaves a cursor that stands inside the text inside it.
pub proof fn lemma_motions_stay_in_range(s: Seq<char>, i: int)
    requires
        0 <= i <= last_offset(s),
    ensures
        0 <= after_inc(s, i) <= last_offset(s),
        0 <= after_dec(s, i) <= last_offset(s),
        0 <= after_line_down(s, i) <= last_offset(s),
        0 <= after_line_up(s, i) <= last_offset(s),
        0 <= after_next_word(s, i) <= last_offset(s),
        0 <= after_prev_word(s, i) <= last_offset(s),
        0 <= after_start_of_line(s, i) <= last_offset(s),
        0 <= after_end_of_line(s, i) <= last_offset(s),
{
    lemma_line_start(s, i);
    lemma_line_end(s, i);
    lemma_word_start(s, i);
    lemma_word_end(s, i);
    let end = line_end(s, i);
    if end + 1 < s.len() {
        lemma_line_end(s, end + 1);
    }
    let start = line_start(s, i);
    if start > 0 {
        lemma_line_start(s, start - 1);
    }
}

/// The offset at which the line of offset `i` begins.
pub fn find_line_start(text: &Vec<char>, i: usize) -> (start: usize)
    requires
        i <= text.len(),
    ensures
        start == line_start(text@, i as int),
{
    let mut j = i;
    while j > 0 && text[j - 1] != '\n'
        invariant
            j <= i <= text.len(),
            line_start(text@, i as int) == line_start(text@, j as int),
        decreases j,
    {
        j -= 1;
    }
    j
}

/// The offset of the first separator at or after `i`, or the length of the
/// text.
pub fn find_line_end(text: &Vec<char>, i: usize) -> (end: usize)
    requires
        i <= text.len(),
    ensures
        end == line_end(text@, i as int),
{
    let mut j = i;
    while j < text.len() && text[j] != '\n'
        invariant
            i <= j <= text.len(),
            line_end(text@, i as int) == line_end(text@, j as int),
        decreases text.len() - j,
    {
        j += 1;
    }
    j
}

/// The number of separators before offset `i`.
pub fn count_newlines_before(text: &Vec<char>, i: usize) -> (count: usize)
    requires
        i <= text.len(),
    ensures
        count == newlines_before(text@, i as int),
{
    let mut count: usize = 0;
    let mut j: usize = 0;
    while j < i
        invariant
            j <= i <= text.len(),
            count <= j,
            count == newlines_before(text@, j as int),
        decreases i - j,
    {
        if text[j] == '\n' {
            count += 1;
        }
        j += 1;
    }
    count
}

/// The offset of the first white space at or after `i`, or the length of the
/// text.
pub fn find_word_end(text: &Vec<char>, i: usize) -> (end: usize)
    requires
        i <= text.len(),
    ensures
        end == word_end(text@, i as int),
{
    let mut j = i;
    while j < text.len() && !char_is_whitespace(text[j])
        invariant
            i <= j <= text.len(),
            word_end(text@, i as int) == word_end(text@, j as int),
        decreases text.len() - j,
    {
        j += 1;
    }
    j
}

/// The offset just after the last white space before `i`, or 0.
pub fn find_word_start(text: &Vec<char>, i: usize) -> (start: usize)
    requires
        i <= text.len(),
    ensures
        start == word_start(text@, i as int),
{
    let mut j = i;
    while j > 0 && !char_is_whitespace(text[j - 1])
        invariant
            j <= i <= text.len(),
            word_start(text@, i as int) == word_start(text@, j as int),
        decreases j,
    {
        j -= 1;
    }
    j
}

/// The greatest offset a cursor may stand on.
pub fn find_last_offset(text: &Vec<char>) -> (last: usize)
    ensures
        last == last_offset(text@),
{
    if text.len() == 0 {
        0
    } else {
        text.len() - 1
    }
}

/// Where `cursor_line_down` leads from offset `i`.
pub fn line_down_from(text: &Vec<char>, i: usize) -> (target: usize)
    requires
        i <= last_offset(text@),
    ensures
        target == after_line_down(text@, i as int),
{
    let last = find_last_offset(text);
    let end = find_line_end(text, i);
    proof {
        lemma_line_end(text@, i as int);
        lemma_line_start(text@, i as int);
    }
    if end >= last {
        last
    } else {
        let next_start = end + 1;
        let next_end = find_line_end(text, next_start);
        let column = i - find_line_start(text, i);
        proof {
            lemma_line_end(text@, next_start as int);
        }
        let next_len = next_end - next_start;
        let target = if column <= next_len {
            next_start + column
        } else {
            next_end
        };
        if target <= last {
            target
        } else {
            last
        }
    }
}

/// Where `cursor_line_up` leads from offset `i`.
pub fn line_up_from(text: &Vec<char>, i: usize) -> (target: usize)
    requires
        i <= last_offset(text@),
    ensures
        target == after_line_up(text@, i as int),
{
    let start = find_line_start(text, i);
    proof {
        lemma_line_start(text@, i as int);
    }
    if start == 0 {
        0
    } else {
        let prev_end = start - 1;
        let prev_start = find_line_start(text, prev_end);
        proof {
            lemma_line_start(text@, prev_end as int);
        }
        let column = i - start;
        let prev_len = prev_end - prev_start;
        if column <= prev_len {
            prev_start + column
        } else {
            prev_end
        }
    }
}

/// Where `cursor_start_next_word` leads from offset `i`.
pub fn next_word_from(text: &Vec<char>, i: usize) -> (target: usize)
    requires
        i <= last_offset(text@),
    ensures
        target == after_next_word(text@, i as int),
{
    let last = find_last_offset(text);
    let end = find_word_end(text, i);
    proof {
        lemma_word_end(text@, i as int);
    }
    if end < last {
        end + 1
    } else {
        last
    }
}

/// Where `cursor_end_of_line` leads from offset `i`.
pub fn end_of_line_from(text: &Vec<char>, i: usize) -> (target: usize)
    requires
        i <= last_offset(text@),
    ensures
        target == after_end_of_line(text@, i as int),
{
    let last = find_last_offset(text);
    let end = find_line_end(text, i);
    if end <= last {
        end
    } else {
        last
    }
}

/// The lines of `s` from offset `start` on: each runs up to, and leaves out,
/// the separator that ends it; a last line without separator counts if it
/// is not empty.
pub open spec fn lines_from(s: Seq<char>, start: int) -> Seq<Seq<char>>
    decreases s.len() - start,
{
    if start < 0 || start >= s.len() {
        Seq::empty()
    } else {
        let end = line_end(s, start);
        if start <= end < s.len() {
            seq![s.subrange(start, end)] + lines_from(s, end + 1)
        } else {
            seq![s.subrange(start, s.len() as int)]
        }
    }
}

/// The lines of `s`.
pub open spec fn lines_of(s: Seq<char>) -> Seq<Seq<char>> {
    lines_from(s, 0)
}

/// The texts of a list of strings.
pub open spec fn line_views(lines: Seq<String>) -> Seq<Seq<char>> {
    lines.map_values(|line: String| line@)
}

/// The lines of `text`, without their separators.
pub fn split_lines(text: &Vec<char>) -> (lines: Vec<String>)
    ensures
        line_views(lines@) == lines_of(text@),
{
    let mut lines: Vec<String> = Vec::new();
    let mut start: usize = 0;
    proof {
        assert(line_views(lines@) + lines_from(text@, 0) =~= lines_of(text@));
    }
    while start < text.len()
        invariant
            start <= text.len(),
            line_views(lines@) + lines_from(text@, start as int) == lines_of(text@),
        decreases text.len() - start,
    {
        let end = find_line_end(text, start);
        proof {
            lemma_line_end(text@, start as int);
        }
        let line = string_of_range(text, start, end);
        let ghost before = lines@;
        lines.push(line);
        proof {
            assert(line_views(lines@) =~= line_views(before).push(line@));
            assert(line_views(lines@) + lines_from(text@, end + 1) =~= line_views(before)
                + lines_from(text@, start as int));
        }
        if end < text.len() {
            start = end + 1;
        } else {
            start = end;
        }
    }
    proof {
        assert(line_views(lines@) + lines_from(text@, start as int) =~= line_views(lines@));
    }
    lines
}

/// The offset at which line `k` begins, lines counted from 0: the start of
/// the text, or just after the separator that ends line `k - 1`.
pub open spec fn line_offset(s: Seq<char>, k: nat) -> int
    decreases k,
{
    if k == 0 {
        0
    } else {
        line_end(s, line_offset(s, (k - 1) as nat)) + 1
    }
}

/// The text has a place where line `k` begins, lines counted from 0: every
/// line before it ends in a separator.
pub open spec fn has_line_start(s: Seq<char>, k: nat) -> bool
    decreases k,
{
    k == 0 || (has_line_start(s, (k - 1) as nat) && line_end(s, line_offset(s, (k - 1) as nat))
        < s.len())
}

/// The offset of column `col` of line `line`, both counted from 1, if the
/// text has that place. The column just past the end of a line counts, and
/// so does the empty line after a final separator.
pub open spec fn position_offset(s: Seq<char>, line: int, col: int) -> Option<int> {
    if line >= 1 && col >= 1 && has_line_start(s, (line - 1) as nat) {
        let start = line_offset(s, (line - 1) as nat);
        if start + col - 1 <= line_end(s, start) {
            Some(start + col - 1)
        } else {
            None
        }
    } else {
        None
    }
}

/// The offset at which line `k` begins, lines counted from 0, if the text
/// has such a place.
pub fn find_line_offset(text: &Vec<char>, k: usize) -> (start: Option<usize>)
    ensures
        start is Some == has_line_start(text@, k as nat),
        start is Some ==> start->Some_0 == line_offset(text@, k as nat),
        start is Some ==> start->Some_0 <= text.len(),
{
    let mut start: usize = 0;
    let mut line: usize = 0;
    while line < k
        invariant
            line <= k,
            start <= text.len(),
            has_line_start(text@, line as nat),
            start == line_offset(text@, line as nat),
        decreases k - line,
    {
        let end = find_line_end(text, start);
        proof {
            lemma_line_end(text@, start as int);
        }
        if end >= text.len() {
            proof {
                lemma_no_later_line(text@, (line + 1) as nat, k as nat);
            }
            return None;
        }
        start = end + 1;
        line += 1;
    }
    Some(start)
}

/// A text that has no place for line `k` has none for any later line.
pub proof fn lemma_no_later_line(s: Seq<char>, k: nat, later: nat)
    requires
        !has_line_start(s, k),
        k <= later,
    ensures
        !has_line_start(s, later),
    decreases later - k,
{
    if k < later {
        lemma_no_later_line(s, k, (later - 1) as nat);
    }
}

/// The offset of column `col` of line `line`, both counted from 1, if the
/// text has that place.
pub fn find_position(text: &Vec<char>, line: usize, col: usize) -> (offset: Option<usize>)
    ensures
        offset is Some == position_offset(text@, line as int, col as int) is Some,
        offset is Some ==> offset->Some_0 == position_offset(
            text@,
            line as int,
            col as int,
        )->Some_0,
        offset is Some ==> offset->Some_0 <= text.len(),
{
    if line < 1 || col < 1 {
        return None;
    }
    match find_line_offset(text, line - 1) {
        Some(start) => {
            let end = find_line_end(text, start);
            proof {
                lemma_line_end(text@, start as int);
            }
            if col - 1 <= end - start {
                Some(start + (col - 1))
            } else {
                None
            }
        },
        None => None,
    }
}

/// The line number of offset `i`, counted from 0: the number of separators
/// before it.
pub open spec fn row_of(s: Seq<char>, i: int) -> nat {
    newlines_before(s, i)
}

/// Later offsets lie on later lines, or on the same one.
pub proof fn lemma_rows_grow(s: Seq<char>, i: int, j: int)
    requires
        i <= j,
    ensures
        newlines_before(s, i) <= newlines_before(s, j),
    decreases j - i,
{
    if i < j {
        lemma_rows_grow(s, i, j - 1);
    }
}

/// An offset on the first line has the start of the text as the start of
/// its line, and the other way round.
pub proof fn lemma_first_row(s: Seq<char>, i: int)
    requires
        0 <= i <= s.len(),
    ensures
        (newlines_before(s, i) == 0) == (line_start(s, i) == 0),
    decreases i,
{
    if i > 0 {
        lemma_first_row(s, i - 1);
        lemma_line_start(s, i);
        if s[i - 1] != '\n' {
        } else {
            assert(line_start(s, i) == i);
        }
    }
}

/// An offset lies on the line of the last character exactly if no
/// separator, or only the very last character, follows it.
pub proof fn lemma_last_row(s: Seq<char>, i: int)
    requires
        0 <= i <= last_offset(s),
    ensures
        (newlines_before(s, i) == newlines_before(s, last_offset(s))) == (line_end(s, i) + 1
            >= s.len()),
{
    let last = last_offset(s);
    let end = line_end(s, i);
    lemma_line_end(s, i);
    if end + 1 >= s.len() {
        assert forall|k: int| i <= k < last implies s[k] != '\n' by {}
        lemma_same_line(s, i, last);
    } else {
        lemma_same_line(s, i, end);
        assert(newlines_before(s, end + 1) == newlines_before(s, end) + 1);
        lemma_rows_grow(s, end + 1, last);
    }
}

/// Clamping at the ends of the text: moving back from the first character,
/// forward from the last, up from the first line or down from the last
/// line leaves the cursor on the first character, on the last, at the start
/// of the text and on the last character of the text.
pub proof fn lemma_clamp_at_ends(s: Seq<char>, i: int)
    requires
        0 <= i <= last_offset(s),
    ensures
        after_dec(s, 0) == 0,
        after_inc(s, last_offset(s)) == last_offset(s),
        row_of(s, i) == 0 ==> after_line_up(s, i) == 0,
        row_of(s, i) == row_of(s, last_offset(s)) ==> after_line_down(s, i) == last_offset(s),
        s.len() == 0 ==> after_line_down(s, i) == 0,
{
    lemma_first_row(s, i);
    lemma_last_row(s, i);
}

/// Moving to the end of a line stays on that line, so moving to the start
/// of the line from there leads to column 0 of the line the cursor came
/// from.
pub proof fn lemma_end_then_start_of_line(s: Seq<char>, i: int)
    requires
        0 <= i <= last_offset(s),
    ensures
        ({
            let back = after_start_of_line(s, after_end_of_line(s, i));
            &&& back == line_start(s, i)
            &&& column_of(s, back) == 0
            &&& row_of(s, back) == row_of(s, i)
            &&& row_of(s, after_end_of_line(s, i)) == row_of(s, i)
        }),
{
    let end = after_end_of_line(s, i);
    lemma_line_end(s, i);
    lemma_line_start(s, i);
    assert(i <= end);
    assert forall|k: int| i <= k < end implies s[k] != '\n' by {}
    lemma_same_line(s, i, end);
    let back = line_start(s, i);
    lemma_same_line(s, back, i);
    lemma_line_start(s, back);
    assert(line_start(s, back) == back) by {
        if back > 0 {
            assert(s[back - 1] == '\n');
        }
    }
}

/// One line down leads to the next line, or stays on the last.
pub proof fn lemma_line_down_row(s: Seq<char>, i: int)
    requires
        0 <= i <= last_offset(s),
    ensures
        row_of(s, after_line_down(s, i)) == least(
            row_of(s, i) as int + 1,
            row_of(s, last_offset(s)) as int,
        ),
{
    let last = last_offset(s);
    let end = line_end(s, i);
    lemma_line_end(s, i);
    lemma_last_row(s, i);
    lemma_rows_grow(s, i, last);
    if end + 1 >= s.len() {
    } else {
        let next_start = end + 1;
        let next_end = line_end(s, next_start);
        lemma_line_end(s, next_start);
        lemma_line_start(s, i);
        let target = after_line_down(s, i);
        assert(next_start <= target <= next_end);
        lemma_same_line(s, i, end);
        assert(newlines_before(s, next_start) == newlines_before(s, end) + 1);
        assert forall|k: int| next_start <= k < target implies s[k] != '\n' by {}
        lemma_same_line(s, next_start, target);
        lemma_rows_grow(s, next_start, last);
    }
}

} // verus!
