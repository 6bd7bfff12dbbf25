//! How the listing of lines relates to offsets: which line of the listing a
//! cursor stands on, and what an edit does to the listing.

use vstd::prelude::*;
use crate::data::text::{
    column_of, has_line_start, last_offset, lemma_line_end, lemma_line_start, lemma_same_line,
    line_end, line_offset, line_start, lines_from, lines_of, newlines_before, position_offset,
    row_of,
};

verus! {

/// Offset `b` is where a line begins: the start of the text, or just after
/// a separator.
pub open spec fn is_line_boundary(s: Seq<char>, b: int) -> bool {
    0 <= b <= s.len() && (b == 0 || s[b - 1] == '\n')
}

/// Where a line ends does not depend on what comes before the place it is
/// asked from.
pub proof fn lemma_line_end_shift(s: Seq<char>, b: int, j: int)
    requires
        0 <= b <= s.len(),
        0 <= j <= s.len() - b,
    ensures
        line_end(s.subrange(b, s.len() as int), j) == line_end(s, b + j) - b,
    decreases s.len() - b - j,
{
    let tail = s.subrange(b, s.len() as int);
    if b + j < s.len() {
        assert(tail[j] == s[b + j]);
        if s[b + j] != '\n' {
            lemma_line_end_shift(s, b, j + 1);
        }
    }
}

/// Where a line ends does not depend on what comes after its separator.
pub proof fn lemma_line_end_prefix(s: Seq<char>, b: int, a: int)
    requires
        0 <= a <= b <= s.len(),
        line_end(s, a) < b,
    ensures
        line_end(s.subrange(0, b), a) == line_end(s, a),
    decreases b - a,
{
    let head = s.subrange(0, b);
    if a < b {
        assert(head[a] == s[a]);
        if s[a] != '\n' {
            lemma_line_end(s, a + 1);
            lemma_line_end_prefix(s, b, a + 1);
        }
    } else {
        lemma_line_end(s, a);
    }
}

/// The lines from an offset on are the lines of the text from that offset
/// on.
pub proof fn lemma_lines_from_shift(s: Seq<char>, b: int, j: int)
    requires
        0 <= b <= s.len(),
        0 <= j <= s.len() - b,
    ensures
        lines_from(s.subrange(b, s.len() as int), j) == lines_from(s, b + j),
    decreases s.len() - b - j,
{
    let tail = s.subrange(b, s.len() as int);
    if b + j < s.len() {
        lemma_line_end_shift(s, b, j);
        lemma_line_end(s, b + j);
        let end = line_end(s, b + j);
        assert(tail.subrange(j, end - b) =~= s.subrange(b + j, end));
        if end < s.len() {
            lemma_lines_from_shift(s, b, end - b + 1);
        } else {
            assert(tail.subrange(j, tail.len() as int) =~= s.subrange(b + j, s.len() as int));
        }
    }
}

/// The lines from a boundary `a` up to a later boundary `b` are the lines
/// that the text before `b` has from `a` on; there is one of them for each
/// separator between the two, and the lines from `b` on follow them.
pub proof fn lemma_lines_split(s: Seq<char>, a: int, b: int)
    requires
        0 <= a <= b <= s.len(),
        is_line_boundary(s, b),
        a == b || b > 0,
    ensures
        lines_from(s, a) == lines_from(s.subrange(0, b), a) + lines_from(s, b),
        lines_from(s.subrange(0, b), a).len() == newlines_before(s, b) - newlines_before(s, a),
    decreases b - a,
{
    let head = s.subrange(0, b);
    if a == b {
        assert(lines_from(head, a) =~= Seq::<Seq<char>>::empty());
        assert(lines_from(s, a) =~= lines_from(head, a) + lines_from(s, b));
    } else {
        lemma_line_end(s, a);
        let end = line_end(s, a);
        assert(end < b) by {
            if end >= b {
                assert(s[b - 1] != '\n');
            }
        }
        lemma_line_end_prefix(s, b, a);
        assert(head.subrange(a, end) =~= s.subrange(a, end));
        lemma_same_line(s, a, end);
        assert(newlines_before(s, end + 1) == newlines_before(s, end) + 1);
        lemma_lines_split(s, end + 1, b);
        assert(lines_from(s, a) == seq![s.subrange(a, end)] + lines_from(s, end + 1));
        if end + 1 < b {
            assert(lines_from(head, a) == seq![head.subrange(a, end)] + lines_from(head, end + 1));
        } else {
            assert(lines_from(head, end + 1) =~= Seq::<Seq<char>>::empty());
            assert(lines_from(head, a) == seq![head.subrange(a, end)] + lines_from(head, end + 1));
        }
        assert(lines_from(s, a) =~= lines_from(head, a) + lines_from(s, b));
    }
}

/// The listing of a text cut at a line boundary is the listing of what
/// comes before the cut, followed by the listing of what comes after it;
/// what comes before has as many lines as separators.
pub proof fn lemma_lines_at_boundary(s: Seq<char>, b: int)
    requires
        is_line_boundary(s, b),
    ensures
        lines_of(s) == lines_of(s.subrange(0, b)) + lines_of(s.subrange(b, s.len() as int)),
        lines_of(s.subrange(0, b)).len() == newlines_before(s, b),
        lines_from(s, b) == lines_of(s.subrange(b, s.len() as int)),
{
    lemma_lines_from_shift(s, b, 0);
    if b == 0 {
        assert(lines_of(s.subrange(0, 0)) =~= Seq::<Seq<char>>::empty());
        assert(s.subrange(0, s.len() as int) =~= s);
        assert(lines_of(s) =~= lines_of(s.subrange(0, b)) + lines_of(
            s.subrange(b, s.len() as int),
        ));
    } else {
        lemma_lines_split(s, 0, b);
    }
}

/// The line of the listing on which a cursor stands: its number is the
/// row of the cursor, it runs from the start of the cursor's line to the
/// separator after the cursor, and the cursor's column lies in it or just
/// past its end.
pub proof fn lemma_cursor_line(s: Seq<char>, i: int)
    requires
        s.len() > 0,
        0 <= i <= last_offset(s),
    ensures
        row_of(s, i) < lines_of(s).len(),
        lines_of(s)[row_of(s, i) as int] == s.subrange(line_start(s, i), line_end(s, i)),
        0 <= column_of(s, i) <= lines_of(s)[row_of(s, i) as int].len(),
{
    let start = line_start(s, i);
    lemma_line_start(s, i);
    lemma_line_end(s, i);
    lemma_line_end(s, start);
    lemma_same_line(s, start, i);
    lemma_lines_at_boundary(s, start);
    assert(line_end(s, start) == line_end(s, i)) by {
        lemma_line_end_from_same_line(s, start, i);
    }
    let before = lines_of(s.subrange(0, start));
    let after = lines_from(s, start);
    assert(after.len() > 0);
    assert(after[0] == s.subrange(start, line_end(s, start)));
    assert(lines_of(s)[before.len() as int] == after[0]);
}

/// Two offsets with no separator between them have the same end of line.
pub proof fn lemma_line_end_from_same_line(s: Seq<char>, i: int, j: int)
    requires
        0 <= i <= j <= s.len(),
        forall|k: int| i <= k < j ==> s[k] != '\n',
    ensures
        line_end(s, i) == line_end(s, j),
    decreases j - i,
{
    if i < j {
        lemma_line_end_from_same_line(s, i + 1, j);
    }
}

/// The end of the line of `i` is the first separator at or after `i`, or the
/// end of the text.
pub proof fn lemma_line_end_is(s: Seq<char>, i: int, e: int)
    requires
        0 <= i <= e <= s.len(),
        forall|k: int| i <= k < e ==> s[k] != '\n',
        e == s.len() || s[e] == '\n',
    ensures
        line_end(s, i) == e,
    decreases e - i,
{
    if i < e {
        lemma_line_end_is(s, i + 1, e);
    }
}

/// Where line `k` begins is a line boundary with `k` separators before it.
pub proof fn lemma_line_offset_is_boundary(s: Seq<char>, k: nat)
    requires
        has_line_start(s, k),
    ensures
        is_line_boundary(s, line_offset(s, k)),
        newlines_before(s, line_offset(s, k)) == k,
    decreases k,
{
    if k > 0 {
        let before = line_offset(s, (k - 1) as nat);
        lemma_line_offset_is_boundary(s, (k - 1) as nat);
        lemma_line_end(s, before);
        lemma_same_line(s, before, line_end(s, before));
    }
}

/// What the text looks like around the place where line `k` begins: the
/// listing is the `k` lines before that place followed by the lines from it
/// on.
pub proof fn lemma_lines_around(s: Seq<char>, k: nat)
    requires
        has_line_start(s, k),
    ensures
        ({
            let start = line_offset(s, k);
            &&& is_line_boundary(s, start)
            &&& lines_of(s) == lines_of(s.subrange(0, start)) + lines_from(s, start)
            &&& lines_of(s.subrange(0, start)).len() == k
            &&& lines_from(s, start).len() > 0 <==> start < s.len()
            &&& start < s.len() ==> lines_from(s, start)[0] == s.subrange(
                start,
                line_end(s, start),
            )
            &&& k <= lines_of(s).len()
        }),
{
    let start = line_offset(s, k);
    lemma_line_offset_is_boundary(s, k);
    lemma_lines_at_boundary(s, start);
    lemma_line_end(s, start);
}

/// Inserting a character that is no separator changes the line it goes
/// into and no other: that line of the listing gets the character at the
/// column, or, at the empty place after the last separator, a new line of
/// that one character joins the listing.
pub proof fn lemma_insert_char_lines(s: Seq<char>, line: int, col: int, ch: char)
    requires
        position_offset(s, line, col) is Some,
        ch != '\n',
    ensures
        ({
            let after = s.insert(position_offset(s, line, col)->Some_0, ch);
            let listed = lines_of(s);
            if line - 1 < listed.len() {
                lines_of(after) == listed.update(line - 1, listed[line - 1].insert(col - 1, ch))
            } else {
                &&& line - 1 == listed.len()
                &&& col == 1
                &&& lines_of(after) == listed.push(seq![ch])
            }
        }),
{
    let k = (line - 1) as nat;
    let start = line_offset(s, k);
    let end = line_end(s, start);
    let offset = start + col - 1;
    let after = s.insert(offset, ch);
    lemma_lines_around(s, k);
    lemma_line_end(s, start);
    assert(after.subrange(0, start) =~= s.subrange(0, start));
    assert(is_line_boundary(after, start));
    lemma_lines_at_boundary(after, start);
    lemma_line_end_is(after, start, end + 1);
    assert(after.subrange(start, end + 1) =~= s.subrange(start, end).insert(col - 1, ch));
    let head = lines_of(s.subrange(0, start));
    let changed = s.subrange(start, end).insert(col - 1, ch);
    if end < s.len() {
        lemma_lines_from_shift(after, end + 2, 0);
        lemma_lines_from_shift(s, end + 1, 0);
        assert(after.subrange(end + 2, after.len() as int) =~= s.subrange(
            end + 1,
            s.len() as int,
        ));
        let rest = lines_from(s, end + 1);
        assert(lines_from(after, start) == seq![changed] + rest);
        assert(lines_from(s, start) == seq![s.subrange(start, end)] + rest);
        assert(lines_of(after) =~= lines_of(s).update(line - 1, changed));
    } else {
        assert(lines_from(after, start) == seq![changed]);
        if start < s.len() {
            assert(lines_from(s, start) == seq![s.subrange(start, end)]);
            assert(lines_of(after) =~= lines_of(s).update(line - 1, changed));
        } else {
            assert(lines_from(s, start) =~= Seq::<Seq<char>>::empty());
            assert(changed =~= seq![ch]);
            assert(lines_of(after) =~= lines_of(s).push(seq![ch]));
        }
    }
}

/// Inserting a line of text without separators before line `k` puts that
/// line into the listing at `k` and moves the later lines one down.
pub proof fn lemma_insert_line_lines(s: Seq<char>, k: nat, content: Seq<char>)
    requires
        has_line_start(s, k),
        forall|i: int| 0 <= i < content.len() ==> content[i] != '\n',
    ensures
        ({
            let start = line_offset(s, k);
            let after = s.subrange(0, start) + content.push('\n') + s.subrange(
                start,
                s.len() as int,
            );
            &&& k <= lines_of(s).len()
            &&& lines_of(after) == lines_of(s).insert(k as int, content)
        }),
{
    let start = line_offset(s, k);
    let after = s.subrange(0, start) + content.push('\n') + s.subrange(start, s.len() as int);
    let end = start + content.len();
    lemma_lines_around(s, k);
    assert(after.subrange(0, start) =~= s.subrange(0, start));
    assert(is_line_boundary(after, start));
    lemma_lines_at_boundary(after, start);
    lemma_line_end_is(after, start, end);
    assert(after.subrange(start, end) =~= content);
    lemma_lines_from_shift(after, end + 1, 0);
    lemma_lines_from_shift(s, start, 0);
    assert(after.subrange(end + 1, after.len() as int) =~= s.subrange(start, s.len() as int));
    assert(lines_from(after, start) == seq![content] + lines_from(s, start));
    assert(lines_of(after) =~= lines_of(s).insert(k as int, content));
}

/// Deleting line `k` with its separator takes that line out of the listing
/// and moves the later lines one up.
pub proof fn lemma_delete_line_lines(s: Seq<char>, k: nat)
    requires
        has_line_start(s, k),
        line_offset(s, k) < s.len(),
    ensures
        ({
            let start = line_offset(s, k);
            let end = line_end(s, start);
            let stop = if end < s.len() {
                end + 1
            } else {
                end
            };
            let after = s.subrange(0, start) + s.subrange(stop, s.len() as int);
            &&& k < lines_of(s).len()
            &&& lines_of(s)[k as int] == s.subrange(start, end)
            &&& lines_of(after) == lines_of(s).remove(k as int)
        }),
{
    let start = line_offset(s, k);
    let end = line_end(s, start);
    let stop = if end < s.len() {
        end + 1
    } else {
        end
    };
    let after = s.subrange(0, start) + s.subrange(stop, s.len() as int);
    lemma_lines_around(s, k);
    lemma_line_end(s, start);
    assert(after.subrange(0, start) =~= s.subrange(0, start));
    assert(is_line_boundary(after, start));
    lemma_lines_at_boundary(after, start);
    assert(after.subrange(start, after.len() as int) =~= s.subrange(stop, s.len() as int));
    if end < s.len() {
        lemma_lines_from_shift(s, end + 1, 0);
        assert(lines_from(s, start) == seq![s.subrange(start, end)] + lines_from(s, end + 1));
    } else {
        assert(lines_of(s.subrange(stop, s.len() as int)) =~= Seq::<Seq<char>>::empty());
        assert(lines_from(s, start) == seq![s.subrange(start, end)]);
    }
    assert(lines_of(after) =~= lines_of(s).remove(k as int));
}

/// Appending text without separators to line `k` changes that line of the
/// listing and no other; appended to the empty place after the last
/// separator, text that is not empty makes a new line.
pub proof fn lemma_append_to_line_lines(s: Seq<char>, k: nat, text: Seq<char>)
    requires
        has_line_start(s, k),
        forall|i: int| 0 <= i < text.len() ==> text[i] != '\n',
    ensures
        ({
            let end = line_end(s, line_offset(s, k));
            let after = s.subrange(0, end) + text + s.subrange(end, s.len() as int);
            let listed = lines_of(s);
            if k < listed.len() {
                lines_of(after) == listed.update(k as int, listed[k as int] + text)
            } else if text.len() > 0 {
                lines_of(after) == listed.push(text)
            } else {
                lines_of(after) == listed
            }
        }),
{
    let start = line_offset(s, k);
    let end = line_end(s, start);
    let after = s.subrange(0, end) + text + s.subrange(end, s.len() as int);
    let new_end = end + text.len();
    lemma_lines_around(s, k);
    lemma_line_end(s, start);
    assert(after.subrange(0, start) =~= s.subrange(0, start));
    assert(is_line_boundary(after, start));
    lemma_lines_at_boundary(after, start);
    lemma_line_end_is(after, start, new_end);
    let changed = s.subrange(start, end) + text;
    assert(after.subrange(start, new_end) =~= changed);
    if end < s.len() {
        lemma_lines_from_shift(after, new_end + 1, 0);
        lemma_lines_from_shift(s, end + 1, 0);
        assert(after.subrange(new_end + 1, after.len() as int) =~= s.subrange(
            end + 1,
            s.len() as int,
        ));
        let rest = lines_from(s, end + 1);
        assert(lines_from(after, start) == seq![changed] + rest);
        assert(lines_from(s, start) == seq![s.subrange(start, end)] + rest);
        assert(lines_of(after) =~= lines_of(s).update(k as int, changed));
    } else if start < s.len() {
        assert(lines_from(after, start) == seq![changed]);
        assert(lines_from(s, start) == seq![s.subrange(start, end)]);
        assert(lines_of(after) =~= lines_of(s).update(k as int, changed));
    } else if text.len() > 0 {
        assert(lines_from(after, start) == seq![changed]);
        assert(changed =~= text);
        assert(lines_from(s, start) =~= Seq::<Seq<char>>::empty());
        assert(lines_of(after) =~= lines_of(s).push(text));
    } else {
        assert(after =~= s);
    }
}

/// The lines of `lines` in one text, each followed by a separator.
pub open spec fn with_separators(lines: Seq<Seq<char>>) -> Seq<char>
    decreases lines.len(),
{
    if lines.len() == 0 {
        Seq::empty()
    } else {
        lines.first().push('\n') + with_separators(lines.drop_first())
    }
}

/// What follows offset `a` is its lines, each followed by a separator;
/// only a last line that has no separator in the text gets one more.
pub proof fn lemma_lines_from_joined(s: Seq<char>, a: int)
    requires
        0 <= a <= s.len(),
    ensures
        with_separators(lines_from(s, a)) == if a == s.len() || s.last() == '\n' {
            s.subrange(a, s.len() as int)
        } else {
            s.subrange(a, s.len() as int).push('\n')
        },
    decreases s.len() - a,
{
    if a < s.len() {
        let end = line_end(s, a);
        lemma_line_end(s, a);
        if end < s.len() {
            lemma_lines_from_joined(s, end + 1);
            let listed = lines_from(s, a);
            assert(listed.first() == s.subrange(a, end));
            assert(listed.drop_first() =~= lines_from(s, end + 1));
            assert(s.subrange(a, end).push('\n') =~= s.subrange(a, end + 1));
            if end + 1 == s.len() || s.last() == '\n' {
                assert(s.subrange(a, end + 1) + s.subrange(end + 1, s.len() as int) =~= s.subrange(
                    a,
                    s.len() as int,
                ));
            } else {
                assert(s.subrange(a, end + 1) + s.subrange(end + 1, s.len() as int).push('\n')
                    =~= s.subrange(a, s.len() as int).push('\n'));
            }
        } else {
            let listed = lines_from(s, a);
            assert(listed.first() == s.subrange(a, s.len() as int));
            assert(listed.drop_first() =~= Seq::<Seq<char>>::empty());
            assert(with_separators(listed.drop_first()) =~= Seq::<char>::empty());
            assert(with_separators(listed) =~= s.subrange(a, s.len() as int).push('\n'));
        }
    } else {
        assert(s.subrange(a, s.len() as int) =~= Seq::<char>::empty());
    }
}

/// A text is its lines, each followed by a separator; only a last line
/// that has no separator in the text gets one more.
pub proof fn lemma_text_is_its_lines(s: Seq<char>)
    ensures
        with_separators(lines_of(s)) == if s.len() == 0 || s.last() == '\n' {
            s
        } else {
            s.push('\n')
        },
{
    lemma_lines_from_joined(s, 0);
    assert(s.subrange(0, s.len() as int) =~= s);
}

/// The line of an offset begins where the line with the offset's row
/// number begins.
pub proof fn lemma_row_line_offset(s: Seq<char>, i: int)
    requires
        0 <= i <= s.len(),
    ensures
        has_line_start(s, row_of(s, i)),
        line_offset(s, row_of(s, i)) == line_start(s, i),
    decreases i,
{
    if i > 0 {
        lemma_row_line_offset(s, i - 1);
        if s[i - 1] == '\n' {
            let start = line_start(s, i - 1);
            lemma_line_start(s, i - 1);
            lemma_line_end_is(s, start, i - 1);
        }
    }
}

/// Line and column of an offset lead back to the offset: the place in line
/// `row + 1`, column `column + 1`, both counted from 1, is the offset.
pub proof fn lemma_position_of_offset(s: Seq<char>, i: int)
    requires
        0 <= i <= s.len(),
    ensures
        position_offset(s, row_of(s, i) as int + 1, column_of(s, i) + 1) == Some(i),
{
    lemma_row_line_offset(s, i);
    lemma_line_start(s, i);
    lemma_line_end(s, i);
    lemma_line_end_from_same_line(s, line_start(s, i), i);
}

/// The offset of a line and a column has that line and column: its row is
/// `line - 1` and its column `col - 1`, both counted from 0.
pub proof fn lemma_offset_of_position(s: Seq<char>, line: int, col: int)
    requires
        position_offset(s, line, col) is Some,
    ensures
        ({
            let offset = position_offset(s, line, col)->Some_0;
            &&& 0 <= offset <= s.len()
            &&& row_of(s, offset) == line - 1
            &&& column_of(s, offset) == col - 1
        }),
{
    let k = (line - 1) as nat;
    let start = line_offset(s, k);
    let offset = start + col - 1;
    lemma_line_offset_is_boundary(s, k);
    lemma_line_end(s, start);
    assert forall|j: int| start <= j < offset implies s[j] != '\n' by {}
    lemma_same_line(s, start, offset);
    lemma_line_start(s, start);
    assert(line_start(s, start) == start) by {
        if start > 0 {
            assert(s[start - 1] == '\n');
        }
    }
}

} // verus!
