//! Lists of pieces: the text and the length that a list stands for, and what
//! becomes of them when pieces are cut, put in or taken out.

use vstd::prelude::*;
use crate::data::piece_table::{Piece, Source};

verus! {

/// Every piece of `ps` lies inside its buffer.
pub open spec fn pieces_in_bounds(ps: Seq<Piece>, orig_len: nat, add_len: nat) -> bool {
    forall|i: int| 0 <= i < ps.len() ==> (#[trigger] ps[i]).in_bounds(orig_len, add_len)
}

/// The sum of the lengths of `ps`.
pub open spec fn pieces_len(ps: Seq<Piece>) -> nat
    decreases ps.len(),
{
    if ps.len() == 0 {
        0
    } else {
        pieces_len(ps.drop_last()) + ps.last().length as nat
    }
}

/// The concatenation of the texts of `ps`, in order.
pub open spec fn pieces_text(ps: Seq<Piece>, orig: Seq<char>, add: Seq<char>) -> Seq<char>
    decreases ps.len(),
{
    if ps.len() == 0 {
        Seq::empty()
    } else {
        pieces_text(ps.drop_last(), orig, add) + ps.last().text(orig, add)
    }
}

/// Lengths add up over concatenation of piece lists.
pub proof fn lemma_pieces_len_concat(a: Seq<Piece>, b: Seq<Piece>)
    ensures
        pieces_len(a + b) == pieces_len(a) + pieces_len(b),
    decreases b.len(),
{
    if b.len() == 0 {
        assert(a + b =~= a);
    } else {
        assert((a + b).drop_last() =~= a + b.drop_last());
        lemma_pieces_len_concat(a, b.drop_last());
    }
}

/// Texts concatenate over concatenation of piece lists.
pub proof fn lemma_pieces_text_concat(
    a: Seq<Piece>,
    b: Seq<Piece>,
    orig: Seq<char>,
    add: Seq<char>,
)
    ensures
        pieces_text(a + b, orig, add) == pieces_text(a, orig, add) + pieces_text(b, orig, add),
    decreases b.len(),
{
    if b.len() == 0 {
        assert(a + b =~= a);
        assert(pieces_text(a, orig, add) + pieces_text(b, orig, add) =~= pieces_text(
            a,
            orig,
            add,
        ));
    } else {
        assert((a + b).drop_last() =~= a + b.drop_last());
        lemma_pieces_text_concat(a, b.drop_last(), orig, add);
        assert(pieces_text(a + b, orig, add) =~= pieces_text(a, orig, add) + pieces_text(
            b,
            orig,
            add,
        ));
    }
}

/// The text of an in-bounds piece list is as long as its lengths add up to.
pub proof fn lemma_pieces_text_len(ps: Seq<Piece>, orig: Seq<char>, add: Seq<char>)
    requires
        pieces_in_bounds(ps, orig.len(), add.len()),
    ensures
        pieces_text(ps, orig, add).len() == pieces_len(ps),
    decreases ps.len(),
{
    if ps.len() > 0 {
        lemma_pieces_text_len(ps.drop_last(), orig, add);
        assert(ps.last().in_bounds(orig.len(), add.len()));
    }
}

/// A list of one piece has that piece's length and text.
pub proof fn lemma_pieces_single(p: Piece, orig: Seq<char>, add: Seq<char>)
    ensures
        pieces_len(seq![p]) == p.length,
        pieces_text(seq![p], orig, add) == p.text(orig, add),
{
    assert(seq![p].drop_last() =~= Seq::<Piece>::empty());
    assert(pieces_len(seq![p].drop_last()) == 0);
    assert(pieces_text(seq![p].drop_last(), orig, add) =~= Seq::<char>::empty());
    assert(pieces_text(seq![p], orig, add) =~= p.text(orig, add));
}

/// The first `k + 1` pieces are as long as the first `k` and piece `k`.
pub proof fn lemma_pieces_len_step(ps: Seq<Piece>, k: int)
    requires
        0 <= k < ps.len(),
    ensures
        pieces_len(ps.take(k + 1)) == pieces_len(ps.take(k)) + ps[k].length,
        pieces_len(ps.take(k + 1)) <= pieces_len(ps),
{
    assert(ps.take(k + 1).drop_last() =~= ps.take(k));
    assert(ps =~= ps.take(k + 1) + ps.skip(k + 1));
    lemma_pieces_len_concat(ps.take(k + 1), ps.skip(k + 1));
}

/// Character `j` of piece `k` is the character of the whole text that comes
/// after the first `k` pieces and `j` more characters.
pub proof fn lemma_piece_char(ps: Seq<Piece>, orig: Seq<char>, add: Seq<char>, k: int, j: int)
    requires
        pieces_in_bounds(ps, orig.len(), add.len()),
        0 <= k < ps.len(),
        0 <= j < ps[k].length,
    ensures
        pieces_len(ps.take(k)) + j < pieces_text(ps, orig, add).len(),
        pieces_text(ps, orig, add)[pieces_len(ps.take(k)) + j] == ps[k].text(orig, add)[j],
{
    let head = ps.take(k + 1);
    let tail = ps.skip(k + 1);
    assert(ps =~= head + tail);
    lemma_pieces_text_concat(head, tail, orig, add);
    assert(head.drop_last() =~= ps.take(k));
    assert(head.last() == ps[k]);
    assert(pieces_in_bounds(ps.take(k), orig.len(), add.len()));
    lemma_pieces_text_len(ps.take(k), orig, add);
    assert(ps[k].in_bounds(orig.len(), add.len()));
}

/// Text appended to the add buffer changes no piece that lay inside it.
pub proof fn lemma_pieces_text_add_grows(
    ps: Seq<Piece>,
    orig: Seq<char>,
    add: Seq<char>,
    extra: Seq<char>,
)
    requires
        pieces_in_bounds(ps, orig.len(), add.len()),
    ensures
        pieces_text(ps, orig, add + extra) == pieces_text(ps, orig, add),
        pieces_in_bounds(ps, orig.len(), (add + extra).len()),
    decreases ps.len(),
{
    if ps.len() > 0 {
        lemma_pieces_text_add_grows(ps.drop_last(), orig, add, extra);
        assert(ps.last().in_bounds(orig.len(), add.len()));
        assert(ps.last().text(orig, add + extra) =~= ps.last().text(orig, add));
    }
}

/// Replacing the pieces from `k` up to `m` by `repl` replaces their text by
/// the text of `repl` and leaves the text before and after as it was.
pub proof fn lemma_pieces_splice(
    ps: Seq<Piece>,
    k: int,
    m: int,
    repl: Seq<Piece>,
    orig: Seq<char>,
    add: Seq<char>,
)
    requires
        0 <= k <= m <= ps.len(),
    ensures
        pieces_text(ps.take(k) + repl + ps.skip(m), orig, add) == pieces_text(
            ps.take(k),
            orig,
            add,
        ) + pieces_text(repl, orig, add) + pieces_text(ps.skip(m), orig, add),
        pieces_len(ps.take(k) + repl + ps.skip(m)) == pieces_len(ps.take(k)) + pieces_len(repl)
            + pieces_len(ps.skip(m)),
        pieces_text(ps, orig, add) == pieces_text(ps.take(k), orig, add) + pieces_text(
            ps.subrange(k, m),
            orig,
            add,
        ) + pieces_text(ps.skip(m), orig, add),
        pieces_len(ps) == pieces_len(ps.take(k)) + pieces_len(ps.subrange(k, m)) + pieces_len(
            ps.skip(m),
        ),
{
    lemma_pieces_text_concat(ps.take(k), repl, orig, add);
    lemma_pieces_text_concat(ps.take(k) + repl, ps.skip(m), orig, add);
    lemma_pieces_len_concat(ps.take(k), repl);
    lemma_pieces_len_concat(ps.take(k) + repl, ps.skip(m));
    assert(ps =~= ps.take(k) + ps.subrange(k, m) + ps.skip(m));
    lemma_pieces_text_concat(ps.take(k), ps.subrange(k, m), orig, add);
    lemma_pieces_text_concat(ps.take(k) + ps.subrange(k, m), ps.skip(m), orig, add);
    lemma_pieces_len_concat(ps.take(k), ps.subrange(k, m));
    lemma_pieces_len_concat(ps.take(k) + ps.subrange(k, m), ps.skip(m));
}

/// A list with one more piece at its end has that piece's text and length
/// at its end.
pub proof fn lemma_pieces_push(ps: Seq<Piece>, p: Piece, orig: Seq<char>, add: Seq<char>)
    ensures
        pieces_text(ps.push(p), orig, add) == pieces_text(ps, orig, add) + p.text(orig, add),
        pieces_len(ps.push(p)) == pieces_len(ps) + p.length,
{
    assert(ps.push(p).drop_last() =~= ps);
}

/// The pieces that take the place of what stood at `j` characters into
/// piece `k` when the piece `inserted` is put there: `inserted` alone at
/// the start of a piece or at the end of the list, else the two halves of
/// piece `k` with `inserted` between them.
pub open spec fn pieces_around(ps: Seq<Piece>, k: int, j: int, inserted: Piece) -> Seq<Piece> {
    if j == 0 {
        seq![inserted]
    } else {
        seq![
            Piece { source: ps[k].source, start: ps[k].start, length: j as usize },
            inserted,
            Piece {
                source: ps[k].source,
                start: (ps[k].start + j) as usize,
                length: (ps[k].length - j) as usize,
            },
        ]
    }
}

/// What is left of piece `p` without its character `j`: the part before
/// it and the part after it, each only if it holds anything.
pub open spec fn piece_without(p: Piece, j: int) -> Seq<Piece> {
    let left = if j > 0 {
        seq![Piece { source: p.source, start: p.start, length: j as usize }]
    } else {
        Seq::<Piece>::empty()
    };
    let right = if j + 1 < p.length {
        seq![
            Piece {
                source: p.source,
                start: (p.start + j + 1) as usize,
                length: (p.length - j - 1) as usize,
            },
        ]
    } else {
        Seq::<Piece>::empty()
    };
    left + right
}

/// Offset `offset` of the text of `ps` lies `j` characters into piece `k`;
/// the end of the text lies at the start of the piece after the last.
pub open spec fn holds_offset(ps: Seq<Piece>, k: int, j: int, offset: int) -> bool {
    &&& 0 <= k <= ps.len()
    &&& 0 <= j
    &&& pieces_len(ps.take(k)) + j == offset
    &&& k < ps.len() ==> j < ps[k].length
    &&& k == ps.len() ==> j == 0
}

/// The pieces `ps` after the piece `inserted` was put at `j` characters
/// into piece `k`.
pub open spec fn pieces_with(ps: Seq<Piece>, k: int, j: int, inserted: Piece) -> Seq<Piece> {
    ps.take(k) + pieces_around(ps, k, j, inserted) + ps.skip(
        if j == 0 {
            k
        } else {
            k + 1
        },
    )
}

/// The pieces `ps` after character `j` of piece `k` was taken out.
pub open spec fn pieces_without(ps: Seq<Piece>, k: int, j: int) -> Seq<Piece> {
    ps.take(k) + piece_without(ps[k], j) + ps.skip(k + 1)
}

/// More pieces hold at least as many characters.
pub proof fn lemma_pieces_len_grows(ps: Seq<Piece>, a: int, b: int)
    requires
        0 <= a <= b <= ps.len(),
    ensures
        pieces_len(ps.take(a)) <= pieces_len(ps.take(b)),
    decreases b - a,
{
    if a < b {
        lemma_pieces_len_grows(ps, a, b - 1);
        lemma_pieces_len_step(ps, b - 1);
    }
}

/// An offset lies in one piece only, at one place in it.
pub proof fn lemma_holds_offset_unique(
    ps: Seq<Piece>,
    k1: int,
    j1: int,
    k2: int,
    j2: int,
    offset: int,
)
    requires
        holds_offset(ps, k1, j1, offset),
        holds_offset(ps, k2, j2, offset),
    ensures
        k1 == k2,
        j1 == j2,
{
    if k1 < k2 {
        lemma_pieces_len_step(ps, k1);
        lemma_pieces_len_grows(ps, k1 + 1, k2);
    } else if k2 < k1 {
        lemma_pieces_len_step(ps, k2);
        lemma_pieces_len_grows(ps, k2 + 1, k1);
    }
}

/// A list of pieces in bounds stays in bounds when some of them are replaced
/// by pieces in bounds.
pub proof fn lemma_splice_in_bounds(
    ps: Seq<Piece>,
    k: int,
    m: int,
    repl: Seq<Piece>,
    orig_len: nat,
    add_len: nat,
)
    requires
        0 <= k <= m <= ps.len(),
        pieces_in_bounds(ps, orig_len, add_len),
        pieces_in_bounds(repl, orig_len, add_len),
    ensures
        pieces_in_bounds(ps.take(k) + repl + ps.skip(m), orig_len, add_len),
{
    let after = ps.take(k) + repl + ps.skip(m);
    assert forall|i: int| 0 <= i < after.len() implies (#[trigger] after[i]).in_bounds(
        orig_len,
        add_len,
    ) by {
        if i < k {
            assert(after[i] == ps[i]);
        } else if i < k + repl.len() {
            assert(after[i] == repl[i - k]);
        } else {
            assert(after[i] == ps[i - k - repl.len() + m]);
        }
    }
}

/// The text of two or three pieces in a row.
proof fn lemma_pieces_text_few(a: Piece, b: Piece, c: Piece, orig: Seq<char>, add: Seq<char>)
    ensures
        pieces_text(seq![a, b], orig, add) == a.text(orig, add) + b.text(orig, add),
        pieces_len(seq![a, b]) == a.length + b.length,
        pieces_text(seq![a, b, c], orig, add) == a.text(orig, add) + b.text(orig, add) + c.text(
            orig,
            add,
        ),
        pieces_len(seq![a, b, c]) == a.length + b.length + c.length,
{
    lemma_pieces_single(a, orig, add);
    lemma_pieces_push(seq![a], b, orig, add);
    assert(seq![a].push(b) =~= seq![a, b]);
    lemma_pieces_push(seq![a, b], c, orig, add);
    assert(seq![a, b].push(c) =~= seq![a, b, c]);
}

/// A piece cut in two at `j` characters keeps its text: the first part
/// holds the first `j` characters and the second part the rest.
proof fn lemma_piece_cut(p: Piece, j: int, orig: Seq<char>, add: Seq<char>)
    requires
        p.in_bounds(orig.len(), add.len()),
        orig.len() <= usize::MAX,
        add.len() <= usize::MAX,
        0 <= j <= p.length,
    ensures
        ({
            let left = Piece { source: p.source, start: p.start, length: j as usize };
            let right = Piece {
                source: p.source,
                start: (p.start + j) as usize,
                length: (p.length - j) as usize,
            };
            let inner = p.text(orig, add);
            &&& left.in_bounds(orig.len(), add.len())
            &&& right.in_bounds(orig.len(), add.len())
            &&& inner.len() == p.length
            &&& left.text(orig, add) == inner.subrange(0, j)
            &&& right.text(orig, add) == inner.subrange(j, inner.len() as int)
        }),
{
    let left = Piece { source: p.source, start: p.start, length: j as usize };
    let right = Piece {
        source: p.source,
        start: (p.start + j) as usize,
        length: (p.length - j) as usize,
    };
    let inner = p.text(orig, add);
    assert(left.text(orig, add) =~= inner.subrange(0, j));
    assert(right.text(orig, add) =~= inner.subrange(j, inner.len() as int));
}

/// Putting `middle` between the two parts of a text cut at `offset` is the
/// same as putting it between the parts of the piece that holds `offset`.
proof fn lemma_insert_between(
    head: Seq<char>,
    inner: Seq<char>,
    tail: Seq<char>,
    middle: Seq<char>,
    j: int,
)
    requires
        0 <= j <= inner.len(),
    ensures
        ({
            let whole = head + inner + tail;
            let offset = head.len() + j;
            head + (inner.subrange(0, j) + middle + inner.subrange(j, inner.len() as int)) + tail
                == whole.subrange(0, offset) + middle + whole.subrange(
                offset,
                whole.len() as int,
            )
        }),
{
    let whole = head + inner + tail;
    let offset = head.len() + j;
    assert(head + (inner.subrange(0, j) + middle + inner.subrange(j, inner.len() as int)) + tail
        =~= whole.subrange(0, offset) + middle + whole.subrange(offset, whole.len() as int));
}

/// Taking character `j` out of the middle part of a text takes out the
/// character of the whole text that stands there.
proof fn lemma_remove_between(head: Seq<char>, inner: Seq<char>, tail: Seq<char>, j: int)
    requires
        0 <= j < inner.len(),
    ensures
        head + inner.remove(j) + tail == (head + inner + tail).remove(head.len() + j),
        inner.remove(j) == inner.subrange(0, j) + inner.subrange(j + 1, inner.len() as int),
{
    assert(head + inner.remove(j) + tail =~= (head + inner + tail).remove(head.len() + j));
    assert(inner.remove(j) =~= inner.subrange(0, j) + inner.subrange(j + 1, inner.len() as int));
}

/// Putting a piece for `text`, appended to the add buffer, at `j`
/// characters into piece `k` puts `text` at that place of the document.
pub proof fn lemma_insert_pieces(
    ps: Seq<Piece>,
    orig: Seq<char>,
    add: Seq<char>,
    text: Seq<char>,
    k: int,
    j: int,
)
    requires
        pieces_in_bounds(ps, orig.len(), add.len()),
        orig.len() <= usize::MAX,
        add.len() + text.len() <= usize::MAX,
        0 <= k <= ps.len(),
        k < ps.len() ==> 0 <= j < ps[k].length,
        k == ps.len() ==> j == 0,
    ensures
        ({
            let inserted = Piece {
                source: Source::Add,
                start: add.len() as usize,
                length: text.len() as usize,
            };
            let until = if j == 0 {
                k
            } else {
                k + 1
            };
            let after = ps.take(k) + pieces_around(ps, k, j, inserted) + ps.skip(until);
            let before = pieces_text(ps, orig, add);
            let offset = pieces_len(ps.take(k)) + j;
            &&& 0 <= offset <= before.len()
            &&& pieces_in_bounds(after, orig.len(), (add + text).len())
            &&& pieces_len(after) == pieces_len(ps) + text.len()
            &&& pieces_text(after, orig, add + text) == before.subrange(0, offset) + text
                + before.subrange(offset, before.len() as int)
        }),
{
    let inserted = Piece {
        source: Source::Add,
        start: add.len() as usize,
        length: text.len() as usize,
    };
    let until = if j == 0 {
        k
    } else {
        k + 1
    };
    let repl = pieces_around(ps, k, j, inserted);
    let grown = add + text;
    let before = pieces_text(ps, orig, add);
    let head = pieces_text(ps.take(k), orig, add);
    let tail = pieces_text(ps.skip(until), orig, add);
    lemma_pieces_text_add_grows(ps, orig, add, text);
    lemma_pieces_text_add_grows(ps.take(k), orig, add, text);
    lemma_pieces_text_add_grows(ps.skip(until), orig, add, text);
    lemma_pieces_text_len(ps.take(k), orig, add);
    lemma_pieces_text_len(ps, orig, add);
    lemma_pieces_splice(ps, k, until, repl, orig, grown);
    assert(inserted.text(orig, grown) =~= text);
    assert(inserted.in_bounds(orig.len(), grown.len()));
    if j == 0 {
        lemma_pieces_single(inserted, orig, grown);
        assert(ps.subrange(k, k) =~= Seq::<Piece>::empty());
        assert(pieces_in_bounds(repl, orig.len(), grown.len()));
        let none = Seq::<char>::empty();
        assert(before =~= head + none + tail);
        lemma_insert_between(head, none, tail, text, 0);
        assert(none.subrange(0, 0) + text + none.subrange(0, 0) =~= text);
    } else {
        let piece = ps[k];
        assert(piece.in_bounds(orig.len(), grown.len()));
        lemma_piece_cut(piece, j, orig, grown);
        lemma_pieces_text_few(repl[0], inserted, repl[2], orig, grown);
        assert(repl =~= seq![repl[0], inserted, repl[2]]);
        assert(ps.subrange(k, k + 1) =~= seq![piece]);
        lemma_pieces_single(piece, orig, grown);
        assert(pieces_in_bounds(repl, orig.len(), grown.len()));
        lemma_insert_between(head, piece.text(orig, grown), tail, text, j);
    }
    lemma_splice_in_bounds(ps, k, until, repl, orig.len(), grown.len());
}

/// Replacing piece `k` by what is left of it without its character `j`
/// removes that character from the document.
pub proof fn lemma_delete_pieces(
    ps: Seq<Piece>,
    orig: Seq<char>,
    add: Seq<char>,
    k: int,
    j: int,
)
    requires
        pieces_in_bounds(ps, orig.len(), add.len()),
        orig.len() <= usize::MAX,
        add.len() <= usize::MAX,
        0 <= k < ps.len(),
        0 <= j < ps[k].length,
    ensures
        ({
            let after = ps.take(k) + piece_without(ps[k], j) + ps.skip(k + 1);
            let before = pieces_text(ps, orig, add);
            let offset = pieces_len(ps.take(k)) + j;
            &&& 0 <= offset < before.len()
            &&& pieces_in_bounds(after, orig.len(), add.len())
            &&& pieces_len(after) == pieces_len(ps) - 1
            &&& pieces_text(after, orig, add) == before.remove(offset)
        }),
{
    let piece = ps[k];
    let repl = piece_without(piece, j);
    let head = pieces_text(ps.take(k), orig, add);
    let tail = pieces_text(ps.skip(k + 1), orig, add);
    let inner = piece.text(orig, add);
    let left = Piece { source: piece.source, start: piece.start, length: j as usize };
    let right = Piece {
        source: piece.source,
        start: (piece.start + j + 1) as usize,
        length: (piece.length - j - 1) as usize,
    };
    assert(piece.in_bounds(orig.len(), add.len()));
    lemma_pieces_text_len(ps.take(k), orig, add);
    lemma_pieces_text_len(ps, orig, add);
    lemma_pieces_splice(ps, k, k + 1, repl, orig, add);
    assert(ps.subrange(k, k + 1) =~= seq![piece]);
    lemma_pieces_single(piece, orig, add);
    lemma_pieces_single(left, orig, add);
    lemma_pieces_single(right, orig, add);
    lemma_pieces_text_few(left, right, right, orig, add);
    lemma_piece_cut(piece, j, orig, add);
    lemma_piece_cut(piece, j + 1, orig, add);
    lemma_remove_between(head, inner, tail, j);
    if j > 0 && j + 1 < piece.length {
        assert(repl =~= seq![left, right]);
    } else if j > 0 {
        assert(repl =~= seq![left]);
        assert(inner.subrange(j + 1, inner.len() as int) =~= Seq::<char>::empty());
        assert(inner.remove(j) =~= inner.subrange(0, j));
    } else if j + 1 < piece.length {
        assert(repl =~= seq![right]);
        assert(inner.subrange(0, j) =~= Seq::<char>::empty());
        assert(inner.remove(j) =~= inner.subrange(j + 1, inner.len() as int));
    } else {
        assert(repl =~= Seq::<Piece>::empty());
        assert(inner.remove(j) =~= Seq::<char>::empty());
    }
    assert(pieces_in_bounds(repl, orig.len(), add.len()));
    lemma_splice_in_bounds(ps, k, k + 1, repl, orig.len(), add.len());
}

} // verus!
