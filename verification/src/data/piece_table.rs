//! A piece table: the document is the concatenation of slices ("pieces") of
//! two backing buffers, the text as it was loaded and an append-only buffer
//! of everything typed since. Edits change the list of pieces and never
//! touch text that is already stored.

use vstd::prelude::*;
use crate::data::chars::{chars_of, string_of, string_of_range};
use crate::data::pieces::{
    holds_offset, lemma_delete_pieces, lemma_insert_pieces, lemma_piece_char,
    lemma_pieces_len_step, lemma_pieces_single, lemma_pieces_text_len, piece_without,
    pieces_around, pieces_in_bounds, pieces_len, pieces_text, pieces_with, pieces_without,
};
use crate::data::text::{
    find_line_end, find_line_offset, find_position, has_line_start, lemma_line_end, line_end,
    line_offset, line_views, lines_of, position_offset, split_lines,
};

verus! {

/// The backing buffer that a piece points into.
#[derive(Debug, Clone, Copy, PartialEq, Eq)]
pub enum Source {
    Orig,
    Add,
}

/// `length` characters of one backing buffer, from index `start` on.
#[derive(Debug, Clone, Copy)]
pub struct Piece {
    pub source: Source,
    pub start: usize,
    pub length: usize,
}

impl Piece {
    /// The piece lies inside the buffer it points into.
    pub open spec fn in_bounds(self, orig_len: nat, add_len: nat) -> bool {
        match self.source {
            Source::Orig => self.start + self.length <= orig_len,
            Source::Add => self.start + self.length <= add_len,
        }
    }

    /// The characters the piece stands for.
    pub open spec fn text(self, orig: Seq<char>, add: Seq<char>) -> Seq<char> {
        match self.source {
            Source::Orig => orig.subrange(self.start as int, self.start + self.length),
            Source::Add => add.subrange(self.start as int, self.start + self.length),
        }
    }
}

/// The pieces of `pieces` with those from `k` up to `m` replaced by `repl`.
fn splice_pieces(pieces: &Vec<Piece>, k: usize, m: usize, repl: &Vec<Piece>) -> (out: Vec<Piece>)
    requires
        k <= m <= pieces.len(),
    ensures
        out@ == pieces@.take(k as int) + repl@ + pieces@.skip(m as int),
{
    let mut out: Vec<Piece> = Vec::new();
    let mut i: usize = 0;
    while i < k
        invariant
            i <= k <= pieces.len(),
            out@ == pieces@.take(i as int),
        decreases k - i,
    {
        out.push(pieces[i]);
        i += 1;
        assert(out@ =~= pieces@.take(i as int));
    }
    let mut r: usize = 0;
    while r < repl.len()
        invariant
            r <= repl.len(),
            out@ == pieces@.take(k as int) + repl@.take(r as int),
        decreases repl.len() - r,
    {
        out.push(repl[r]);
        r += 1;
        assert(out@ =~= pieces@.take(k as int) + repl@.take(r as int));
    }
    assert(repl@.take(r as int) =~= repl@);
    let mut t: usize = m;
    while t < pieces.len()
        invariant
            m <= t <= pieces.len(),
            out@ == pieces@.take(k as int) + repl@ + pieces@.subrange(m as int, t as int),
        decreases pieces.len() - t,
    {
        out.push(pieces[t]);
        t += 1;
        assert(out@ =~= pieces@.take(k as int) + repl@ + pieces@.subrange(m as int, t as int));
    }
    assert(pieces@.subrange(m as int, t as int) =~= pieces@.skip(m as int));
    out
}

/// A text buffer kept as a piece table.
#[derive(Debug)]
pub struct PieceTable {
    original_file: Vec<char>,
    add_buffer: Vec<char>,
    pieces: Vec<Piece>,
}

impl View for PieceTable {
    type V = Seq<char>;

    /// The document: the texts of the pieces, one after another.
    closed spec fn view(&self) -> Seq<char> {
        pieces_text(self.pieces@, self.original_file@, self.add_buffer@)
    }
}

impl PieceTable {
    /// The list of pieces.
    pub closed spec fn pieces(&self) -> Seq<Piece> {
        self.pieces@
    }

    /// The text that was loaded.
    pub closed spec fn original(&self) -> Seq<char> {
        self.original_file@
    }

    /// Everything inserted since loading, in the order it was typed.
    pub closed spec fn added(&self) -> Seq<char> {
        self.add_buffer@
    }

    /// Every piece lies inside its buffer, and the document's length fits a
    /// machine word.
    pub closed spec fn wf(&self) -> bool {
        &&& pieces_in_bounds(self.pieces@, self.original_file@.len(), self.add_buffer@.len())
        &&& pieces_len(self.pieces@) <= usize::MAX
    }

    /// The sum of the lengths of the pieces.
    pub open spec fn piece_length_sum(&self) -> nat {
        pieces_len(self.pieces())
    }

    /// The document is the concatenation of the pieces, and its length is
    /// the sum of their lengths.
    pub proof fn lemma_piece_lengths(&self)
        requires
            self.wf(),
        ensures
            self@ == pieces_text(self.pieces(), self.original(), self.added()),
            self.piece_length_sum() == self@.len(),
            self@.len() <= usize::MAX,
            pieces_in_bounds(self.pieces(), self.original().len(), self.added().len()),
    {
        lemma_pieces_text_len(self.pieces@, self.original_file@, self.add_buffer@);
    }

    /// Loads `text` as one piece that spans the whole original buffer.
    pub fn new(text: &str) -> (table: PieceTable)
        ensures
            table.wf(),
            table@ == text@,
            table.original() == text@,
            table.added() == Seq::<char>::empty(),
            table.pieces() == seq![
                Piece { source: Source::Orig, start: 0, length: text@.len() as usize },
            ],
    {
        let original_file = chars_of(text);
        let file_length = original_file.len();
        let whole = Piece { source: Source::Orig, start: 0, length: file_length };
        let mut pieces: Vec<Piece> = Vec::new();
        pieces.push(whole);
        proof {
            lemma_pieces_single(whole, original_file@, Seq::<char>::empty());
            assert(pieces@ =~= seq![whole]);
            assert(whole.text(original_file@, Seq::<char>::empty()) =~= original_file@);
        }
        PieceTable { original_file, add_buffer: Vec::new(), pieces }
    }

    /// The lines of the document, without their separators.
    pub fn as_lines(&self) -> (lines: Vec<String>)
        requires
            self.wf(),
        ensures
            line_views(lines@) == lines_of(self@),
    {
        let text = self.forward();
        split_lines(&text)
    }

    /// The text that was loaded, as it was.
    pub fn original_file(&self) -> (text: String)
        ensures
            text@ == self.original(),
    {
        string_of(&self.original_file)
    }

    /// Everything inserted since loading, in the order it was typed.
    pub fn add_buffer(&self) -> (text: String)
        ensures
            text@ == self.added(),
    {
        string_of(&self.add_buffer)
    }

    /// The number of characters typed since loading.
    pub fn added_count(&self) -> (n: usize)
        ensures
            n == self.added().len(),
    {
        self.add_buffer.len()
    }

    /// The document as a vector of characters is `forward`; this is the
    /// same text as a string.
    pub fn text(&self) -> (text: String)
        requires
            self.wf(),
        ensures
            text@ == self@,
    {
        let chars = self.forward();
        string_of_range(&chars, 0, chars.len())
    }

    /// The pieces, in document order.
    pub fn get_pieces(&self) -> (pieces: &Vec<Piece>)
        ensures
            pieces@ == self.pieces(),
    {
        &self.pieces
    }

    /// The number of characters in the document.
    pub fn char_count(&self) -> (n: usize)
        requires
            self.wf(),
        ensures
            n == self@.len(),
            n == self.piece_length_sum(),
    {
        let mut total: usize = 0;
        let mut k: usize = 0;
        proof {
            self.lemma_piece_lengths();
            assert(self.pieces@.take(0) =~= Seq::<Piece>::empty());
        }
        while k < self.pieces.len()
            invariant
                k <= self.pieces@.len(),
                total == pieces_len(self.pieces@.take(k as int)),
                pieces_len(self.pieces@) <= usize::MAX,
            decreases self.pieces@.len() - k,
        {
            proof {
                lemma_pieces_len_step(self.pieces@, k as int);
            }
            total = total + self.pieces[k].length;
            k = k + 1;
        }
        proof {
            assert(self.pieces@.take(k as int) =~= self.pieces@);
        }
        total
    }

    /// A fresh cursor over the whole document.
    pub fn iter(&self) -> (it: PieceTableIterator<'_>)
        requires
            self.wf(),
        ensures
            it.wf(),
            it@ == self@,
    {
        proof {
            self.lemma_piece_lengths();
            assert(self.pieces@.take(0) =~= Seq::<Piece>::empty());
            assert(self.pieces@.take(self.pieces@.len() as int) =~= self.pieces@);
            assert(self@.subrange(0, self@.len() as int) =~= self@);
        }
        let remaining = self.char_count();
        PieceTableIterator {
            char_offset: 0,
            back_offset: 0,
            piece_index: 0,
            back_piece_index: 0,
            remaining,
            piece_table: self,
        }
    }

    /// The document's characters from first to last.
    pub fn forward(&self) -> (out: Vec<char>)
        requires
            self.wf(),
        ensures
            out@ == self@,
    {
        let mut it = self.iter();
        let mut out: Vec<char> = Vec::new();
        loop
            invariant
                it.wf(),
                out@ + it@ == self@,
            ensures
                out@ == self@,
            decreases it@.len(),
        {
            let ghost before = it@;
            match it.next() {
                Some(c) => {
                    out.push(c);
                    assert(out@ + it@ =~= out@.drop_last() + before);
                },
                None => {
                    assert(out@ + it@ =~= out@);
                    break ;
                },
            }
        }
        out
    }

    /// The document's characters from last to first.
    pub fn backward(&self) -> (out: Vec<char>)
        requires
            self.wf(),
        ensures
            out@ == self@.reverse(),
    {
        let mut it = self.iter();
        let mut out: Vec<char> = Vec::new();
        proof {
            assert(it@ + out@.reverse() =~= self@);
        }
        loop
            invariant
                it.wf(),
                it@ + out@.reverse() == self@,
            ensures
                out@ == self@.reverse(),
            decreases it@.len(),
        {
            let ghost before = it@;
            let ghost done = out@;
            match it.next_back() {
                Some(c) => {
                    out.push(c);
                    assert(out@.reverse() =~= seq![c] + done.reverse());
                    assert(it@ + out@.reverse() =~= before + done.reverse());
                },
                None => {
                    assert(it@ + out@.reverse() =~= out@.reverse());
                    assert(out@.reverse().reverse() =~= out@);
                    break ;
                },
            }
        }
        out
    }

    /// The piece that holds document offset `offset`, and how far into that
    /// piece the offset lies. The end of the document lies at the start of
    /// the piece after the last.
    fn locate(&self, offset: usize) -> (place: (usize, usize))
        requires
            self.wf(),
            offset <= self@.len(),
        ensures
            holds_offset(self.pieces@, place.0 as int, place.1 as int, offset as int),
    {
        let mut k: usize = 0;
        let mut rest: usize = offset;
        proof {
            self.lemma_piece_lengths();
            assert(self.pieces@.take(0) =~= Seq::<Piece>::empty());
        }
        while k < self.pieces.len() && rest >= self.pieces[k].length
            invariant
                k <= self.pieces@.len(),
                pieces_len(self.pieces@.take(k as int)) + rest == offset,
            decreases self.pieces@.len() - k,
        {
            proof {
                lemma_pieces_len_step(self.pieces@, k as int);
            }
            rest -= self.pieces[k].length;
            k += 1;
        }
        proof {
            assert(self.pieces@.take(self.pieces@.len() as int) =~= self.pieces@);
        }
        (k, rest)
    }

    /// Puts `chars` into the document so that its first character stands
    /// at offset `offset`. The characters go to the end of the add buffer
    /// and one new piece points at them; the piece that held `offset` is
    /// split around it.
    pub fn insert_chars_at(&mut self, offset: usize, chars: Vec<char>)
        requires
            old(self).wf(),
            offset <= old(self)@.len(),
            old(self)@.len() + chars@.len() <= usize::MAX,
            old(self).added().len() + chars@.len() <= usize::MAX,
        ensures
            final(self).wf(),
            final(self)@ == old(self)@.subrange(0, offset as int) + chars@ + old(self)@.subrange(
                offset as int,
                old(self)@.len() as int,
            ),
            final(self).original() == old(self).original(),
            final(self).added() == old(self).added() + chars@,
            final(self).piece_length_sum() == old(self).piece_length_sum() + chars@.len(),
            final(self)@.len() == old(self)@.len() + chars@.len(),
            exists|k: int, j: int|
                holds_offset(old(self).pieces(), k, j, offset as int) && final(self).pieces()
                    == pieces_with(
                    old(self).pieces(),
                    k,
                    j,
                    Piece {
                        source: Source::Add,
                        start: old(self).added().len() as usize,
                        length: chars@.len() as usize,
                    },
                ),
    {
        let place = self.locate(offset);
        let k = place.0;
        let j = place.1;
        let ghost ps = self.pieces@;
        let ghost orig = self.original_file@;
        let ghost add = self.add_buffer@;
        let ghost text = chars@;
        proof {
            self.lemma_piece_lengths();
            assert(self.original_file.len() == orig.len());
            assert(self.add_buffer.len() == add.len());
            assert(self.pieces.len() == ps.len());
        }
        let inserted = Piece {
            source: Source::Add,
            start: self.add_buffer.len(),
            length: chars.len(),
        };
        let mut repl: Vec<Piece> = Vec::new();
        let until: usize;
        if j == 0 {
            repl.push(inserted);
            until = k;
        } else {
            let piece = self.pieces[k];
            proof {
                assert(piece.in_bounds(orig.len(), add.len()));
            }
            repl.push(Piece { source: piece.source, start: piece.start, length: j });
            repl.push(inserted);
            repl.push(
                Piece { source: piece.source, start: piece.start + j, length: piece.length - j },
            );
            until = k + 1;
        }
        proof {
            assert(repl@ =~= pieces_around(ps, k as int, j as int, inserted));
            lemma_insert_pieces(ps, orig, add, text, k as int, j as int);
        }
        let mut chars = chars;
        self.add_buffer.append(&mut chars);
        self.pieces = splice_pieces(&self.pieces, k, until, &repl);
        proof {
            assert(holds_offset(ps, k as int, j as int, offset as int));
            assert(self.pieces@ == pieces_with(ps, k as int, j as int, inserted));
        }
    }

    /// Puts `ch` at offset `offset`; what stood there and after it moves one
    /// place on.
    pub fn insert_at(&mut self, offset: usize, ch: char)
        requires
            old(self).wf(),
            offset <= old(self)@.len(),
            old(self)@.len() < usize::MAX,
            old(self).added().len() < usize::MAX,
        ensures
            final(self).wf(),
            final(self)@ == old(self)@.insert(offset as int, ch),
            final(self).original() == old(self).original(),
            final(self).added() == old(self).added().push(ch),
            final(self).piece_length_sum() == old(self).piece_length_sum() + 1,
            exists|k: int, j: int|
                holds_offset(old(self).pieces(), k, j, offset as int) && final(self).pieces()
                    == pieces_with(
                    old(self).pieces(),
                    k,
                    j,
                    Piece {
                        source: Source::Add,
                        start: old(self).added().len() as usize,
                        length: 1,
                    },
                ),
    {
        let mut chars: Vec<char> = Vec::new();
        chars.push(ch);
        self.insert_chars_at(offset, chars);
        proof {
            assert(self@ =~= old(self)@.insert(offset as int, ch));
            assert(self.added() =~= old(self).added().push(ch));
        }
    }

    /// Removes the character before offset `offset`. At offset 0 there is
    /// none and the document stays as it is. The piece that held the
    /// character shrinks by one, is split in two, or goes if it held
    /// nothing else; the buffers keep every character.
    pub fn delete_char_before(&mut self, offset: usize)
        requires
            old(self).wf(),
            offset <= old(self)@.len(),
        ensures
            final(self).wf(),
            final(self)@ == if offset == 0 {
                old(self)@
            } else {
                old(self)@.remove(offset - 1)
            },
            final(self).original() == old(self).original(),
            final(self).added() == old(self).added(),
            final(self).piece_length_sum() == if offset == 0 {
                old(self).piece_length_sum()
            } else {
                (old(self).piece_length_sum() - 1) as nat
            },
            offset == 0 ==> final(self).pieces() == old(self).pieces(),
            offset > 0 ==> exists|k: int, j: int|
                holds_offset(old(self).pieces(), k, j, offset - 1) && final(self).pieces()
                    == pieces_without(old(self).pieces(), k, j),
    {
        if offset == 0 {
            return ;
        }
        let place = self.locate(offset - 1);
        let k = place.0;
        let j = place.1;
        let ghost ps = self.pieces@;
        let ghost orig = self.original_file@;
        let ghost add = self.add_buffer@;
        proof {
            self.lemma_piece_lengths();
            assert(ps.take(ps.len() as int) =~= ps);
            assert(k < ps.len());
            assert(self.original_file.len() == orig.len());
            assert(self.add_buffer.len() == add.len());
            assert(self.pieces.len() == ps.len());
        }
        let piece = self.pieces[k];
        proof {
            assert(piece.in_bounds(orig.len(), add.len()));
        }
        let mut repl: Vec<Piece> = Vec::new();
        if j > 0 {
            repl.push(Piece { source: piece.source, start: piece.start, length: j });
        }
        if j + 1 < piece.length {
            repl.push(
                Piece {
                    source: piece.source,
                    start: piece.start + j + 1,
                    length: piece.length - j - 1,
                },
            );
        }
        proof {
            assert(repl@ =~= piece_without(piece, j as int));
            lemma_delete_pieces(ps, orig, add, k as int, j as int);
        }
        self.pieces = splice_pieces(&self.pieces, k, k + 1, &repl);
        proof {
            assert(holds_offset(ps, k as int, j as int, offset - 1));
            assert(self.pieces@ == pieces_without(ps, k as int, j as int));
        }
    }

    /// The offset of column `col` of line `line`, both counted from 1, if
    /// the document has that place.
    pub fn offset_of(&self, line: usize, col: usize) -> (offset: Option<usize>)
        requires
            self.wf(),
        ensures
            offset is Some == position_offset(self@, line as int, col as int) is Some,
            offset is Some ==> offset->Some_0 == position_offset(
                self@,
                line as int,
                col as int,
            )->Some_0,
            offset is Some ==> offset->Some_0 <= self@.len(),
    {
        let text = self.forward();
        find_position(&text, line, col)
    }

    /// Puts `ch` at column `col` of line `line`, both counted from 1; what
    /// stood there and after it moves one place on.
    pub fn insert_char(&mut self, ch: char, line: usize, col: usize)
        requires
            old(self).wf(),
            position_offset(old(self)@, line as int, col as int) is Some,
            old(self)@.len() < usize::MAX,
            old(self).added().len() < usize::MAX,
        ensures
            final(self).wf(),
            final(self)@ == old(self)@.insert(
                position_offset(old(self)@, line as int, col as int)->Some_0,
                ch,
            ),
            final(self).original() == old(self).original(),
            final(self).added() == old(self).added().push(ch),
            final(self).piece_length_sum() == old(self).piece_length_sum() + 1,
            final(self)@.len() == old(self)@.len() + 1,
    {
        match self.offset_of(line, col) {
            Some(offset) => self.insert_at(offset, ch),
            None => {},
        }
    }

    /// Puts a new line with the text `initial_content` before line
    /// `line_num`, counted from 1: the text and a separator go in where that
    /// line began.
    pub fn insert_line(&mut self, line_num: usize, initial_content: &str)
        requires
            old(self).wf(),
            line_num >= 1,
            has_line_start(old(self)@, (line_num - 1) as nat),
            old(self)@.len() + initial_content@.len() < usize::MAX,
            old(self).added().len() + initial_content@.len() < usize::MAX,
        ensures
            final(self).wf(),
            ({
                let start = line_offset(old(self)@, (line_num - 1) as nat);
                final(self)@ == old(self)@.subrange(0, start) + initial_content@.push('\n') + old(
                    self,
                )@.subrange(start, old(self)@.len() as int)
            }),
            final(self).original() == old(self).original(),
            final(self).added() == old(self).added() + initial_content@.push('\n'),
            final(self).piece_length_sum() == old(self).piece_length_sum()
                + initial_content@.len() + 1,
            final(self)@.len() == old(self)@.len() + initial_content@.len() + 1,
    {
        let text = self.forward();
        let mut line = chars_of(initial_content);
        line.push('\n');
        match find_line_offset(&text, line_num - 1) {
            Some(start) => self.insert_chars_at(start, line),
            None => {},
        }
    }

    /// Adds `append_str` to the end of line `line_num`, counted from 1,
    /// before its separator.
    pub fn append_to_line(&mut self, line_num: usize, append_str: &str)
        requires
            old(self).wf(),
            line_num >= 1,
            has_line_start(old(self)@, (line_num - 1) as nat),
            old(self)@.len() + append_str@.len() <= usize::MAX,
            old(self).added().len() + append_str@.len() <= usize::MAX,
        ensures
            final(self).wf(),
            ({
                let end = line_end(old(self)@, line_offset(old(self)@, (line_num - 1) as nat));
                final(self)@ == old(self)@.subrange(0, end) + append_str@ + old(self)@.subrange(
                    end,
                    old(self)@.len() as int,
                )
            }),
            final(self).original() == old(self).original(),
            final(self).added() == old(self).added() + append_str@,
            final(self).piece_length_sum() == old(self).piece_length_sum() + append_str@.len(),
            final(self)@.len() == old(self)@.len() + append_str@.len(),
    {
        let text = self.forward();
        match find_line_offset(&text, line_num - 1) {
            Some(start) => {
                let end = find_line_end(&text, start);
                proof {
                    lemma_line_end(text@, start as int);
                }
                self.insert_chars_at(end, chars_of(append_str));
            },
            None => {},
        }
    }

    /// Takes line `line_number`, counted from 1, out of the document with
    /// its separator, and hands back its text.
    pub fn delete_line(&mut self, line_number: usize) -> (deleted_line: String)
        requires
            old(self).wf(),
            line_number >= 1,
            has_line_start(old(self)@, (line_number - 1) as nat),
            line_offset(old(self)@, (line_number - 1) as nat) < old(self)@.len(),
        ensures
            final(self).wf(),
            ({
                let start = line_offset(old(self)@, (line_number - 1) as nat);
                let end = line_end(old(self)@, start);
                let stop = if end < old(self)@.len() {
                    end + 1
                } else {
                    end
                };
                &&& deleted_line@ == old(self)@.subrange(start, end)
                &&& final(self)@ == old(self)@.subrange(0, start) + old(self)@.subrange(
                    stop,
                    old(self)@.len() as int,
                )
                &&& final(self).piece_length_sum() == old(self).piece_length_sum() - (stop
                    - start)
            }),
            final(self).original() == old(self).original(),
            final(self).added() == old(self).added(),
    {
        let text = self.forward();
        let start = match find_line_offset(&text, line_number - 1) {
            Some(start) => start,
            None => 0,
        };
        let end = find_line_end(&text, start);
        proof {
            lemma_line_end(text@, start as int);
        }
        let stop = if end < text.len() {
            end + 1
        } else {
            end
        };
        let deleted_line = string_of_range(&text, start, end);
        let mut at = stop;
        proof {
            self.lemma_piece_lengths();
            assert(self@ =~= text@.subrange(0, at as int) + text@.subrange(
                stop as int,
                text@.len() as int,
            ));
        }
        while at > start
            invariant
                start <= at <= stop <= text@.len(),
                self.wf(),
                self@ == text@.subrange(0, at as int) + text@.subrange(
                    stop as int,
                    text@.len() as int,
                ),
                self.piece_length_sum() == text@.len() - (stop - at),
                self.original() == old(self).original(),
                self.added() == old(self).added(),
            decreases at,
        {
            let ghost before = self@;
            self.delete_char_before(at);
            at -= 1;
            proof {
                assert(self@ =~= text@.subrange(0, at as int) + text@.subrange(
                    stop as int,
                    text@.len() as int,
                ));
            }
        }
        deleted_line
    }
}

/// A double-ended cursor over the characters of a piece table. Characters
/// can be taken from the front and from the back until the two ends meet.
#[derive(Debug)]
pub struct PieceTableIterator<'a> {
    char_offset: usize,
    back_offset: usize,
    piece_index: usize,
    back_piece_index: usize,
    remaining: usize,
    piece_table: &'a PieceTable,
}

impl<'a> View for PieceTableIterator<'a> {
    type V = Seq<char>;

    /// The characters not yet handed out, in document order.
    closed spec fn view(&self) -> Seq<char> {
        self.piece_table@.subrange(self.front_pos(), self.back_pos())
    }
}

impl<'a> PieceTableIterator<'a> {
    /// The document position of the next character from the front.
    closed spec fn front_pos(&self) -> int {
        pieces_len(self.piece_table.pieces@.take(self.piece_index as int)) + self.char_offset
    }

    /// The document position just after the next character from the back.
    closed spec fn back_pos(&self) -> int {
        let ps = self.piece_table.pieces@;
        pieces_len(ps.take(ps.len() - self.back_piece_index)) - self.back_offset
    }

    /// Both ends point into the table, and the count of characters between
    /// them is the one the cursor carries.
    pub closed spec fn wf(&self) -> bool {
        let ps = self.piece_table.pieces@;
        &&& self.piece_table.wf()
        &&& self.piece_index <= ps.len()
        &&& self.back_piece_index <= ps.len()
        &&& if self.piece_index < ps.len() {
            self.char_offset <= ps[self.piece_index as int].length
        } else {
            self.char_offset == 0
        }
        &&& if self.back_piece_index < ps.len() {
            self.back_offset <= ps[ps.len() - 1 - self.back_piece_index].length
        } else {
            self.back_offset == 0
        }
        &&& 0 <= self.front_pos()
        &&& self.front_pos() + self.remaining == self.back_pos()
        &&& self.back_pos() <= self.piece_table@.len()
    }

    /// What a well-formed cursor still holds is as long as its count.
    proof fn lemma_view_len(&self)
        requires
            self.wf(),
        ensures
            self@.len() == self.remaining,
    {
    }

    /// The two ends have met: nothing is left to hand out.
    pub fn iterators_crossed(&self) -> (crossed: bool)
        requires
            self.wf(),
        ensures
            crossed == (self@.len() == 0),
    {
        proof {
            self.lemma_view_len();
        }
        self.remaining == 0
    }

    /// The number of characters left.
    pub fn len(&self) -> (n: usize)
        requires
            self.wf(),
        ensures
            n == self@.len(),
    {
        proof {
            self.lemma_view_len();
        }
        self.remaining
    }

    /// The number of characters left; uses the cursor up.
    pub fn count(self) -> (n: usize)
        requires
            self.wf(),
        ensures
            n == self@.len(),
    {
        self.len()
    }

    /// Takes the first character that is left, if any.
    pub fn next(&mut self) -> (item: Option<char>)
        requires
            old(self).wf(),
        ensures
            final(self).wf(),
            old(self)@.len() == 0 ==> item.is_none() && final(self)@ == old(self)@,
            old(self)@.len() > 0 ==> item == Some(old(self)@[0]) && final(self)@ == old(
                self,
            )@.drop_first(),
    {
        proof {
            self.lemma_view_len();
        }
        if self.remaining == 0 {
            return None;
        }
        let table = self.piece_table;
        let num_pieces = table.pieces.len();
        let ghost ps = table.pieces@;
        let ghost front = self.front_pos();
        let ghost back = self.back_pos();
        proof {
            table.lemma_piece_lengths();
            assert(ps.take(ps.len() as int) =~= ps);
            if ps.len() > self.back_piece_index {
                lemma_pieces_len_step(ps, ps.len() - 1 - self.back_piece_index);
            }
        }
        while self.char_offset == table.pieces[self.piece_index].length
            invariant
                self.wf(),
                self.piece_table == table,
                ps == table.pieces@,
                self.remaining > 0,
                self.front_pos() == front,
                self.back_pos() == back,
                self.piece_index < ps.len(),
                num_pieces == ps.len(),
                pieces_len(ps.take(ps.len() as int)) == table@.len(),
            decreases ps.len() - self.piece_index,
        {
            proof {
                lemma_pieces_len_step(ps, self.piece_index as int);
            }
            self.piece_index += 1;
            self.char_offset = 0;
        }
        let piece = table.pieces[self.piece_index];
        proof {
            lemma_piece_char(
                ps,
                table.original_file@,
                table.add_buffer@,
                self.piece_index as int,
                self.char_offset as int,
            );
            assert(piece.in_bounds(table.original_file@.len(), table.add_buffer@.len()));
            assert(table.original_file.len() == table.original_file@.len());
            assert(table.add_buffer.len() == table.add_buffer@.len());
        }
        let index_in_buffer = piece.start + self.char_offset;
        let ch = match piece.source {
            Source::Orig => table.original_file[index_in_buffer],
            Source::Add => table.add_buffer[index_in_buffer],
        };
        let ghost before = self@;
        self.char_offset += 1;
        self.remaining -= 1;
        proof {
            assert(self@ =~= before.drop_first());
        }
        Some(ch)
    }

    /// Takes the last character that is left, if any.
    pub fn next_back(&mut self) -> (item: Option<char>)
        requires
            old(self).wf(),
        ensures
            final(self).wf(),
            old(self)@.len() == 0 ==> item.is_none() && final(self)@ == old(self)@,
            old(self)@.len() > 0 ==> item == Some(old(self)@.last()) && final(self)@ == old(
                self,
            )@.drop_last(),
    {
        proof {
            self.lemma_view_len();
        }
        if self.remaining == 0 {
            return None;
        }
        let table = self.piece_table;
        let num_pieces = table.pieces.len();
        let ghost ps = table.pieces@;
        let ghost front = self.front_pos();
        let ghost back = self.back_pos();
        proof {
            table.lemma_piece_lengths();
            assert(ps.take(0) =~= Seq::<Piece>::empty());
        }
        while self.back_offset == table.pieces[num_pieces - self.back_piece_index - 1].length
            invariant
                self.wf(),
                self.piece_table == table,
                ps == table.pieces@,
                num_pieces == ps.len(),
                self.remaining > 0,
                self.front_pos() == front,
                self.back_pos() == back,
                self.back_piece_index < ps.len(),
                pieces_len(ps.take(0)) == 0,
            decreases ps.len() - self.back_piece_index,
        {
            proof {
                lemma_pieces_len_step(ps, ps.len() - 1 - self.back_piece_index);
            }
            self.back_piece_index += 1;
            self.back_offset = 0;
        }
        let piece_at = num_pieces - self.back_piece_index - 1;
        let piece = table.pieces[piece_at];
        proof {
            lemma_pieces_len_step(ps, piece_at as int);
            lemma_piece_char(
                ps,
                table.original_file@,
                table.add_buffer@,
                piece_at as int,
                piece.length - self.back_offset - 1,
            );
            assert(piece.in_bounds(table.original_file@.len(), table.add_buffer@.len()));
            assert(table.original_file.len() == table.original_file@.len());
            assert(table.add_buffer.len() == table.add_buffer@.len());
        }
        let index_in_buffer = piece.start + (piece.length - self.back_offset - 1);
        let ch = match piece.source {
            Source::Orig => table.original_file[index_in_buffer],
            Source::Add => table.add_buffer[index_in_buffer],
        };
        let ghost before = self@;
        self.back_offset += 1;
        self.remaining -= 1;
        proof {
            assert(self@ =~= before.drop_last());
        }
        Some(ch)
    }
}

/// What comes out when characters are taken from the front of `s` until
/// none is left: each step hands out the first character and goes on with
/// the rest.
pub open spec fn taken_from_front(s: Seq<char>) -> Seq<char>
    decreases s.len(),
{
    if s.len() == 0 {
        Seq::empty()
    } else {
        seq![s.first()] + taken_from_front(s.drop_first())
    }
}

/// What comes out when characters are taken from the back of `s` until
/// none is left: each step hands out the last character and goes on with
/// the rest.
pub open spec fn taken_from_back(s: Seq<char>) -> Seq<char>
    decreases s.len(),
{
    if s.len() == 0 {
        Seq::empty()
    } else {
        seq![s.last()] + taken_from_back(s.drop_last())
    }
}

/// Iteration symmetry: taking everything from the front gives the text,
/// taking everything from the back gives the text reversed, and so each is
/// the reverse of the other.
pub proof fn lemma_iteration_symmetry(s: Seq<char>)
    ensures
        taken_from_front(s) == s,
        taken_from_back(s) == s.reverse(),
        taken_from_front(s) == taken_from_back(s).reverse(),
    decreases s.len(),
{
    if s.len() > 0 {
        lemma_iteration_symmetry(s.drop_first());
        lemma_iteration_symmetry(s.drop_last());
        assert(seq![s.first()] + s.drop_first() =~= s);
        assert(seq![s.last()] + s.drop_last().reverse() =~= s.reverse());
    }
    assert(s.reverse().reverse() =~= s);
}

} // verus!
