use bullet::data::piece_table::{Piece, PieceTable, Source};

fn text_of(table: &PieceTable) -> String {
    table.forward().into_iter().collect()
}

fn piece_lengths(table: &PieceTable) -> usize {
    table.get_pieces().iter().map(|piece: &Piece| piece.length).sum()
}

#[test]
fn forward_yields_the_loaded_text() {
    let table = PieceTable::new("héllo\nworld");
    let expected: Vec<char> = "héllo\nworld".chars().collect();
    assert_eq!(table.forward(), expected);
}

#[test]
fn backward_yields_the_loaded_text_reversed() {
    let table = PieceTable::new("héllo\nworld");
    let expected: Vec<char> = "héllo\nworld".chars().rev().collect();
    assert_eq!(table.backward(), expected);
}

#[test]
fn backward_is_forward_reversed_after_edits() {
    let mut table = PieceTable::new("one\ntwo\n");
    table.insert_at(3, '!');
    table.insert_at(0, '>');
    table.delete_char_before(6);
    let mut reversed = table.backward();
    reversed.reverse();
    assert_eq!(reversed, table.forward());
    assert_eq!(text_of(&table), ">one!two\n");
}

#[test]
fn loading_makes_one_piece_of_the_whole_text() {
    let table = PieceTable::new("héllo");
    let pieces = table.get_pieces();
    assert_eq!(pieces.len(), 1);
    assert_eq!(pieces[0].source, Source::Orig);
    assert_eq!(pieces[0].start, 0);
    assert_eq!(pieces[0].length, 5);
    assert_eq!(table.char_count(), 5);
}

#[test]
fn an_empty_text_has_no_characters_and_no_lines() {
    let table = PieceTable::new("");
    assert_eq!(table.char_count(), 0);
    assert!(table.forward().is_empty());
    assert!(table.backward().is_empty());
    assert!(table.as_lines().is_empty());
    let mut it = table.iter();
    assert!(it.iterators_crossed());
    assert_eq!(it.next(), None);
    assert_eq!(it.next_back(), None);
}

#[test]
fn cursor_hands_out_from_both_ends_until_they_meet() {
    let mut table = PieceTable::new("abcd");
    table.insert_at(2, 'X');
    let mut it = table.iter();
    assert_eq!(it.len(), 5);
    assert_eq!(it.next(), Some('a'));
    assert_eq!(it.next_back(), Some('d'));
    assert_eq!(it.next_back(), Some('c'));
    assert_eq!(it.next(), Some('b'));
    assert!(!it.iterators_crossed());
    assert_eq!(it.len(), 1);
    assert_eq!(it.next_back(), Some('X'));
    assert!(it.iterators_crossed());
    assert_eq!(it.next(), None);
    assert_eq!(it.next_back(), None);
    assert_eq!(it.count(), 0);
}

#[test]
fn a_fresh_cursor_starts_over() {
    let table = PieceTable::new("ab");
    let mut first = table.iter();
    assert_eq!(first.next(), Some('a'));
    let mut second = table.iter();
    assert_eq!(second.next(), Some('a'));
    assert_eq!(second.count(), 1);
}

#[test]
fn insert_splits_the_piece_and_appends_to_the_add_buffer() {
    let mut table = PieceTable::new("hello");
    table.insert_at(2, 'X');
    assert_eq!(text_of(&table), "heXllo");
    let pieces = table.get_pieces();
    assert_eq!(pieces.len(), 3);
    assert_eq!((pieces[0].source, pieces[0].start, pieces[0].length), (Source::Orig, 0, 2));
    assert_eq!((pieces[1].source, pieces[1].start, pieces[1].length), (Source::Add, 0, 1));
    assert_eq!((pieces[2].source, pieces[2].start, pieces[2].length), (Source::Orig, 2, 3));
    assert_eq!(table.added_count(), 1);
}

#[test]
fn insert_at_both_ends() {
    let mut table = PieceTable::new("mid");
    table.insert_at(0, '<');
    table.insert_at(4, '>');
    assert_eq!(text_of(&table), "<mid>");
    assert_eq!(table.get_pieces().len(), 3);
}

#[test]
fn delete_shrinks_splits_or_removes_a_piece() {
    let mut table = PieceTable::new("abcdef");
    table.delete_char_before(1);
    assert_eq!(text_of(&table), "bcdef");
    assert_eq!(table.get_pieces().len(), 1);
    table.delete_char_before(5);
    assert_eq!(text_of(&table), "bcde");
    assert_eq!(table.get_pieces().len(), 1);
    table.delete_char_before(2);
    assert_eq!(text_of(&table), "bde");
    assert_eq!(table.get_pieces().len(), 2);
    table.delete_char_before(1);
    assert_eq!(text_of(&table), "de");
    assert_eq!(table.get_pieces().len(), 1);
    table.delete_char_before(0);
    assert_eq!(text_of(&table), "de");
    table.delete_char_before(2);
    table.delete_char_before(1);
    assert_eq!(text_of(&table), "");
    assert!(table.get_pieces().is_empty());
    assert_eq!(table.added_count(), 0);
}

#[test]
fn piece_lengths_add_up_to_the_character_count_after_every_edit() {
    let mut table = PieceTable::new("first\nsecond\n");
    assert_eq!(piece_lengths(&table), table.char_count());
    table.insert_char('X', 2, 3);
    assert_eq!(piece_lengths(&table), table.char_count());
    table.delete_char_before(4);
    assert_eq!(piece_lengths(&table), table.char_count());
    table.insert_line(1, "zeroth");
    assert_eq!(piece_lengths(&table), table.char_count());
    table.append_to_line(3, "!");
    assert_eq!(piece_lengths(&table), table.char_count());
    table.delete_line(2);
    assert_eq!(piece_lengths(&table), table.char_count());
    assert_eq!(table.char_count(), text_of(&table).chars().count());
    assert_eq!(text_of(&table), "zeroth\nseXcond!\n");
}

#[test]
fn insert_char_addresses_by_line_and_column() {
    let mut table = PieceTable::new("ab\ncd\n");
    assert_eq!(table.offset_of(1, 1), Some(0));
    assert_eq!(table.offset_of(1, 3), Some(2));
    assert_eq!(table.offset_of(1, 4), None);
    assert_eq!(table.offset_of(2, 1), Some(3));
    assert_eq!(table.offset_of(3, 1), Some(6));
    assert_eq!(table.offset_of(3, 2), None);
    assert_eq!(table.offset_of(4, 1), None);
    assert_eq!(table.offset_of(0, 1), None);
    assert_eq!(table.offset_of(1, 0), None);
    table.insert_char('X', 2, 2);
    assert_eq!(table.as_lines(), vec!["ab", "cXd"]);
    table.insert_char('Y', 3, 1);
    assert_eq!(table.text(), "ab\ncXd\nY");
    assert_eq!(table.as_lines(), vec!["ab", "cXd", "Y"]);
}

#[test]
fn insert_x_at_one_one_of_a_one_line_empty_document() {
    let mut table = PieceTable::new("\n");
    assert_eq!(table.as_lines(), vec![""]);
    table.insert_char('X', 1, 1);
    assert_eq!(table.as_lines(), vec!["X"]);
}

#[test]
fn line_edits_insert_append_and_delete_whole_lines() {
    let mut table = PieceTable::new("one\nthree\n");
    table.insert_line(2, "two");
    assert_eq!(table.as_lines(), vec!["one", "two", "three"]);
    table.insert_line(4, "four");
    assert_eq!(table.as_lines(), vec!["one", "two", "three", "four"]);
    table.append_to_line(1, " and a half");
    assert_eq!(table.as_lines(), vec!["one and a half", "two", "three", "four"]);
    assert_eq!(table.delete_line(3), "three");
    assert_eq!(table.as_lines(), vec!["one and a half", "two", "four"]);
    assert_eq!(table.delete_line(1), "one and a half");
    assert_eq!(table.text(), "two\nfour\n");
}

#[test]
fn deleting_a_last_line_without_separator_takes_what_is_there() {
    let mut table = PieceTable::new("a\nbc");
    assert_eq!(table.delete_line(2), "bc");
    assert_eq!(table.text(), "a\n");
}

#[test]
fn lines_are_those_of_the_current_document() {
    let mut table = PieceTable::new("a\nb");
    assert_eq!(table.as_lines(), vec!["a", "b"]);
    table.insert_at(3, '\n');
    table.insert_at(4, '\n');
    assert_eq!(table.as_lines(), vec!["a", "b", ""]);
}

#[test]
fn buffers_keep_what_was_loaded_and_what_was_typed() {
    let mut table = PieceTable::new("héllo\n");
    assert_eq!(table.original_file(), "héllo\n");
    assert_eq!(table.add_buffer(), "");
    table.insert_at(1, 'X');
    table.delete_char_before(2);
    table.insert_line(1, "top");
    table.append_to_line(2, "!?");
    table.insert_char('é', 1, 1);
    table.delete_line(1);
    assert_eq!(table.original_file(), "héllo\n");
    assert_eq!(table.add_buffer(), "Xtop\n!?é");
    assert_eq!(table.added_count(), 8);
    assert_eq!(text_of(&table), "héllo!?\n");
}
