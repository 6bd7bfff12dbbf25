use bullet::data::text::{
    char_is_whitespace, count_newlines_before, find_line_end, find_line_start, split_lines,
};

#[test]
fn white_space_is_what_std_calls_white_space() {
    for code in 0..=0x10ffffu32 {
        if let Some(c) = char::from_u32(code) {
            assert_eq!(char_is_whitespace(c), c.is_whitespace(), "U+{:04X}", code);
        }
    }
}

#[test]
fn lines_are_split_as_std_splits_them() {
    for text in ["", "\n", "a", "a\n", "a\nb", "a\n\nb\n", "\n\n", "héllo\nwörld\n"] {
        let chars: Vec<char> = text.chars().collect();
        let expected: Vec<String> = text.lines().map(String::from).collect();
        assert_eq!(split_lines(&chars), expected, "{:?}", text);
    }
}

#[test]
fn line_bounds_are_found_around_an_offset() {
    let text: Vec<char> = "ab\ncde\nf".chars().collect();
    assert_eq!(find_line_start(&text, 0), 0);
    assert_eq!(find_line_start(&text, 2), 0);
    assert_eq!(find_line_start(&text, 3), 3);
    assert_eq!(find_line_start(&text, 6), 3);
    assert_eq!(find_line_end(&text, 0), 2);
    assert_eq!(find_line_end(&text, 3), 6);
    assert_eq!(find_line_end(&text, 7), 8);
    assert_eq!(count_newlines_before(&text, 2), 0);
    assert_eq!(count_newlines_before(&text, 3), 1);
    assert_eq!(count_newlines_before(&text, 8), 2);
}
