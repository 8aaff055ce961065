use quill_core::cursor::TextIndex;
use quill_core::CursorState;

#[test]
fn test_cursor_movement() {
    let mut cursor = CursorState::new();
    cursor.set_content("Hello\nWorld\nTest");

    assert_eq!(cursor.cursor(), (0, 0));

    cursor.move_down();
    assert_eq!(cursor.cursor(), (1, 0));

    cursor.move_right();
    cursor.move_right();
    assert_eq!(cursor.cursor(), (1, 2));

    cursor.move_up();
    assert_eq!(cursor.cursor(), (0, 2));
}

#[test]
fn test_offset_conversion() {
    let mut cursor = CursorState::new();
    cursor.set_content("Hello\nWorld");

    // "Hello\n" = 6 chars, "World" at offset 6
    assert_eq!(cursor.cursor_to_offset(0, 0), 0);
    assert_eq!(cursor.cursor_to_offset(0, 5), 5);
    assert_eq!(cursor.cursor_to_offset(1, 0), 6);
    assert_eq!(cursor.cursor_to_offset(1, 5), 11);

    assert_eq!(cursor.offset_to_cursor(0), (0, 0));
    assert_eq!(cursor.offset_to_cursor(6), (1, 0));
    assert_eq!(cursor.offset_to_cursor(8), (1, 2));
}

#[test]
fn new_cursor_is_over_the_empty_text() {
    let cursor = CursorState::new();
    assert_eq!(cursor.cursor(), (0, 0));
    assert_eq!(cursor.line_count(), 0);
    assert_eq!(cursor.current_line(), None);
    assert_eq!(cursor.line(0), None);
    assert_eq!(cursor.cursor_to_offset(0, 0), 0);
    assert_eq!(cursor.cursor_to_offset(3, 2), 0);
    assert_eq!(cursor.offset_to_cursor(0), (0, 0));
    let other = CursorState::default();
    assert_eq!(other.cursor(), (0, 0));
    assert_eq!(other.line_count(), 0);
}

#[test]
fn motions_on_the_empty_text_stay_put() {
    let mut cursor = CursorState::new();
    cursor.move_up();
    cursor.move_down();
    cursor.move_left();
    cursor.move_right();
    cursor.move_to_end();
    cursor.move_to_bottom();
    cursor.move_word_forward();
    cursor.move_word_back();
    assert_eq!(cursor.cursor(), (0, 0));
}

#[test]
fn row_past_the_last_line_gives_the_end_of_the_text() {
    let mut cursor = CursorState::new();
    cursor.set_content("Hello\nWorld");
    assert_eq!(cursor.cursor_to_offset(2, 0), 11);
    assert_eq!(cursor.cursor_to_offset(99, 7), 11);

    cursor.set_content("ab\n");
    assert_eq!(cursor.line_count(), 1);
    // The row behind the final newline has a line start of its own.
    assert_eq!(cursor.cursor_to_offset(1, 0), 3);
    assert_eq!(cursor.cursor_to_offset(2, 0), 3);
    assert_eq!(cursor.offset_to_cursor(3), (1, 0));
}

#[test]
fn lines_are_split_at_newlines() {
    let mut cursor = CursorState::new();
    cursor.set_content("one\ntwo\n\nfour");
    assert_eq!(cursor.line_count(), 4);
    assert_eq!(cursor.line(0), Some("one"));
    assert_eq!(cursor.line(1), Some("two"));
    assert_eq!(cursor.line(2), Some(""));
    assert_eq!(cursor.line(3), Some("four"));
    assert_eq!(cursor.line(4), None);
    assert_eq!(cursor.current_line(), Some("one"));
}

#[test]
fn a_final_newline_adds_no_line() {
    let mut cursor = CursorState::new();
    cursor.set_content("one\ntwo\n");
    assert_eq!(cursor.line_count(), 2);
    cursor.set_content("\n");
    assert_eq!(cursor.line_count(), 1);
    assert_eq!(cursor.line(0), Some(""));
    cursor.set_content("");
    assert_eq!(cursor.line_count(), 0);
}

#[test]
fn carriage_returns_before_newlines_are_not_shown() {
    let mut cursor = CursorState::new();
    cursor.set_content("ab\r\ncd\r");
    assert_eq!(cursor.line_count(), 2);
    assert_eq!(cursor.line(0), Some("ab"));
    // Without a newline behind it the carriage return stays.
    assert_eq!(cursor.line(1), Some("cd\r"));
    // The offsets still count every character of the text.
    assert_eq!(cursor.cursor_to_offset(1, 0), 4);
    assert_eq!(cursor.offset_to_cursor(4), (1, 0));
}

#[test]
fn lines_agree_with_the_standard_library() {
    let texts = [
        "",
        "\n",
        "a",
        "a\n",
        "a\nb",
        "a\r\nb\r\n",
        "\r\n\r\n",
        "a\rb\n",
        "tab\there\n\n\nend",
        "héllo\nwörld\n",
        "\r",
        "x\r\r\n",
    ];
    for text in texts {
        let index = TextIndex::from_content(text);
        let expected: Vec<&str> = text.lines().collect();
        assert_eq!(index.line_count(), expected.len());
        for (i, line) in expected.iter().enumerate() {
            assert_eq!(index.line(i), Some(*line));
        }
    }
}

#[test]
fn offsets_count_characters_not_bytes() {
    let mut cursor = CursorState::new();
    cursor.set_content("héllo\nwörld");
    assert_eq!(cursor.cursor_to_offset(1, 0), 6);
    assert_eq!(cursor.cursor_to_offset(1, 5), 11);
    assert_eq!(cursor.offset_to_cursor(6), (1, 0));
    assert_eq!(cursor.offset_to_cursor(8), (1, 2));
    cursor.move_to_end();
    assert_eq!(cursor.cursor(), (0, 5));
}

#[test]
fn positions_on_the_text_round_trip() {
    let text = "Hello\nWorld\n\nlast line\r\nend";
    let mut cursor = CursorState::new();
    cursor.set_content(text);
    for row in 0..cursor.line_count() {
        let len = cursor.line(row).unwrap().chars().count();
        for col in 0..=len {
            let offset = cursor.cursor_to_offset(row, col);
            assert!(offset <= text.chars().count());
            assert_eq!(cursor.offset_to_cursor(offset), (row, col));
        }
    }
}

#[test]
fn offsets_round_trip() {
    let text = "Hello\nWorld\n\nlast";
    let mut cursor = CursorState::new();
    cursor.set_content(text);
    for offset in 0..40 {
        let (row, col) = cursor.offset_to_cursor(offset);
        assert_eq!(cursor.cursor_to_offset(row, col), offset);
    }
}

#[test]
fn set_cursor_offset_moves_the_cursor() {
    let mut cursor = CursorState::new();
    cursor.set_content("Hello\nWorld");
    cursor.set_cursor_offset(8);
    assert_eq!(cursor.cursor(), (1, 2));
    cursor.set_cursor_offset(0);
    assert_eq!(cursor.cursor(), (0, 0));
    cursor.set_cursor_offset(5);
    assert_eq!(cursor.cursor(), (0, 5));
}

#[test]
fn set_content_resets_the_cursor() {
    let mut cursor = CursorState::new();
    cursor.set_content("Hello\nWorld");
    cursor.move_down();
    cursor.move_right();
    cursor.set_content("other");
    assert_eq!(cursor.cursor(), (0, 0));
    assert_eq!(cursor.line_count(), 1);
}

#[test]
fn vertical_motion_clamps_the_column() {
    let mut cursor = CursorState::new();
    cursor.set_content("long line\nab\nlonger line");
    cursor.move_to_end();
    assert_eq!(cursor.cursor(), (0, 9));
    cursor.move_down();
    assert_eq!(cursor.cursor(), (1, 2));
    cursor.move_down();
    assert_eq!(cursor.cursor(), (2, 2));
    cursor.move_down();
    assert_eq!(cursor.cursor(), (2, 2));
    cursor.move_to_end();
    cursor.move_up();
    assert_eq!(cursor.cursor(), (1, 2));
    cursor.move_up();
    cursor.move_up();
    assert_eq!(cursor.cursor(), (0, 2));
}

#[test]
fn horizontal_motion_wraps_between_lines() {
    let mut cursor = CursorState::new();
    cursor.set_content("ab\ncd");
    cursor.move_left();
    assert_eq!(cursor.cursor(), (0, 0));
    cursor.move_right();
    cursor.move_right();
    assert_eq!(cursor.cursor(), (0, 2));
    cursor.move_right();
    assert_eq!(cursor.cursor(), (1, 0));
    cursor.move_left();
    assert_eq!(cursor.cursor(), (0, 2));
    cursor.move_down();
    cursor.move_to_end();
    cursor.move_right();
    assert_eq!(cursor.cursor(), (1, 2));
}

#[test]
fn jumps_go_to_line_and_text_ends() {
    let mut cursor = CursorState::new();
    cursor.set_content("one\ntwo\nthree");
    cursor.move_to_bottom();
    assert_eq!(cursor.cursor(), (2, 0));
    cursor.move_to_end();
    assert_eq!(cursor.cursor(), (2, 5));
    cursor.move_to_start();
    assert_eq!(cursor.cursor(), (2, 0));
    cursor.move_to_end();
    cursor.move_to_top();
    assert_eq!(cursor.cursor(), (0, 0));
}

#[test]
fn word_forward_goes_to_the_next_word() {
    let mut cursor = CursorState::new();
    cursor.set_content("foo bar");
    cursor.move_word_forward();
    assert_eq!(cursor.cursor(), (0, 4));
    // No further content: the cursor stays at the end of the line.
    cursor.move_word_forward();
    assert_eq!(cursor.cursor(), (0, 7));
    cursor.move_word_forward();
    assert_eq!(cursor.cursor(), (0, 7));
}

#[test]
fn word_forward_goes_on_to_the_next_line() {
    let mut cursor = CursorState::new();
    cursor.set_content("foo bar\nbaz");
    cursor.move_word_forward();
    assert_eq!(cursor.cursor(), (0, 4));
    cursor.move_word_forward();
    assert_eq!(cursor.cursor(), (1, 0));
    cursor.move_word_forward();
    assert_eq!(cursor.cursor(), (1, 3));
}

#[test]
fn word_forward_skips_runs_of_whitespace() {
    let mut cursor = CursorState::new();
    cursor.set_content("a \t  b.c  \nd");
    cursor.move_word_forward();
    assert_eq!(cursor.cursor(), (0, 5));
    // Punctuation does not separate words; trailing blanks lead on to the
    // next line.
    cursor.move_word_forward();
    assert_eq!(cursor.cursor(), (1, 0));
}

#[test]
fn word_back_goes_to_the_start_of_the_word() {
    let mut cursor = CursorState::new();
    cursor.set_content("foo bar  baz");
    cursor.move_to_end();
    cursor.move_word_back();
    assert_eq!(cursor.cursor(), (0, 9));
    cursor.move_word_back();
    assert_eq!(cursor.cursor(), (0, 4));
    cursor.move_left();
    cursor.move_word_back();
    assert_eq!(cursor.cursor(), (0, 0));
    cursor.move_word_back();
    assert_eq!(cursor.cursor(), (0, 0));
}

#[test]
fn word_back_from_column_zero_goes_to_the_line_before() {
    let mut cursor = CursorState::new();
    cursor.set_content("foo bar\nbaz");
    cursor.move_down();
    cursor.move_word_back();
    assert_eq!(cursor.cursor(), (0, 7));
}

#[test]
fn word_motion_knows_unicode_whitespace() {
    let mut cursor = CursorState::new();
    // U+00A0 and U+3000 are whitespace, U+200B is not.
    cursor.set_content("a\u{a0}b\u{3000}c\u{200b}d e");
    cursor.move_word_forward();
    assert_eq!(cursor.cursor(), (0, 2));
    cursor.move_word_forward();
    assert_eq!(cursor.cursor(), (0, 4));
    cursor.move_word_forward();
    assert_eq!(cursor.cursor(), (0, 8));
}

#[test]
fn ascii_whitespace_is_blank_and_tab_to_carriage_return() {
    for c in 0u8..=0x7f {
        let c = c as char;
        let mut cursor = CursorState::new();
        cursor.set_content(&format!("a{}b", if c == '\n' { ' ' } else { c }));
        cursor.move_word_forward();
        let separates = c == ' ' || ('\u{9}'..='\u{d}').contains(&c);
        assert_eq!(cursor.cursor(), if separates { (0, 2) } else { (0, 3) });
    }
}

#[test]
fn stale_cursor_positions_are_tolerated() {
    let mut cursor = CursorState::new();
    cursor.set_content("ab\ncd");
    cursor.row = 7;
    cursor.col = 9;
    assert_eq!(cursor.current_line(), None);
    cursor.move_word_forward();
    assert_eq!(cursor.cursor(), (7, 9));
    cursor.move_down();
    assert_eq!(cursor.cursor(), (7, 9));
    cursor.move_up();
    assert_eq!(cursor.cursor(), (6, 9));
    cursor.move_to_bottom();
    assert_eq!(cursor.cursor(), (1, 0));
}

#[test]
fn index_says_which_positions_have_offsets() {
    let index = TextIndex::from_content("ab\ncd");
    assert!(index.addresses(0, 0));
    assert!(index.addresses(1, 700));
    assert!(!index.addresses(2, 0));
    assert!(!index.addresses(1, usize::MAX));
    assert_eq!(index.line_len(0), 2);
    assert_eq!(index.line_len(5), 0);
    assert_eq!(index.offset_of(1, 1), 4);
    assert_eq!(index.cursor_of(4), (1, 1));
    let copy = index.clone();
    assert_eq!(copy.line_count(), 2);
    assert_eq!(copy.line(1), Some("cd"));
    assert_eq!(copy.offset_of(1, 0), 3);
}
