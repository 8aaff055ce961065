use quill_core::actions::annotation_offset_by_index;
use quill_core::model::document::Document;
use quill_core::text::{char_slice, chars_of, count_words, push_decimal};
use quill_core::{Annotation, TextRange};

#[test]
fn chars_of_lists_the_characters() {
    assert_eq!(chars_of(""), Vec::<char>::new());
    assert_eq!(chars_of("añ\n"), vec!['a', 'ñ', '\n']);
}

#[test]
fn char_slice_cuts_by_characters() {
    assert_eq!(char_slice("héllo wörld", 0, 5), "héllo");
    assert_eq!(char_slice("héllo wörld", 6, 11), "wörld");
    assert_eq!(char_slice("héllo", 2, 2), "");
    assert_eq!(char_slice("", 0, 0), "");
}

#[test]
fn char_slice_clamps_both_ends() {
    assert_eq!(char_slice("abc", 1, 99), "bc");
    assert_eq!(char_slice("abc", 7, 99), "");
    assert_eq!(char_slice("abc", 2, 1), "");
    assert_eq!(char_slice("abc", usize::MAX, usize::MAX), "");
}

#[test]
fn push_decimal_appends_the_numeral() {
    let cases: [(usize, &str); 7] = [
        (0, "0"),
        (7, "7"),
        (10, "10"),
        (99, "99"),
        (100, "100"),
        (1234567890, "1234567890"),
        (18446744073709551615, "18446744073709551615"),
    ];
    for (n, expected) in cases {
        let mut out = String::from("n=");
        push_decimal(&mut out, n);
        assert_eq!(out, format!("n={}", expected));
    }
}

#[test]
fn count_words_agrees_with_split_whitespace() {
    assert_eq!(count_words("Hello world"), 2);
    assert_eq!(count_words(""), 0);
    assert_eq!(count_words(" \n "), 0);
    for text in ["a", " a b ", "one\ttwo\nthree", "a\u{85}b", "x\u{200b}y"] {
        assert_eq!(count_words(text), text.split_whitespace().count());
    }
}

#[test]
fn annotation_offset_follows_the_display_order() {
    let mut doc = Document::new("T".to_string(), "0123456789".to_string());
    assert_eq!(annotation_offset_by_index(&doc, 0), None);
    for (start, end) in [(7, 9), (2, 3), (5, 6)] {
        doc.add_annotation(Annotation::new(
            TextRange::new(start, end),
            String::new(),
            String::new(),
        ));
    }
    assert_eq!(annotation_offset_by_index(&doc, 0), Some(2));
    assert_eq!(annotation_offset_by_index(&doc, 1), Some(5));
    assert_eq!(annotation_offset_by_index(&doc, 2), Some(7));
    assert_eq!(annotation_offset_by_index(&doc, 3), None);
}
