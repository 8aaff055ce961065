use quill_core::model::document::Document;
use quill_core::{Annotation, Category, Severity, TextRange};

fn annotation(start: usize, end: usize, comment: &str) -> Annotation {
    Annotation::new(TextRange::new(start, end), format!("text {}", comment), comment.to_string())
}

fn comments(doc: &Document) -> Vec<String> {
    doc.annotations_sorted().iter().map(|a| a.comment.clone()).collect()
}

#[test]
fn text_range_sorts_its_endpoints() {
    let forward = TextRange::new(3, 9);
    let backward = TextRange::new(9, 3);
    assert_eq!(forward.start_offset, 3);
    assert_eq!(forward.end_offset, 9);
    assert_eq!(forward, backward);
    let empty = TextRange::new(4, 4);
    assert_eq!(empty.start_offset, 4);
    assert_eq!(empty.end_offset, 4);
}

#[test]
fn text_range_is_half_open() {
    let range = TextRange::new(3, 6);
    assert!(!range.contains(2));
    assert!(range.contains(3));
    assert!(range.contains(5));
    assert!(!range.contains(6));
    assert!(!TextRange::new(4, 4).contains(4));
}

#[test]
fn categories_have_names() {
    let names: Vec<&str> = Category::all().iter().map(|c| c.as_str()).collect();
    assert_eq!(names, vec!["Voice", "Clarity", "Structure", "Expand", "Condense", "Rephrase"]);
    let exported: Vec<&str> = Category::all().iter().map(|c| c.as_export_str()).collect();
    assert_eq!(exported, vec!["VOICE", "CLARITY", "STRUCTURE", "EXPAND", "CONDENSE", "REPHRASE"]);
}

#[test]
fn severities_have_names() {
    assert_eq!(Severity::all(), &[Severity::MustFix, Severity::ShouldFix, Severity::Consider]);
    let names: Vec<&str> = Severity::all().iter().map(|s| s.as_str()).collect();
    assert_eq!(names, vec!["Must Fix", "Should Fix", "Consider"]);
    let tags: Vec<&str> = Severity::all().iter().map(|s| s.short()).collect();
    assert_eq!(tags, vec!["MUST", "SHOULD", "CONSIDER"]);
    let exported: Vec<&str> = Severity::all().iter().map(|s| s.as_export_str()).collect();
    assert_eq!(exported, vec!["must-fix", "should-fix", "consider"]);
    assert_eq!(Severity::default(), Severity::ShouldFix);
}

#[test]
fn new_annotation_has_defaults() {
    let ann = Annotation::new(TextRange::new(2, 5), "abc".to_string(), "why".to_string());
    assert_eq!(ann.range, TextRange::new(2, 5));
    assert_eq!(ann.selected_text, "abc");
    assert_eq!(ann.comment, "why");
    assert_eq!(ann.category, None);
    assert_eq!(ann.severity, Severity::ShouldFix);
    assert!(!ann.is_resolved);
}

#[test]
fn fresh_identifiers_are_random_uuids() {
    let a = Annotation::new(TextRange::new(0, 1), String::new(), String::new());
    let b = Annotation::new(TextRange::new(0, 1), String::new(), String::new());
    assert_ne!(a.id, b.id);
    for id in [a.id, b.id] {
        let uuid = uuid::Uuid::from_u128(id);
        assert_eq!(uuid.get_version_num(), 4);
        assert_eq!((id >> 76) & 0xf, 4);
        assert_eq!((id >> 62) & 0x3, 2);
    }
}

#[test]
fn new_document_is_empty_and_stamped() {
    let before = chrono::Utc::now().timestamp_micros();
    let doc = Document::new("Title".to_string(), "Some text".to_string());
    let after = chrono::Utc::now().timestamp_micros();
    assert_eq!(doc.title, "Title");
    assert_eq!(doc.content, "Some text");
    assert_eq!(doc.filename, None);
    assert_eq!(doc.filepath, None);
    assert!(doc.annotations.is_empty());
    assert_eq!(doc.created_at, doc.updated_at);
    assert!(before <= doc.created_at && doc.created_at <= after);
    assert_eq!(uuid::Uuid::from_u128(doc.id).get_version_num(), 4);
}

#[test]
fn document_with_file_info() {
    let doc = Document::with_file_info(
        "notes".to_string(),
        "text".to_string(),
        "/tmp/notes.md".to_string(),
        "notes.md".to_string(),
    );
    assert_eq!(doc.title, "notes");
    assert_eq!(doc.content, "text");
    assert_eq!(doc.filepath.as_deref(), Some("/tmp/notes.md"));
    assert_eq!(doc.filename.as_deref(), Some("notes.md"));
    assert!(doc.annotations.is_empty());
}

#[test]
fn word_count_counts_runs_of_non_whitespace() {
    let count = |s: &str| Document::new(String::new(), s.to_string()).word_count();
    assert_eq!(count(""), 0);
    assert_eq!(count("   \n\t "), 0);
    assert_eq!(count("Hello world"), 2);
    assert_eq!(count("  leading and trailing  "), 3);
    assert_eq!(count("one\ntwo\r\nthree\tfour"), 4);
    assert_eq!(count("a\u{a0}b\u{3000}c"), 3);
    assert_eq!(count("don't stop-me"), 2);
    for text in ["x", " x", "x ", "a  b", "héllo wörld ünd", "\u{2003}em\u{2003}space"] {
        assert_eq!(count(text), text.split_whitespace().count());
    }
}

#[test]
fn add_annotation_appends_and_stamps() {
    let mut doc = Document::new("T".to_string(), "content".to_string());
    let first = annotation(3, 5, "first");
    let first_id = first.id;
    doc.add_annotation_at(first, doc.created_at + 10);
    assert_eq!(doc.annotations.len(), 1);
    assert_eq!(doc.annotations[0].id, first_id);
    assert_eq!(doc.updated_at, doc.created_at + 10);
    // Identical annotations are kept side by side.
    doc.add_annotation_at(annotation(3, 5, "first"), doc.created_at + 20);
    assert_eq!(doc.annotations.len(), 2);
    assert_eq!(doc.updated_at, doc.created_at + 20);
    doc.add_annotation(annotation(0, 1, "third"));
    assert_eq!(doc.annotations.len(), 3);
    assert_eq!(doc.annotations[2].comment, "third");
    assert!(doc.updated_at >= doc.created_at);
}

#[test]
fn mutations_store_the_clock_reading() {
    let mut doc = Document::new("T".to_string(), "content".to_string());
    let created = doc.created_at;
    doc.add_annotation_at(annotation(0, 1, "a"), created + 100);
    assert_eq!(doc.updated_at, created + 100);
    // A reading before the last stamp is stored as well.
    doc.add_annotation_at(annotation(0, 1, "b"), created + 50);
    assert_eq!(doc.updated_at, created + 50);
    let id = doc.annotations[0].id;
    assert!(doc.toggle_resolved_at(id, created));
    assert_eq!(doc.updated_at, created);
    assert!(doc.remove_annotation_at(id, i64::MAX).is_some());
    assert_eq!(doc.updated_at, i64::MAX);
    assert_eq!(doc.created_at, created);
}

#[test]
fn last_update_is_never_older_than_the_creation() {
    let mut doc = Document::new("T".to_string(), "content".to_string());
    let created = doc.created_at;
    doc.add_annotation_at(annotation(0, 1, "a"), created + 100);
    // A clock that reads earlier than the creation leaves the creation time.
    doc.add_annotation_at(annotation(0, 1, "b"), created - 5);
    assert_eq!(doc.updated_at, created);
    let id = doc.annotations[0].id;
    doc.updated_at = created + 9;
    assert!(doc.toggle_resolved_at(id, i64::MIN));
    assert_eq!(doc.updated_at, created);
    doc.updated_at = created + 9;
    assert!(doc.remove_annotation_at(id, created - 1).is_some());
    assert_eq!(doc.updated_at, created);
    assert_eq!(doc.created_at, created);
}

#[test]
fn removing_the_one_annotation_of_an_id() {
    let mut doc = Document::new("T".to_string(), "content".to_string());
    doc.created_at = 1_000;
    doc.updated_at = 5_000;
    for (start, name) in [(5, "a"), (1, "b"), (3, "c"), (1, "d")] {
        doc.add_annotation_at(annotation(start, start + 2, name), 5_000);
    }
    let id = doc.annotations[2].id;
    // The clock reads between the creation and the last stamp.
    let removed = doc.remove_annotation_at(id, 3_000).unwrap();
    assert_eq!(removed.id, id);
    assert_eq!(removed.comment, "c");
    assert_eq!(removed.range, TextRange::new(3, 5));
    let left: Vec<&str> = doc.annotations.iter().map(|a| a.comment.as_str()).collect();
    assert_eq!(left, vec!["a", "b", "d"]);
    assert_eq!(doc.updated_at, 3_000);
    assert_eq!(doc.created_at, 1_000);
    assert_eq!(doc.content, "content");
}

#[test]
fn document_from_parts() {
    let anns = vec![annotation(2, 4, "a")];
    let doc = Document::from_parts(
        9,
        "T".to_string(),
        "content".to_string(),
        Some("f.md".to_string()),
        None,
        anns,
        100,
        250,
    );
    assert_eq!(doc.id, 9);
    assert_eq!(doc.title, "T");
    assert_eq!(doc.content, "content");
    assert_eq!(doc.filename.as_deref(), Some("f.md"));
    assert_eq!(doc.filepath, None);
    assert_eq!(doc.annotations.len(), 1);
    assert_eq!(doc.annotations[0].comment, "a");
    assert_eq!((doc.created_at, doc.updated_at), (100, 250));
    let doc =
        Document::from_parts(9, String::new(), String::new(), None, None, Vec::new(), 100, 40);
    assert_eq!((doc.created_at, doc.updated_at), (100, 100));
}

#[test]
fn remove_annotation_by_id() {
    let mut doc = Document::new("T".to_string(), "content".to_string());
    doc.add_annotation(annotation(5, 6, "a"));
    doc.add_annotation(annotation(1, 2, "b"));
    doc.add_annotation(annotation(3, 4, "c"));
    let id = doc.annotations[1].id;
    let stamp = doc.updated_at;
    let removed = doc.remove_annotation_at(id, stamp + 7).unwrap();
    assert_eq!(removed.id, id);
    assert_eq!(removed.comment, "b");
    assert_eq!(doc.updated_at, stamp + 7);
    let left: Vec<&str> = doc.annotations.iter().map(|a| a.comment.as_str()).collect();
    assert_eq!(left, vec!["a", "c"]);
    assert_eq!(doc.position_of(id), None);
}

#[test]
fn removing_an_unknown_id_changes_nothing() {
    let mut doc = Document::new("T".to_string(), "content".to_string());
    doc.add_annotation(annotation(5, 6, "a"));
    let stamp = doc.updated_at;
    assert!(doc.remove_annotation_at(12345, stamp + 50).is_none());
    assert!(doc.remove_annotation(12345).is_none());
    assert_eq!(doc.annotations.len(), 1);
    assert_eq!(doc.updated_at, stamp);
    assert!(!doc.toggle_resolved_at(12345, stamp + 50));
    assert!(!doc.toggle_resolved(12345));
    assert_eq!(doc.updated_at, stamp);
    assert!(!doc.annotations[0].is_resolved);
}

#[test]
fn remove_takes_the_first_of_equal_ids() {
    let mut doc = Document::new("T".to_string(), "content".to_string());
    let mut a = annotation(1, 2, "first");
    let mut b = annotation(3, 4, "second");
    a.id = 7;
    b.id = 7;
    doc.add_annotation(a);
    doc.add_annotation(b);
    assert_eq!(doc.position_of(7), Some(0));
    assert_eq!(doc.remove_annotation(7).unwrap().comment, "first");
    assert_eq!(doc.remove_annotation(7).unwrap().comment, "second");
    assert!(doc.remove_annotation(7).is_none());
}

#[test]
fn toggle_resolved_twice_restores_the_flag() {
    let mut doc = Document::new("T".to_string(), "content".to_string());
    doc.add_annotation(annotation(5, 6, "a"));
    doc.add_annotation(annotation(1, 2, "b"));
    let id = doc.annotations[1].id;
    let stamp = doc.updated_at;
    assert!(doc.toggle_resolved_at(id, stamp + 1));
    assert!(doc.annotations[1].is_resolved);
    assert!(!doc.annotations[0].is_resolved);
    assert_eq!(doc.updated_at, stamp + 1);
    assert!(doc.toggle_resolved_at(id, stamp + 2));
    assert!(!doc.annotations[1].is_resolved);
    assert_eq!(doc.updated_at, stamp + 2);
    assert_eq!(doc.annotations[1].comment, "b");
    assert_eq!(doc.annotations[1].id, id);
    assert!(doc.toggle_resolved(id));
    assert!(doc.annotations[1].is_resolved);
    assert!(doc.updated_at >= doc.created_at);
}

#[test]
fn sorted_view_ascends_by_start_offset() {
    let mut doc = Document::new("T".to_string(), "content".to_string());
    for (start, name) in [(9, "a"), (2, "b"), (5, "c"), (0, "d"), (7, "e")] {
        doc.add_annotation(annotation(start, start + 1, name));
    }
    assert_eq!(comments(&doc), vec!["d", "b", "c", "e", "a"]);
    // The stored order is untouched.
    let stored: Vec<&str> = doc.annotations.iter().map(|a| a.comment.as_str()).collect();
    assert_eq!(stored, vec!["a", "b", "c", "d", "e"]);
    assert!(Document::new(String::new(), String::new()).annotations_sorted().is_empty());
}

#[test]
fn sorted_view_keeps_insertion_order_for_ties() {
    let mut doc = Document::new("T".to_string(), "content".to_string());
    for (start, end, name) in [(4, 9, "a"), (1, 2, "b"), (4, 5, "c"), (1, 8, "d"), (4, 7, "e")] {
        doc.add_annotation(annotation(start, end, name));
    }
    assert_eq!(comments(&doc), vec!["b", "d", "a", "c", "e"]);
}

#[test]
fn removal_takes_one_entry_out_of_the_sorted_view() {
    let entries = [(4, "a"), (1, "b"), (4, "c"), (9, "d"), (1, "e"), (0, "f")];
    for victim in 0..entries.len() {
        let mut doc = Document::new("T".to_string(), "content".to_string());
        for (start, name) in entries {
            doc.add_annotation(annotation(start, start + 2, name));
        }
        let mut expected = comments(&doc);
        let id = doc.annotations[victim].id;
        let name = doc.annotations[victim].comment.clone();
        expected.retain(|c| *c != name);
        doc.remove_annotation(id);
        assert_eq!(comments(&doc), expected);
    }
}

#[test]
fn sorted_view_does_not_depend_on_insertion_order_of_distinct_starts() {
    let mut forward = Document::new("T".to_string(), "content".to_string());
    let mut backward = Document::new("T".to_string(), "content".to_string());
    let entries = [(3, "a"), (1, "b"), (8, "c"), (5, "d")];
    for (start, name) in entries {
        forward.add_annotation(annotation(start, start + 1, name));
    }
    for (start, name) in entries.iter().rev() {
        backward.add_annotation(annotation(*start, start + 1, name));
    }
    assert_eq!(comments(&forward), comments(&backward));
    let id = forward.annotations[2].id;
    forward.remove_annotation(id);
    let id = backward.annotations[1].id;
    backward.remove_annotation(id);
    assert_eq!(comments(&forward), vec!["b", "a", "d"]);
    assert_eq!(comments(&backward), vec!["b", "a", "d"]);
}
