use quill_core::model::document::Document;
use quill_core::view::{covering_severity, entry_detail, entry_heading, push_preview};
use quill_core::view::scroll_offset;
use quill_core::{Annotation, App, Key, Mode, Severity, TextRange};

fn annotation(start: usize, end: usize, severity: Severity) -> Annotation {
    let mut ann = Annotation::new(TextRange::new(start, end), String::new(), String::new());
    ann.severity = severity;
    ann
}

#[test]
fn mode_labels() {
    assert_eq!(Mode::Normal.label(), "NORMAL");
    assert_eq!(Mode::Visual.label(), "VISUAL");
    assert_eq!(Mode::Input.label(), "INPUT");
    assert_eq!(Mode::CategoryPicker.label(), "CATEGORY");
    assert_eq!(Mode::SeverityPicker.label(), "SEVERITY");
    assert_eq!(Mode::Help.label(), "HELP");
}

#[test]
fn scroll_offset_keeps_the_cursor_visible() {
    assert_eq!(scroll_offset(0, 10), 0);
    assert_eq!(scroll_offset(9, 10), 0);
    assert_eq!(scroll_offset(10, 10), 1);
    assert_eq!(scroll_offset(25, 10), 16);
    assert_eq!(scroll_offset(3, 1), 3);
    assert_eq!(scroll_offset(3, 0), 4);
    assert_eq!(scroll_offset(usize::MAX, 1), usize::MAX);
}

#[test]
fn first_covering_annotation_colours_a_character() {
    let mut doc = Document::new("T".to_string(), "0123456789".to_string());
    doc.add_annotation(annotation(4, 8, Severity::Consider));
    doc.add_annotation(annotation(2, 6, Severity::MustFix));
    doc.add_annotation(annotation(2, 3, Severity::ShouldFix));
    let shown = doc.annotations_sorted();
    assert_eq!(covering_severity(&shown, 0), None);
    assert_eq!(covering_severity(&shown, 1), None);
    assert_eq!(covering_severity(&shown, 2), Some(Severity::MustFix));
    assert_eq!(covering_severity(&shown, 5), Some(Severity::MustFix));
    assert_eq!(covering_severity(&shown, 6), Some(Severity::Consider));
    assert_eq!(covering_severity(&shown, 7), Some(Severity::Consider));
    assert_eq!(covering_severity(&shown, 8), None);
    assert_eq!(covering_severity(&Vec::new(), 3), None);
}

#[test]
fn preview_cuts_and_flattens() {
    let preview = |text: &str, limit: usize| {
        let mut out = String::from("<");
        push_preview(&mut out, text, limit);
        out
    };
    assert_eq!(preview("hello", 15), "<hello");
    assert_eq!(preview("hello", 3), "<hel");
    assert_eq!(preview("hello", 0), "<");
    assert_eq!(preview("a\nb\n", 15), "<a b ");
    assert_eq!(preview("héllo wörld", 7), "<héllo w");
    assert_eq!(preview("", 4), "<");
}

#[test]
fn sidebar_entries() {
    let mut ann = Annotation::new(
        TextRange::new(0, 30),
        "The quick brown\nfox jumps".to_string(),
        "This comment is rather long for a sidebar".to_string(),
    );
    assert_eq!(entry_heading(&ann, false), "  [SHOULD] \"The quick brown...\"");
    assert_eq!(entry_heading(&ann, true), "> [SHOULD] \"The quick brown...\"");
    assert_eq!(entry_detail(&ann), "   This comment is rath");
    ann.is_resolved = true;
    ann.severity = Severity::MustFix;
    ann.selected_text = "a\nb".to_string();
    ann.comment = "short".to_string();
    assert_eq!(entry_heading(&ann, true), "> [MUST]~ \"a b...\"");
    assert_eq!(entry_detail(&ann), "   short");
    ann.severity = Severity::Consider;
    ann.comment = String::new();
    assert_eq!(entry_heading(&ann, false), "  [CONSIDER]~ \"a b...\"");
    assert_eq!(entry_detail(&ann), "   ");
}

#[test]
fn title_line_counts_annotations() {
    let mut app = App::new();
    assert_eq!(app.title_line("Quill TUI"), " Quill TUI - Untitled [0/0]");
    let mut doc = Document::with_file_info(
        "notes".to_string(),
        "0123456789".to_string(),
        "/x/notes.md".to_string(),
        "notes.md".to_string(),
    );
    for start in 0..12 {
        doc.add_annotation(annotation(start, start + 1, Severity::Consider));
    }
    app.load_document(doc);
    assert_eq!(app.title_line("Quill TUI (Web)"), " Quill TUI (Web) - notes.md [1/12]");
    for _ in 0..10 {
        app.next_annotation();
    }
    assert_eq!(app.title_line("Q"), " Q - notes.md [11/12]");
}

#[test]
fn status_line_shows_message_or_hint() {
    let mut app = App::new();
    assert_eq!(
        app.status_line(),
        " NORMAL | j/k scroll | v select | a add | e export | ? help"
    );
    app.set_status("Annotation added");
    assert_eq!(app.status_line(), " NORMAL | Annotation added");
    app.set_status("");
    app.mode = Mode::Visual;
    assert_eq!(
        app.status_line(),
        " VISUAL | j/k scroll | v select | a add | e export | ? help"
    );
}

#[test]
fn in_selection_is_half_open() {
    let mut app = App::new();
    app.load_document(Document::new("T".to_string(), "Hello\nWorld".to_string()));
    assert!(!app.in_selection(0));
    for c in "lvjl".chars() {
        quill_core::handle_key(&mut app, Key::Char(c));
    }
    assert_eq!(app.get_selection_range(), Some((1, 8)));
    assert!(!app.in_selection(0));
    assert!(app.in_selection(1));
    assert!(app.in_selection(7));
    assert!(!app.in_selection(8));
}

#[test]
fn document_from_file_is_named_after_the_path() {
    let doc = Document::from_file("/tmp/dir/notes.md", "text".to_string());
    assert_eq!(doc.title, "notes");
    assert_eq!(doc.filename.as_deref(), Some("notes.md"));
    assert_eq!(doc.filepath.as_deref(), Some("/tmp/dir/notes.md"));
    assert_eq!(doc.content, "text");
    assert!(doc.annotations.is_empty());
    assert_eq!(doc.created_at, doc.updated_at);
    let doc = Document::from_file("..", String::new());
    assert_eq!(doc.title, "Untitled");
    assert_eq!(doc.filename, None);
    assert_eq!(doc.filepath.as_deref(), Some(".."));
}

#[test]
fn document_from_file_parts() {
    let doc = Document::from_file_parts(
        "a/b.txt",
        "c".to_string(),
        Some("b.txt".to_string()),
        Some("b".to_string()),
    );
    assert_eq!(doc.title, "b");
    assert_eq!(doc.filename.as_deref(), Some("b.txt"));
    assert_eq!(doc.filepath.as_deref(), Some("a/b.txt"));
    let doc = Document::from_file_parts("", String::new(), None, None);
    assert_eq!(doc.title, "Untitled");
    assert_eq!(doc.filename, None);
    assert_eq!(doc.filepath.as_deref(), Some(""));
}
