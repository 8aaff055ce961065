use quill_core::model::document::Document;
use quill_core::{generate_prompt, Annotation, Category, ExportAnnotation, ExportDocument};
use quill_core::{Severity, TextRange};
use serde_json::Value;

fn optional(s: &Option<String>) -> Value {
    match s {
        Some(s) => Value::from(s.clone()),
        None => Value::Null,
    }
}

fn annotation_value(ann: &ExportAnnotation) -> Value {
    let mut map = serde_json::Map::new();
    map.insert("id".to_string(), Value::from(ann.id.clone()));
    map.insert("text".to_string(), Value::from(ann.text.clone()));
    map.insert("category".to_string(), optional(&ann.category));
    map.insert("severity".to_string(), Value::from(ann.severity.clone()));
    map.insert("comment".to_string(), Value::from(ann.comment.clone()));
    map.insert("startOffset".to_string(), Value::from(ann.start_offset));
    map.insert("endOffset".to_string(), Value::from(ann.end_offset));
    Value::Object(map)
}

fn document_value(doc: &ExportDocument) -> Value {
    let mut map = serde_json::Map::new();
    map.insert("filepath".to_string(), optional(&doc.filepath));
    map.insert("filename".to_string(), optional(&doc.filename));
    map.insert("title".to_string(), Value::from(doc.title.clone()));
    map.insert("content".to_string(), Value::from(doc.content.clone()));
    map.insert("wordCount".to_string(), Value::from(doc.word_count));
    map.insert(
        "annotations".to_string(),
        Value::Array(doc.annotations.iter().map(annotation_value).collect()),
    );
    map.insert("prompt".to_string(), Value::from(doc.prompt.clone()));
    Value::Object(map)
}

#[test]
fn test_export_annotation_format() {
    let range = TextRange::new(100, 150);
    let mut ann = Annotation::new(range, "selected text".to_string(), "fix this".to_string());
    ann.category = Some(Category::Rephrase);
    ann.severity = Severity::ShouldFix;

    let export_ann = ExportAnnotation::from(&ann);
    let json = serde_json::to_string(&annotation_value(&export_ann)).unwrap();

    // Verify camelCase field names
    assert!(json.contains("\"startOffset\":100"));
    assert!(json.contains("\"endOffset\":150"));
    assert!(json.contains("\"severity\":\"should-fix\""));
    assert!(json.contains("\"category\":\"REPHRASE\""));
    assert!(json.contains("\"text\":\"selected text\""));
    assert!(json.contains("\"comment\":\"fix this\""));
}

#[test]
fn test_export_document_format() {
    let mut doc = Document::new("Test".to_string(), "Hello world".to_string());
    doc.filepath = Some("/path/to/file.md".to_string());
    doc.filename = Some("file.md".to_string());

    let export_doc = ExportDocument::from(&doc);
    let json = serde_json::to_string(&document_value(&export_doc)).unwrap();

    // Verify camelCase field names
    assert!(json.contains("\"wordCount\":2"));
    assert!(json.contains("\"filepath\":\"/path/to/file.md\""));
}

#[test]
fn export_annotation_copies_every_field() {
    let mut ann = Annotation::new(TextRange::new(9, 4), "abc".to_string(), "why".to_string());
    ann.is_resolved = true;
    let export = ExportAnnotation::from(&ann);
    assert_eq!(export.text, "abc");
    assert_eq!(export.comment, "why");
    assert_eq!(export.category, None);
    assert_eq!(export.severity, "should-fix");
    assert_eq!(export.start_offset, 4);
    assert_eq!(export.end_offset, 9);
    ann.severity = Severity::MustFix;
    ann.category = Some(Category::Voice);
    let export = ExportAnnotation::from(&ann);
    assert_eq!(export.severity, "must-fix");
    assert_eq!(export.category.as_deref(), Some("VOICE"));
    ann.severity = Severity::Consider;
    assert_eq!(ExportAnnotation::from(&ann).severity, "consider");
}

#[test]
fn export_identifier_is_a_hyphenated_uuid() {
    let mut ann = Annotation::new(TextRange::new(0, 1), "a".to_string(), "b".to_string());
    let export = ExportAnnotation::from(&ann);
    assert_eq!(export.id.len(), 36);
    assert_eq!(uuid::Uuid::parse_str(&export.id).unwrap().as_u128(), ann.id);
    ann.id = 0xa1a2a3a4b1b2c1c2d1d2d3d4d5d6d7d8;
    let export = ExportAnnotation::from(&ann);
    assert_eq!(export.id, "a1a2a3a4-b1b2-c1c2-d1d2-d3d4d5d6d7d8");
    let given = ExportAnnotation::with_id_text("some id".to_string(), &ann);
    assert_eq!(given.id, "some id");
    assert_eq!(given.text, "a");
}

#[test]
fn export_document_holds_all_annotations() {
    let mut doc = Document::new("Test".to_string(), "Hello big world".to_string());
    let mut first = Annotation::new(TextRange::new(6, 9), "big".to_string(), "drop".to_string());
    first.is_resolved = true;
    doc.add_annotation(first);
    let second = Annotation::new(TextRange::new(0, 5), "Hello".to_string(), "hi".to_string());
    doc.add_annotation(second);
    let export = ExportDocument::from(&doc);
    assert_eq!(export.title, "Test");
    assert_eq!(export.content, "Hello big world");
    assert_eq!(export.filepath, None);
    assert_eq!(export.filename, None);
    assert_eq!(export.word_count, 3);
    // Stored order, resolved ones included.
    assert_eq!(export.annotations.len(), 2);
    assert_eq!(export.annotations[0].text, "big");
    assert_eq!(export.annotations[1].text, "Hello");
    assert_eq!(export.prompt, generate_prompt(&doc));
}

#[test]
fn report_without_annotations() {
    let doc = Document::new("Title".to_string(), "Body text".to_string());
    assert_eq!(
        generate_prompt(&doc),
        "## Document: Title\n\n\
         Please review and edit this document based on the following annotations.\n\n\
         ### Full Text\n\nBody text\n\n---\n\n\
         No annotations to address.\n"
    );
}

#[test]
fn report_with_only_resolved_annotations() {
    let mut doc = Document::new("Title".to_string(), "Body text".to_string());
    let mut ann = Annotation::new(TextRange::new(0, 4), "Body".to_string(), "x".to_string());
    ann.is_resolved = true;
    doc.add_annotation(ann);
    let report = generate_prompt(&doc);
    assert!(report.ends_with("---\n\nNo annotations to address.\n"));
    assert!(!report.contains("### Annotations"));
}

#[test]
fn report_of_one_annotation_is_exact() {
    let mut doc = Document::new("T".to_string(), "Hello world".to_string());
    let mut ann = Annotation::new(TextRange::new(0, 5), "Hello".to_string(), "greet".to_string());
    ann.severity = Severity::MustFix;
    ann.category = Some(Category::Clarity);
    doc.add_annotation(ann);
    assert_eq!(
        generate_prompt(&doc),
        "## Document: T\n\n\
         Please review and edit this document based on the following annotations.\n\n\
         ### Full Text\n\nHello world\n\n---\n\n\
         ### Annotations (1 items)\n\n\
         #### Must Fix (1)\n\n\
         **\"Hello\"**\n- Category: Clarity\n- Feedback: greet\n\n\
         ---\n\n\
         Please provide the revised document with all annotations addressed. \
         For each change, briefly note what was modified and why."
    );
}

#[test]
fn report_omits_resolved_annotations() {
    let mut doc = Document::new("T".to_string(), "Hello world".to_string());
    let mut must = Annotation::new(TextRange::new(0, 5), "Hello".to_string(), "one".to_string());
    must.severity = Severity::MustFix;
    let mut consider =
        Annotation::new(TextRange::new(6, 11), "world".to_string(), "two".to_string());
    consider.severity = Severity::Consider;
    consider.is_resolved = true;
    doc.add_annotation(must);
    doc.add_annotation(consider);
    let report = generate_prompt(&doc);
    assert!(report.contains("### Annotations (1 items)\n\n"));
    assert!(report.contains("#### Must Fix (1)\n\n**\"Hello\"**\n- Feedback: one\n\n---\n\n"));
    assert_eq!(report.matches("**\"").count(), 1);
    assert!(!report.contains("Consider"));
    assert!(!report.contains("\"world\""));
    assert!(!report.contains("two"));
}

#[test]
fn report_groups_by_severity_in_fixed_order() {
    let mut doc = Document::new("T".to_string(), "abcdefghijklmnop".to_string());
    let entries = [
        (Severity::Consider, "c1"),
        (Severity::MustFix, "m1"),
        (Severity::Consider, "c2"),
        (Severity::MustFix, "m2"),
        (Severity::MustFix, "m3"),
    ];
    for (i, (severity, name)) in entries.iter().enumerate() {
        let mut ann =
            Annotation::new(TextRange::new(i, i + 1), name.to_string(), format!("on {}", name));
        ann.severity = *severity;
        doc.add_annotation(ann);
    }
    let report = generate_prompt(&doc);
    let tail = report.split_once("\n\n---\n\n").unwrap().1;
    assert_eq!(
        tail,
        "### Annotations (5 items)\n\n\
         #### Must Fix (3)\n\n\
         **\"m1\"**\n- Feedback: on m1\n\n\
         **\"m2\"**\n- Feedback: on m2\n\n\
         **\"m3\"**\n- Feedback: on m3\n\n\
         #### Consider (2)\n\n\
         **\"c1\"**\n- Feedback: on c1\n\n\
         **\"c2\"**\n- Feedback: on c2\n\n\
         ---\n\n\
         Please provide the revised document with all annotations addressed. \
         For each change, briefly note what was modified and why."
    );
    assert!(!report.contains("Should Fix"));
}

#[test]
fn report_counts_are_decimal() {
    let mut doc = Document::new("T".to_string(), "x".to_string());
    for i in 0..123 {
        let mut ann = Annotation::new(TextRange::new(0, 1), "x".to_string(), format!("{}", i));
        if i < 20 {
            ann.severity = Severity::Consider;
        }
        doc.add_annotation(ann);
    }
    let report = generate_prompt(&doc);
    assert!(report.contains("### Annotations (123 items)\n\n"));
    assert!(report.contains("#### Should Fix (103)\n\n"));
    assert!(report.contains("#### Consider (20)\n\n"));
    assert!(report.contains("- Feedback: 0\n\n"));
    assert!(report.contains("- Feedback: 122\n\n"));
}

#[test]
fn report_is_reproducible() {
    let mut doc = Document::new("T".to_string(), "Hello wörld".to_string());
    doc.add_annotation(Annotation::new(
        TextRange::new(6, 11),
        "wörld".to_string(),
        "ümlaut".to_string(),
    ));
    let first = generate_prompt(&doc);
    let second = generate_prompt(&doc);
    assert_eq!(first, second);
    assert!(first.contains("**\"wörld\"**\n- Feedback: ümlaut\n\n"));
    assert_eq!(doc.annotations.len(), 1);
}
