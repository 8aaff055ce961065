//! The review report and the flat export records of a document.
//!
//! The report is a Markdown-like text: the title and full content of the
//! document, then every unresolved annotation, grouped by severity from the
//! most to the least pressing. It is a function of the document alone.

use vstd::prelude::*;
use vstd::string::*;
use vstd::std_specs::convert::FromSpecImpl;
use crate::model::annotation::{Annotation, AnnotationView, Category, Severity};
use crate::model::document::{annotation_views, option_view, Document, DocumentView};
use crate::text::{decimal, push_decimal, word_count_of};

verus! {

/// The text of identifier `id` as a hyphenated lower-case UUID.
pub uninterp spec fn uuid_text(id: u128) -> Seq<char>;

/// Renders an identifier in the usual hyphenated form.
///
/// Calls `uuid::Uuid::from_u128` and formats the result with
/// `Uuid::hyphenated`. Trusted: the text is a function of the identifier
/// alone, named [`uuid_text`].
#[verifier::external_body]
pub(crate) fn id_text(id: u128) -> (r: String)
    ensures
        r@ == uuid_text(id),
{
    uuid::Uuid::from_u128(id).hyphenated().to_string()
}

/// Whether the report lists an annotation under `severity`: it is
/// unresolved and of that severity.
pub open spec fn listed_under(a: AnnotationView, severity: Severity) -> bool {
    !a.is_resolved && a.severity == severity
}

/// The test for an unresolved annotation.
pub open spec fn is_unresolved() -> spec_fn(AnnotationView) -> bool {
    |a: AnnotationView| !a.is_resolved
}

/// The test for an annotation listed under `severity`.
pub open spec fn is_listed_under(severity: Severity) -> spec_fn(AnnotationView) -> bool {
    |a: AnnotationView| listed_under(a, severity)
}

/// The unresolved annotations, in stored order.
pub open spec fn unresolved(anns: Seq<AnnotationView>) -> Seq<AnnotationView> {
    anns.filter(is_unresolved())
}

/// The unresolved annotations of one severity, in stored order.
pub open spec fn group_of(anns: Seq<AnnotationView>, severity: Severity) -> Seq<AnnotationView> {
    anns.filter(is_listed_under(severity))
}

/// Filtering one element more either appends that element or changes
/// nothing.
proof fn lemma_filter_step(
    s: Seq<AnnotationView>,
    pred: spec_fn(AnnotationView) -> bool,
    i: int,
)
    requires
        0 <= i < s.len(),
    ensures
        s.take(0).filter(pred).len() == 0,
        s.take(i + 1).filter(pred) == if pred(s[i]) {
            s.take(i).filter(pred).push(s[i])
        } else {
            s.take(i).filter(pred)
        },
{
    reveal(Seq::filter);
    assert(s.take(i + 1).drop_last() =~= s.take(i));
}

/// The report entry of one annotation: the selected text in bold quotes,
/// the category if there is one, and the comment.
pub open spec fn entry_text(a: AnnotationView) -> Seq<char> {
    "**\""@ + a.selected_text + "\"**\n"@ + (match a.category {
        Some(c) => "- Category: "@ + c.name() + "\n"@,
        None => Seq::<char>::empty(),
    }) + "- Feedback: "@ + a.comment + "\n\n"@
}

/// The entries of a sequence of annotations, one after the other.
pub open spec fn entries_text(items: Seq<AnnotationView>) -> Seq<char>
    decreases items.len(),
{
    if items.len() == 0 {
        Seq::<char>::empty()
    } else {
        entries_text(items.drop_last()) + entry_text(items.last())
    }
}

/// The report section of one severity: a heading with the number of
/// entries, then the entries. Nothing at all for a severity without
/// unresolved annotations.
pub open spec fn group_text(anns: Seq<AnnotationView>, severity: Severity) -> Seq<char> {
    let items = group_of(anns, severity);
    if items.len() == 0 {
        Seq::<char>::empty()
    } else {
        "#### "@ + severity.name() + " ("@ + decimal(items.len()) + ")\n\n"@ + entries_text(items)
    }
}

/// The opening of every report: title, instructions and the full text.
pub open spec fn report_head(doc: DocumentView) -> Seq<char> {
    "## Document: "@ + doc.title + "\n\n"@
        + "Please review and edit this document based on the following annotations.\n\n"@
        + "### Full Text\n\n"@ + doc.content + "\n\n---\n\n"@
}

/// The report of a document.
pub open spec fn report_text(doc: DocumentView) -> Seq<char> {
    let open_items = unresolved(doc.annotations);
    if open_items.len() == 0 {
        report_head(doc) + "No annotations to address.\n"@
    } else {
        report_head(doc) + "### Annotations ("@ + decimal(open_items.len()) + " items)\n\n"@
            + group_text(doc.annotations, Severity::MustFix) + group_text(
            doc.annotations,
            Severity::ShouldFix,
        ) + group_text(doc.annotations, Severity::Consider) + "---\n\n"@
            + "Please provide the revised document with all annotations addressed. "@
            + "For each change, briefly note what was modified and why."@
    }
}

/// Counts the unresolved annotations.
fn count_unresolved(anns: &Vec<Annotation>) -> (n: usize)
    ensures
        n == unresolved(annotation_views(anns@)).len(),
{
    let ghost views = annotation_views(anns@);
    let mut n: usize = 0;
    let mut i: usize = 0;
    proof {
        reveal(Seq::filter);
    }
    while i < anns.len()
        invariant
            0 <= i <= anns@.len(),
            views == annotation_views(anns@),
            n == unresolved(views.take(i as int)).len(),
            n <= i,
        decreases anns@.len() - i,
    {
        proof {
            lemma_filter_step(views, is_unresolved(), i as int);
        }
        if !anns[i].is_resolved {
            n += 1;
        }
        i += 1;
    }
    proof {
        assert(views.take(i as int) =~= views);
    }
    n
}

/// Counts the unresolved annotations of one severity.
fn count_group(anns: &Vec<Annotation>, severity: Severity) -> (n: usize)
    ensures
        n == group_of(annotation_views(anns@), severity).len(),
{
    let ghost views = annotation_views(anns@);
    let mut n: usize = 0;
    let mut i: usize = 0;
    proof {
        reveal(Seq::filter);
    }
    while i < anns.len()
        invariant
            0 <= i <= anns@.len(),
            views == annotation_views(anns@),
            n == group_of(views.take(i as int), severity).len(),
            n <= i,
        decreases anns@.len() - i,
    {
        proof {
            lemma_filter_step(views, is_listed_under(severity), i as int);
        }
        if !anns[i].is_resolved && anns[i].severity == severity {
            n += 1;
        }
        i += 1;
    }
    proof {
        assert(views.take(i as int) =~= views);
    }
    n
}

/// Appends the report entry of `ann`.
fn push_entry(out: &mut String, ann: &Annotation)
    ensures
        final(out)@ == old(out)@ + entry_text(ann@),
{
    out.append("**\"");
    out.append(ann.selected_text.as_str());
    out.append("\"**\n");
    match ann.category {
        Some(cat) => {
            out.append("- Category: ");
            out.append(cat.as_str());
            out.append("\n");
        },
        None => {},
    }
    out.append("- Feedback: ");
    out.append(ann.comment.as_str());
    out.append("\n\n");
    proof {
        assert(final(out)@ =~= old(out)@ + entry_text(ann@));
    }
}

/// Appends the report section of one severity.
fn push_group(out: &mut String, anns: &Vec<Annotation>, severity: Severity)
    ensures
        final(out)@ == old(out)@ + group_text(annotation_views(anns@), severity),
{
    let ghost views = annotation_views(anns@);
    let count = count_group(anns, severity);
    if count == 0 {
        proof {
            assert(out@ =~= old(out)@ + group_text(views, severity));
        }
        return ;
    }
    out.append("#### ");
    out.append(severity.as_str());
    out.append(" (");
    push_decimal(out, count);
    out.append(")\n\n");
    let ghost heading = "#### "@ + severity.name() + " ("@ + decimal(count as nat) + ")\n\n"@;
    proof {
        assert(out@ =~= old(out)@ + heading);
        reveal(Seq::filter);
    }
    let mut i: usize = 0;
    while i < anns.len()
        invariant
            0 <= i <= anns@.len(),
            views == annotation_views(anns@),
            out@ == old(out)@ + heading + entries_text(group_of(views.take(i as int), severity)),
        decreases anns@.len() - i,
    {
        proof {
            lemma_filter_step(views, is_listed_under(severity), i as int);
        }
        if !anns[i].is_resolved && anns[i].severity == severity {
            push_entry(out, &anns[i]);
            proof {
                let shown = group_of(views.take(i as int), severity);
                let next = group_of(views.take(i + 1), severity);
                assert(next == shown.push(anns@[i as int]@));
                assert(next.drop_last() =~= shown);
                assert(out@ =~= old(out)@ + heading + entries_text(next));
            }
        }
        i += 1;
    }
    proof {
        assert(views.take(i as int) =~= views);
        assert(out@ =~= old(out)@ + group_text(views, severity));
    }
}

/// Generate the review prompt for a document: the report of everything
/// that is still unresolved.
pub fn generate_prompt(doc: &Document) -> (prompt: String)
    ensures
        prompt@ == report_text(doc@),
{
    let mut prompt = String::new();
    prompt.append("## Document: ");
    prompt.append(doc.title.as_str());
    prompt.append("\n\n");
    prompt.append("Please review and edit this document based on the following annotations.\n\n");
    prompt.append("### Full Text\n\n");
    prompt.append(doc.content.as_str());
    prompt.append("\n\n---\n\n");
    proof {
        assert(prompt@ =~= report_head(doc@));
    }
    let open_count = count_unresolved(&doc.annotations);
    if open_count == 0 {
        prompt.append("No annotations to address.\n");
        return prompt;
    }
    prompt.append("### Annotations (");
    push_decimal(&mut prompt, open_count);
    prompt.append(" items)\n\n");
    push_group(&mut prompt, &doc.annotations, Severity::MustFix);
    push_group(&mut prompt, &doc.annotations, Severity::ShouldFix);
    push_group(&mut prompt, &doc.annotations, Severity::Consider);
    prompt.append("---\n\n");
    prompt.append("Please provide the revised document with all annotations addressed. ");
    prompt.append("For each change, briefly note what was modified and why.");
    prompt
}

/// The report lists exactly the unresolved annotations: every one of them
/// falls under exactly one severity, so the three sections together hold as
/// many entries as there are unresolved annotations, and a resolved
/// annotation is in none of them.
pub proof fn lemma_groups_partition(anns: Seq<AnnotationView>)
    ensures
        group_of(anns, Severity::MustFix).len() + group_of(anns, Severity::ShouldFix).len()
            + group_of(anns, Severity::Consider).len() == unresolved(anns).len(),
        forall|s: Severity, i: int|
            0 <= i < group_of(anns, s).len() ==> !(#[trigger] group_of(anns, s)[i]).is_resolved
                && group_of(anns, s)[i].severity == s,
    decreases anns.len(),
{
    reveal(Seq::filter);
    if anns.len() > 0 {
        lemma_groups_partition(anns.drop_last());
    }
}

/// One annotation as it is written to an export: every field a plain
/// string or number.
#[derive(Debug)]
pub struct ExportAnnotation {
    pub id: String,
    pub text: String,
    pub category: Option<String>,
    pub severity: String,
    pub comment: String,
    pub start_offset: usize,
    pub end_offset: usize,
}

/// What an export record of an annotation holds.
pub struct ExportAnnotationView {
    pub id: Seq<char>,
    pub text: Seq<char>,
    pub category: Option<Seq<char>>,
    pub severity: Seq<char>,
    pub comment: Seq<char>,
    pub start_offset: usize,
    pub end_offset: usize,
}

impl View for ExportAnnotation {
    type V = ExportAnnotationView;

    open spec fn view(&self) -> ExportAnnotationView {
        ExportAnnotationView {
            id: self.id@,
            text: self.text@,
            category: option_view(self.category),
            severity: self.severity@,
            comment: self.comment@,
            start_offset: self.start_offset,
            end_offset: self.end_offset,
        }
    }
}

/// The export record of an annotation whose identifier is written as
/// `id`: category and severity under their export names, the range as its
/// two offsets. The resolved flag is not exported.
pub open spec fn exported_annotation(id: Seq<char>, a: AnnotationView) -> ExportAnnotationView {
    ExportAnnotationView {
        id,
        text: a.selected_text,
        category: match a.category {
            Some(c) => Some(c.export_name()),
            None => None,
        },
        severity: a.severity.export_name(),
        comment: a.comment,
        start_offset: a.range.start_offset,
        end_offset: a.range.end_offset,
    }
}

impl ExportAnnotation {
    /// The export record of `ann`, with `id` as the text of its
    /// identifier.
    pub fn with_id_text(id: String, ann: &Annotation) -> (r: Self)
        ensures
            r@ == exported_annotation(id@, ann@),
    {
        ExportAnnotation {
            id,
            text: ann.selected_text.clone(),
            category: match ann.category {
                Some(c) => Some(c.as_export_str().to_owned()),
                None => None,
            },
            severity: ann.severity.as_export_str().to_owned(),
            comment: ann.comment.clone(),
            start_offset: ann.range.start_offset,
            end_offset: ann.range.end_offset,
        }
    }
}

impl From<&Annotation> for ExportAnnotation {
    /// The export record of `ann`, its identifier in hyphenated form.
    fn from(ann: &Annotation) -> (r: Self)
        ensures
            r@ == exported_annotation(uuid_text(ann.id), ann@),
    {
        ExportAnnotation::with_id_text(id_text(ann.id), ann)
    }
}

impl FromSpecImpl<&Annotation> for ExportAnnotation {
    open spec fn obeys_from_spec() -> bool {
        false
    }

    open spec fn from_spec(ann: &Annotation) -> Self {
        arbitrary()
    }
}

/// A document as it is written to an export, matching the format of the
/// desktop application: the document, its word count, its annotations and
/// the review prompt.
#[derive(Debug)]
pub struct ExportDocument {
    pub filepath: Option<String>,
    pub filename: Option<String>,
    pub title: String,
    pub content: String,
    pub word_count: usize,
    pub annotations: Vec<ExportAnnotation>,
    pub prompt: String,
}

/// What an export record of a document holds.
pub struct ExportDocumentView {
    pub filepath: Option<Seq<char>>,
    pub filename: Option<Seq<char>>,
    pub title: Seq<char>,
    pub content: Seq<char>,
    pub word_count: nat,
    pub annotations: Seq<ExportAnnotationView>,
    pub prompt: Seq<char>,
}

impl View for ExportDocument {
    type V = ExportDocumentView;

    open spec fn view(&self) -> ExportDocumentView {
        ExportDocumentView {
            filepath: option_view(self.filepath),
            filename: option_view(self.filename),
            title: self.title@,
            content: self.content@,
            word_count: self.word_count as nat,
            annotations: Seq::new(self.annotations@.len(), |i: int| self.annotations@[i]@),
            prompt: self.prompt@,
        }
    }
}

/// The export record of a document: every annotation, resolved or not, in
/// stored order, and the report as the prompt.
pub open spec fn exported_document(doc: DocumentView) -> ExportDocumentView {
    ExportDocumentView {
        filepath: doc.filepath,
        filename: doc.filename,
        title: doc.title,
        content: doc.content,
        word_count: word_count_of(doc.content),
        annotations: Seq::new(
            doc.annotations.len(),
            |i: int| exported_annotation(uuid_text(doc.annotations[i].id), doc.annotations[i]),
        ),
        prompt: report_text(doc),
    }
}

/// A copy of an optional string.
fn clone_option(s: &Option<String>) -> (r: Option<String>)
    ensures
        option_view(r) == option_view(*s),
{
    match s {
        Some(s) => Some(s.clone()),
        None => None,
    }
}

impl From<&Document> for ExportDocument {
    fn from(doc: &Document) -> (r: Self)
        ensures
            r@ == exported_document(doc@),
    {
        let prompt = generate_prompt(doc);
        let mut annotations: Vec<ExportAnnotation> = Vec::new();
        let mut i: usize = 0;
        while i < doc.annotations.len()
            invariant
                0 <= i <= doc.annotations@.len(),
                annotations@.len() == i,
                forall|j: int|
                    0 <= j < i ==> (#[trigger] annotations@[j])@ == exported_annotation(
                        uuid_text(doc.annotations@[j].id),
                        doc.annotations@[j]@,
                    ),
            decreases doc.annotations@.len() - i,
        {
            annotations.push(ExportAnnotation::from(&doc.annotations[i]));
            i += 1;
        }
        let r = ExportDocument {
            filepath: clone_option(&doc.filepath),
            filename: clone_option(&doc.filename),
            title: doc.title.clone(),
            content: doc.content.clone(),
            word_count: doc.word_count(),
            annotations,
            prompt,
        };
        proof {
            assert(r@.annotations =~= exported_document(doc@).annotations);
        }
        r
    }
}

impl FromSpecImpl<&Document> for ExportDocument {
    open spec fn obeys_from_spec() -> bool {
        false
    }

    open spec fn from_spec(doc: &Document) -> Self {
        arbitrary()
    }
}

} // verus!
