//! Documents and the annotation store they own.

use vstd::prelude::*;
use vstd::string::*;
use crate::model::annotation::{Annotation, AnnotationView};
use crate::model::order::{
    ascending, display_index, insert_index, lemma_display_index, lemma_sorted_view_ascends,
    lemma_sorted_view_remove, sorted_view,
};
use crate::stamp::{fresh_id, is_random_id, now_micros};
use crate::text::{count_words, word_count_of};

verus! {

/// A document with annotations.
///
/// Annotations are stored in the order in which they were added; the order
/// in which they are shown is computed on demand by
/// [`Document::annotations_sorted`]. Timestamps count microseconds since the
/// Unix epoch.
#[derive(Debug, Clone)]
pub struct Document {
    pub id: u128,
    pub title: String,
    pub content: String,
    pub filename: Option<String>,
    pub filepath: Option<String>,
    pub annotations: Vec<Annotation>,
    pub created_at: i64,
    pub updated_at: i64,
}

/// What a document holds, with strings as character sequences and the
/// annotations as a sequence of their views.
pub struct DocumentView {
    pub id: u128,
    pub title: Seq<char>,
    pub content: Seq<char>,
    pub filename: Option<Seq<char>>,
    pub filepath: Option<Seq<char>>,
    pub annotations: Seq<AnnotationView>,
    pub created_at: i64,
    pub updated_at: i64,
}

/// The view of an optional string.
pub open spec fn option_view(s: Option<String>) -> Option<Seq<char>> {
    match s {
        Some(s) => Some(s@),
        None => None,
    }
}

/// The views of a sequence of annotations, in the same order.
pub open spec fn annotation_views(anns: Seq<Annotation>) -> Seq<AnnotationView> {
    Seq::new(anns.len(), |i: int| anns[i]@)
}

/// The views of a sequence of borrowed annotations, in the same order.
pub open spec fn borrowed_views(anns: Seq<&Annotation>) -> Seq<AnnotationView> {
    Seq::new(anns.len(), |i: int| anns[i]@)
}

impl View for Document {
    type V = DocumentView;

    open spec fn view(&self) -> DocumentView {
        DocumentView {
            id: self.id,
            title: self.title@,
            content: self.content@,
            filename: option_view(self.filename),
            filepath: option_view(self.filepath),
            annotations: annotation_views(self.annotations@),
            created_at: self.created_at,
            updated_at: self.updated_at,
        }
    }
}

/// The last-update time that a clock reading gives a document created at
/// `created_at`: the reading itself, or the creation time where the clock
/// reads earlier than that, so that the last update is never older than the
/// creation.
pub open spec fn stamped(created_at: i64, now: i64) -> i64 {
    if now >= created_at {
        now
    } else {
        created_at
    }
}

/// The first position at or after `from` whose annotation has identifier
/// `id`, or the length of `anns` if there is none.
pub open spec fn index_from(anns: Seq<AnnotationView>, id: u128, from: int) -> int
    decreases anns.len() - from,
{
    if from < 0 || from >= anns.len() {
        anns.len() as int
    } else if anns[from].id == id {
        from
    } else {
        index_from(anns, id, from + 1)
    }
}

/// The position of the first annotation with identifier `id`, or the length
/// of `anns` if no annotation has it.
pub open spec fn index_of(anns: Seq<AnnotationView>, id: u128) -> int {
    index_from(anns, id, 0)
}

/// The file name of a path, if it has one.
///
/// Calls `std::path::Path::file_name` and converts the result, replacing
/// what is not Unicode. Trusted, and nothing is promised of the result:
/// what counts as a component of a path depends on the platform.
#[verifier::external_body]
fn file_name_of(path: &str) -> Option<String> {
    match std::path::Path::new(path).file_name() {
        Some(name) => Some(name.to_string_lossy().to_string()),
        None => None,
    }
}

/// The file name of a path without its extension, if it has a file name.
///
/// Calls `std::path::Path::file_stem` and converts the result, replacing
/// what is not Unicode. Trusted, and nothing is promised of the result:
/// what counts as a component of a path depends on the platform.
#[verifier::external_body]
fn file_stem_of(path: &str) -> Option<String> {
    match std::path::Path::new(path).file_stem() {
        Some(stem) => Some(stem.to_string_lossy().to_string()),
        None => None,
    }
}

impl DocumentView {
    /// The last update is not older than the creation.
    pub open spec fn wf(self) -> bool {
        self.created_at <= self.updated_at
    }

    /// Whether some annotation has identifier `id`.
    pub open spec fn has(self, id: u128) -> bool {
        index_of(self.annotations, id) < self.annotations.len()
    }

    /// The document after a mutation at clock reading `now`: the reading
    /// becomes the last-update time.
    pub open spec fn touched(self, now: i64) -> DocumentView {
        DocumentView { updated_at: stamped(self.created_at, now), ..self }
    }

    /// The document after `annotation` was added at clock reading `now`.
    pub open spec fn with_annotation(self, annotation: AnnotationView, now: i64) -> DocumentView {
        DocumentView { annotations: self.annotations.push(annotation), ..self.touched(now) }
    }

    /// The document after the first annotation with identifier `id` was
    /// removed at clock reading `now`; the document itself if there is none.
    pub open spec fn without(self, id: u128, now: i64) -> DocumentView {
        if self.has(id) {
            DocumentView {
                annotations: self.annotations.remove(index_of(self.annotations, id)),
                ..self.touched(now)
            }
        } else {
            self
        }
    }

    /// The document after the resolved flag of the first annotation with
    /// identifier `id` was flipped at clock reading `now`; the document
    /// itself if there is none.
    pub open spec fn toggled(self, id: u128, now: i64) -> DocumentView {
        if self.has(id) {
            let i = index_of(self.annotations, id);
            DocumentView {
                annotations: self.annotations.update(i, self.annotations[i].toggled()),
                ..self.touched(now)
            }
        } else {
            self
        }
    }

    /// The annotations in display order.
    pub open spec fn sorted(self) -> Seq<AnnotationView> {
        sorted_view(self.annotations)
    }
}

impl Document {
    /// A new document without annotations and without file information,
    /// under a fresh random identifier, created and last updated now.
    pub fn new(title: String, content: String) -> (doc: Self)
        ensures
            doc@.title == title@,
            doc@.content == content@,
            doc@.filename.is_none(),
            doc@.filepath.is_none(),
            doc@.annotations.len() == 0,
            doc@.created_at == doc@.updated_at,
            doc@.wf(),
            is_random_id(doc.id),
    {
        let now = now_micros();
        Document {
            id: fresh_id(),
            title,
            content,
            filename: None,
            filepath: None,
            annotations: Vec::new(),
            created_at: now,
            updated_at: now,
        }
    }

    /// Create a document with filename metadata, as when loading from a
    /// file.
    pub fn with_file_info(
        title: String,
        content: String,
        filepath: String,
        filename: String,
    ) -> (doc: Self)
        ensures
            doc@.title == title@,
            doc@.content == content@,
            doc@.filename == Some(filename@),
            doc@.filepath == Some(filepath@),
            doc@.annotations.len() == 0,
            doc@.created_at == doc@.updated_at,
            doc@.wf(),
            is_random_id(doc.id),
    {
        let mut doc = Self::new(title, content);
        doc.filepath = Some(filepath);
        doc.filename = Some(filename);
        doc
    }

    /// Puts a document together from its parts, as when one is read back
    /// from storage. A last-update time older than the creation time is
    /// raised to the creation time.
    pub fn from_parts(
        id: u128,
        title: String,
        content: String,
        filename: Option<String>,
        filepath: Option<String>,
        annotations: Vec<Annotation>,
        created_at: i64,
        updated_at: i64,
    ) -> (doc: Self)
        ensures
            doc@ == (DocumentView {
                id,
                title: title@,
                content: content@,
                filename: option_view(filename),
                filepath: option_view(filepath),
                annotations: annotation_views(annotations@),
                created_at,
                updated_at: stamped(created_at, updated_at),
            }),
            doc@.wf(),
    {
        Document {
            id,
            title,
            content,
            filename,
            filepath,
            annotations,
            created_at,
            updated_at: if updated_at >= created_at {
                updated_at
            } else {
                created_at
            },
        }
    }

    /// Create a document for the file at `filepath`, given the two parts of
    /// the path that name it: the file name, and the file name without its
    /// extension. The latter becomes the title; a path without one gives
    /// the title "Untitled".
    pub fn from_file_parts(
        filepath: &str,
        content: String,
        filename: Option<String>,
        stem: Option<String>,
    ) -> (doc: Self)
        ensures
            doc@.title == (match stem {
                Some(stem) => stem@,
                None => "Untitled"@,
            }),
            doc@.content == content@,
            doc@.filename == option_view(filename),
            doc@.filepath == Some(filepath@),
            doc@.annotations.len() == 0,
            doc@.created_at == doc@.updated_at,
            doc@.wf(),
            is_random_id(doc.id),
    {
        let title = match stem {
            Some(stem) => stem,
            None => "Untitled".to_owned(),
        };
        let mut doc = Self::new(title, content);
        doc.filepath = Some(filepath.to_owned());
        doc.filename = filename;
        doc
    }

    /// Create a document for the file at `filepath`, named after the last
    /// component of the path.
    pub fn from_file(filepath: &str, content: String) -> (doc: Self)
        ensures
            doc@.content == content@,
            doc@.filepath == Some(filepath@),
            doc@.annotations.len() == 0,
            doc@.created_at == doc@.updated_at,
            doc@.wf(),
            is_random_id(doc.id),
    {
        let filename = file_name_of(filepath);
        let stem = file_stem_of(filepath);
        Self::from_file_parts(filepath, content, filename, stem)
    }

    /// The number of whitespace-separated words in the content.
    pub fn word_count(&self) -> (n: usize)
        ensures
            n == word_count_of(self@.content),
    {
        count_words(self.content.as_str())
    }

    /// Records a mutation at clock reading `now`.
    fn touch(&mut self, now: i64)
        ensures
            final(self)@ == old(self)@.touched(now),
            final(self).annotations == old(self).annotations,
    {
        self.updated_at = if now >= self.created_at {
            now
        } else {
            self.created_at
        };
    }

    /// Appends `annotation` at clock reading `now`. Nothing is deduplicated:
    /// annotations may overlap or repeat.
    pub fn add_annotation_at(&mut self, annotation: Annotation, now: i64)
        ensures
            final(self)@ == old(self)@.with_annotation(annotation@, now),
    {
        self.annotations.push(annotation);
        self.touch(now);
        assert(final(self)@.annotations =~= old(self)@.annotations.push(annotation@));
    }

    /// Appends `annotation` and stamps the document with the current time.
    pub fn add_annotation(&mut self, annotation: Annotation)
        ensures
            exists|now: i64| final(self)@ == old(self)@.with_annotation(annotation@, now),
    {
        let now = now_micros();
        self.add_annotation_at(annotation, now);
    }

    /// The position of the first annotation with identifier `id`.
    pub fn position_of(&self, id: u128) -> (r: Option<usize>)
        ensures
            match r {
                Some(i) => self@.has(id) && i == index_of(self@.annotations, id),
                None => !self@.has(id),
            },
    {
        let mut i: usize = 0;
        while i < self.annotations.len()
            invariant
                0 <= i <= self.annotations@.len(),
                index_of(self@.annotations, id) == index_from(self@.annotations, id, i as int),
            decreases self.annotations@.len() - i,
        {
            if self.annotations[i].id == id {
                return Some(i);
            }
            i += 1;
        }
        None
    }

    /// Get annotations sorted by start offset. The sort is stable, so
    /// annotations that start at the same offset keep their stored order.
    pub fn annotations_sorted(&self) -> (r: Vec<&Annotation>)
        ensures
            r@.len() == self.annotations@.len(),
            borrowed_views(r@) == self@.sorted(),
            ascending(borrowed_views(r@)),
    {
        let ghost anns = self@.annotations;
        let mut sorted: Vec<&Annotation> = Vec::new();
        let mut i: usize = 0;
        while i < self.annotations.len()
            invariant
                0 <= i <= self.annotations@.len(),
                anns == self@.annotations,
                sorted@.len() == i,
                borrowed_views(sorted@) == sorted_view(anns.take(i as int)),
            decreases self.annotations@.len() - i,
        {
            let ann = &self.annotations[i];
            let key = ann.range.start_offset;
            let ghost before = borrowed_views(sorted@);
            let mut at: usize = sorted.len();
            assert(before.take(at as int) =~= before);
            while at > 0 && sorted[at - 1].range.start_offset > key
                invariant
                    0 <= at <= sorted@.len(),
                    before == borrowed_views(sorted@),
                    insert_index(before, key) == insert_index(before.take(at as int), key),
                decreases at,
            {
                assert(before.take(at as int).drop_last() =~= before.take(at - 1));
                at -= 1;
            }
            sorted.insert(at, ann);
            proof {
                assert(before.take(before.len() as int) =~= before);
                assert(anns.take(i + 1).drop_last() =~= anns.take(i as int));
                assert(anns.take(i + 1).last() == ann@);
                assert(borrowed_views(sorted@) =~= before.insert(at as int, ann@));
            }
            i += 1;
        }
        proof {
            assert(anns.take(i as int) =~= anns);
            lemma_sorted_view_ascends(anns);
        }
        sorted
    }

    /// Removes the first annotation with identifier `id` at clock reading
    /// `now` and returns it. An unknown identifier changes nothing.
    pub fn remove_annotation_at(&mut self, id: u128, now: i64) -> (r: Option<Annotation>)
        ensures
            final(self)@ == old(self)@.without(id, now),
            match r {
                Some(a) => old(self)@.has(id) && a@ == old(self)@.annotations[index_of(
                    old(self)@.annotations,
                    id,
                )],
                None => !old(self)@.has(id),
            },
    {
        match self.position_of(id) {
            Some(pos) => {
                self.touch(now);
                let removed = self.annotations.remove(pos);
                assert(final(self)@.annotations =~= old(self)@.annotations.remove(pos as int));
                Some(removed)
            },
            None => None,
        }
    }

    /// Removes the first annotation with identifier `id` and returns it,
    /// stamping the document with the current time. An unknown identifier
    /// changes nothing, the timestamp included.
    pub fn remove_annotation(&mut self, id: u128) -> (r: Option<Annotation>)
        ensures
            exists|now: i64| final(self)@ == old(self)@.without(id, now),
            match r {
                Some(a) => old(self)@.has(id) && a@ == old(self)@.annotations[index_of(
                    old(self)@.annotations,
                    id,
                )],
                None => !old(self)@.has(id) && final(self)@ == old(self)@,
            },
    {
        let now = now_micros();
        self.remove_annotation_at(id, now)
    }

    /// Flips the resolved flag of the first annotation with identifier `id`
    /// at clock reading `now`. Returns whether there was one.
    pub fn toggle_resolved_at(&mut self, id: u128, now: i64) -> (found: bool)
        ensures
            found == old(self)@.has(id),
            final(self)@ == old(self)@.toggled(id, now),
    {
        match self.position_of(id) {
            Some(pos) => {
                let mut ann = self.annotations.remove(pos);
                ann.is_resolved = !ann.is_resolved;
                self.annotations.insert(pos, ann);
                self.touch(now);
                assert(final(self)@.annotations =~= old(self)@.annotations.update(
                    pos as int,
                    old(self)@.annotations[pos as int].toggled(),
                ));
                true
            },
            None => false,
        }
    }

    /// Flips the resolved flag of the first annotation with identifier `id`
    /// and stamps the document with the current time. Returns whether there
    /// was one; if not, nothing changes.
    pub fn toggle_resolved(&mut self, id: u128) -> (found: bool)
        ensures
            found == old(self)@.has(id),
            exists|now: i64| final(self)@ == old(self)@.toggled(id, now),
            !found ==> final(self)@ == old(self)@,
    {
        let now = now_micros();
        self.toggle_resolved_at(id, now)
    }
}

/// What [`index_of`] finds: a position that holds `id` with no earlier
/// position holding it, or the length where no position holds it.
pub proof fn lemma_index_of(anns: Seq<AnnotationView>, id: u128)
    ensures
        0 <= index_of(anns, id) <= anns.len(),
        index_of(anns, id) < anns.len() ==> anns[index_of(anns, id)].id == id,
        forall|j: int| 0 <= j < index_of(anns, id) ==> anns[j].id != id,
{
    lemma_index_from(anns, id, 0);
}

proof fn lemma_index_from(anns: Seq<AnnotationView>, id: u128, from: int)
    requires
        0 <= from <= anns.len(),
    ensures
        from <= index_from(anns, id, from) <= anns.len(),
        index_from(anns, id, from) < anns.len() ==> anns[index_from(anns, id, from)].id == id,
        forall|j: int| from <= j < index_from(anns, id, from) ==> anns[j].id != id,
    decreases anns.len() - from,
{
    if from < anns.len() && anns[from].id != id {
        lemma_index_from(anns, id, from + 1);
    }
}

proof fn lemma_index_from_by_ids(
    a: Seq<AnnotationView>,
    b: Seq<AnnotationView>,
    id: u128,
    from: int,
)
    requires
        a.len() == b.len(),
        forall|i: int| 0 <= i < a.len() ==> a[i].id == b[i].id,
    ensures
        index_from(a, id, from) == index_from(b, id, from),
    decreases a.len() - from,
{
    if 0 <= from < a.len() && a[from].id != id {
        lemma_index_from_by_ids(a, b, id, from + 1);
    }
}

/// Removing an annotation by identifier takes exactly its entry out of the
/// display order: what is shown afterwards is what was shown before, minus
/// that entry and otherwise in the same order, and it still ascends. This
/// holds for every stored order.
pub proof fn lemma_remove_keeps_display_order(doc: DocumentView, id: u128, now: i64)
    requires
        doc.has(id),
    ensures
        ({
            let stored = index_of(doc.annotations, id);
            let shown = display_index(doc.annotations, stored);
            &&& 0 <= stored < doc.annotations.len()
            &&& 0 <= shown < doc.sorted().len()
            &&& doc.sorted()[shown] == doc.annotations[stored]
            &&& doc.without(id, now).sorted() == doc.sorted().remove(shown)
        }),
        ascending(doc.sorted()),
        ascending(doc.without(id, now).sorted()),
{
    let stored = index_of(doc.annotations, id);
    lemma_index_of(doc.annotations, id);
    lemma_display_index(doc.annotations, stored);
    lemma_sorted_view_remove(doc.annotations, stored);
    lemma_sorted_view_ascends(doc.annotations);
    lemma_sorted_view_ascends(doc.without(id, now).annotations);
}

/// Toggling the same annotation twice restores every annotation, the
/// resolved flag included, while each of the two toggles is recorded in the
/// last-update time: it holds the first reading after the first toggle and
/// the second reading after the second. In between, the flag of that
/// annotation is flipped and nothing else has changed.
pub proof fn lemma_toggle_twice(doc: DocumentView, id: u128, first: i64, second: i64)
    ensures
        doc.toggled(id, first).toggled(id, second).annotations == doc.annotations,
        doc.toggled(id, first).has(id) == doc.has(id),
        doc.has(id) ==> {
            let i = index_of(doc.annotations, id);
            let once = doc.toggled(id, first);
            let twice = once.toggled(id, second);
            &&& 0 <= i < doc.annotations.len()
            &&& once.annotations == doc.annotations.update(i, doc.annotations[i].toggled())
            &&& once.annotations[i].is_resolved != doc.annotations[i].is_resolved
            &&& once.updated_at == stamped(doc.created_at, first)
            &&& twice.updated_at == stamped(doc.created_at, second)
            &&& first >= doc.created_at ==> once.updated_at == first
            &&& second >= doc.created_at ==> twice.updated_at == second
            &&& twice == doc.touched(second)
        },
        !doc.has(id) ==> doc.toggled(id, first).toggled(id, second) == doc,
{
    lemma_index_of(doc.annotations, id);
    if doc.has(id) {
        let i = index_of(doc.annotations, id);
        let once = doc.toggled(id, first);
        lemma_index_from_by_ids(doc.annotations, once.annotations, id, 0);
        let twice = once.toggled(id, second);
        assert(twice.annotations =~= doc.annotations);
    }
}

/// Every mutation stores the clock reading as the last-update time, unless
/// the clock reads earlier than the creation; then it stores the creation
/// time. So the last update of a mutated document is never older than its
/// creation, and the creation time never changes.
pub proof fn lemma_mutations_stamp(
    doc: DocumentView,
    annotation: AnnotationView,
    id: u128,
    now: i64,
)
    ensures
        doc.with_annotation(annotation, now).updated_at == stamped(doc.created_at, now),
        doc.has(id) ==> doc.without(id, now).updated_at == stamped(doc.created_at, now),
        doc.has(id) ==> doc.toggled(id, now).updated_at == stamped(doc.created_at, now),
        now >= doc.created_at ==> stamped(doc.created_at, now) == now,
        doc.with_annotation(annotation, now).wf(),
        doc.has(id) || doc.wf() ==> doc.without(id, now).wf(),
        doc.has(id) || doc.wf() ==> doc.toggled(id, now).wf(),
        doc.with_annotation(annotation, now).created_at == doc.created_at,
        doc.without(id, now).created_at == doc.created_at,
        doc.toggled(id, now).created_at == doc.created_at,
{
}

} // verus!
