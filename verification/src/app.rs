//! The application state and the operations the interaction modes are built
//! from: cursor motion, selection, the annotation workflow and the sidebar.
//!
//! The state is one owned value. Its view, [`AppView`], is the mathematical
//! state; every operation is a function on views, and the executable
//! methods are proved to compute it.

use vstd::prelude::*;
use vstd::string::*;
use crate::actions::annotation_offset_by_index;
use crate::cursor::{CursorState, CursorView};
use crate::lines::{addressable, cursor_at, lemma_addressable, lines_of};
use crate::model::annotation::{Annotation, AnnotationView, Category, Severity};
use crate::model::document::{
    borrowed_views, index_of, lemma_index_of, lemma_remove_keeps_display_order, option_view,
    Document, DocumentView,
};
use crate::model::order::{
    display_index, lemma_display_index, lemma_display_index_onto, lemma_sorted_view_ascends,
    lemma_sorted_view_members, sorted_view,
};
use crate::model::text_range::TextRange;
use crate::motion::{
    bottom, down, left, lemma_motions_stay_addressable, right, up, word_back, word_forward,
};
use crate::stamp::{fresh_id, is_random_id, now_micros};
use crate::text::{char_slice, clamped_subrange};

verus! {

/// Application mode.
#[derive(Debug, Clone, Copy, PartialEq, Eq, Structural)]
pub enum Mode {
    Normal,
    Visual,
    Input,
    CategoryPicker,
    SeverityPicker,
    Help,
}

/// Focus area.
#[derive(Debug, Clone, Copy, PartialEq, Eq, Structural)]
pub enum Focus {
    Editor,
    Sidebar,
}

/// Input target for text input mode.
#[derive(Debug, Clone, Copy, PartialEq, Eq, Structural)]
pub enum InputTarget {
    Comment,
    FilePath,
}

/// Platform-agnostic application state.
pub struct App {
    pub document: Option<Document>,
    pub cursor: CursorState,
    pub mode: Mode,
    pub focus: Focus,
    pub running: bool,
    // Selection state, as (row, col) positions.
    pub selection_start: Option<(usize, usize)>,
    pub selection_end: Option<(usize, usize)>,
    // Sidebar state.
    pub sidebar_selected: usize,
    // Input state.
    pub input_buffer: String,
    pub input_target: InputTarget,
    // Picker state.
    pub category_selected: usize,
    pub severity_selected: usize,
    // Pending annotation (during creation workflow).
    pub pending_range: Option<TextRange>,
    pub pending_category: Option<Category>,
    pub pending_severity: Severity,
    // Status message.
    pub status_message: Option<String>,
}

/// The mathematical state of the application.
pub struct AppView {
    pub document: Option<DocumentView>,
    pub cursor: CursorView,
    pub mode: Mode,
    pub focus: Focus,
    pub running: bool,
    pub selection_start: Option<(int, int)>,
    pub selection_end: Option<(int, int)>,
    pub sidebar_selected: int,
    pub input_buffer: Seq<char>,
    pub input_target: InputTarget,
    pub category_selected: int,
    pub severity_selected: int,
    pub pending_range: Option<TextRange>,
    pub pending_category: Option<Category>,
    pub pending_severity: Severity,
    pub status_message: Option<Seq<char>>,
}

/// A position as a pair of mathematical integers.
pub open spec fn position_view(p: Option<(usize, usize)>) -> Option<(int, int)> {
    match p {
        Some(p) => Some((p.0 as int, p.1 as int)),
        None => None,
    }
}

/// The view of an optional document.
pub open spec fn document_view(d: Option<Document>) -> Option<DocumentView> {
    match d {
        Some(d) => Some(d@),
        None => None,
    }
}

impl View for App {
    type V = AppView;

    open spec fn view(&self) -> AppView {
        AppView {
            document: document_view(self.document),
            cursor: self.cursor@,
            mode: self.mode,
            focus: self.focus,
            running: self.running,
            selection_start: position_view(self.selection_start),
            selection_end: position_view(self.selection_end),
            sidebar_selected: self.sidebar_selected as int,
            input_buffer: self.input_buffer@,
            input_target: self.input_target,
            category_selected: self.category_selected as int,
            severity_selected: self.severity_selected as int,
            pending_range: self.pending_range,
            pending_category: self.pending_category,
            pending_severity: self.pending_severity,
            status_message: option_view(self.status_message),
        }
    }
}

/// The character sequences of a list of borrowed lines.
pub open spec fn borrowed_lines(lines: Seq<&str>) -> Seq<Seq<char>> {
    Seq::new(lines.len(), |i: int| lines[i]@)
}

/// The number of choices of the category picker: no category, or one of
/// the categories.
pub open spec fn category_choices() -> int {
    (Category::all_spec().len() + 1) as int
}

/// The number of choices of the severity picker.
pub open spec fn severity_choices() -> int {
    Severity::all_spec().len() as int
}

/// The range between two offsets that the machine can hold.
pub open spec fn range_between(a: int, b: int) -> TextRange
    recommends
        0 <= a <= usize::MAX,
        0 <= b <= usize::MAX,
{
    TextRange::spanning(a as usize, b as usize)
}

impl AppView {
    /// The state in which every application starts: no document, an empty
    /// text, normal mode, the editor focused, and the pickers on their
    /// defaults.
    pub open spec fn initial() -> AppView {
        AppView {
            document: None,
            cursor: CursorView::over(Seq::empty()),
            mode: Mode::Normal,
            focus: Focus::Editor,
            running: true,
            selection_start: None,
            selection_end: None,
            sidebar_selected: 0,
            input_buffer: Seq::empty(),
            input_target: InputTarget::Comment,
            category_selected: 0,
            severity_selected: 1,
            pending_range: None,
            pending_category: None,
            pending_severity: Severity::ShouldFix,
            status_message: None,
        }
    }

    /// The text that the cursor moves over: the content of the document, or
    /// the empty text while there is none.
    pub open spec fn text(self) -> Seq<char> {
        match self.document {
            Some(d) => d.content,
            None => Seq::empty(),
        }
    }

    /// The stored annotations; none while there is no document.
    pub open spec fn annotations(self) -> Seq<AnnotationView> {
        match self.document {
            Some(d) => d.annotations,
            None => Seq::empty(),
        }
    }

    /// The annotations in display order.
    pub open spec fn shown(self) -> Seq<AnnotationView> {
        sorted_view(self.annotations())
    }

    /// What holds of every state the operations of this module reach.
    ///
    /// The cursor tables fit together; the cursor and both ends of a
    /// selection can be turned into offsets that the machine can hold; the
    /// pickers point at one of their choices; the sidebar points at an
    /// annotation, or at 0 when there is none; and a pending range is not
    /// empty.
    pub open spec fn wf(self) -> bool {
        &&& self.cursor.wf()
        &&& addressable(self.cursor.starts, self.cursor.pos, usize::MAX as int)
        &&& match self.selection_start {
            Some(p) => addressable(self.cursor.starts, p, usize::MAX as int),
            None => true,
        }
        &&& match self.selection_end {
            Some(p) => addressable(self.cursor.starts, p, usize::MAX as int),
            None => true,
        }
        &&& 0 <= self.category_selected < category_choices()
        &&& 0 <= self.severity_selected < severity_choices()
        &&& 0 <= self.sidebar_selected
        &&& (self.sidebar_selected == 0 || self.sidebar_selected < self.annotations().len())
        &&& match self.pending_range {
            Some(range) => range.start_offset < range.end_offset,
            None => true,
        }
    }

    /// The cursor moves over the text of the document: its tables are those
    /// of the content, or of the empty text while no document is loaded.
    pub open spec fn in_sync(self) -> bool {
        &&& self.cursor.starts == CursorView::over(self.text()).starts
        &&& self.cursor.lines == CursorView::over(self.text()).lines
        &&& self.cursor.total == CursorView::over(self.text()).total
    }

    /// The state with the status message set to `message`.
    pub open spec fn with_status(self, message: Seq<char>) -> AppView {
        AppView { status_message: Some(message), ..self }
    }

    /// The state without a status message.
    pub open spec fn without_status(self) -> AppView {
        AppView { status_message: None, ..self }
    }

    /// The state with the cursor at `pos`.
    pub open spec fn moved_to(self, pos: (int, int)) -> AppView {
        AppView { cursor: self.cursor.at(pos), ..self }
    }

    /// The state after the cursor went one row up.
    pub open spec fn moved_up(self) -> AppView {
        self.moved_to(up(self.cursor.lines, self.cursor.pos))
    }

    /// The state after the cursor went one row down.
    pub open spec fn moved_down(self) -> AppView {
        self.moved_to(down(self.cursor.lines, self.cursor.pos))
    }

    /// The state after the cursor went one column left.
    pub open spec fn moved_left(self) -> AppView {
        self.moved_to(left(self.cursor.lines, self.cursor.pos))
    }

    /// The state after the cursor went one column right.
    pub open spec fn moved_right(self) -> AppView {
        self.moved_to(right(self.cursor.lines, self.cursor.pos))
    }

    /// The state after the cursor went to the start of the text.
    pub open spec fn moved_to_top(self) -> AppView {
        self.moved_to((0, 0))
    }

    /// The state after the cursor went to the start of the last line.
    pub open spec fn moved_to_bottom(self) -> AppView {
        self.moved_to(bottom(self.cursor.lines, self.cursor.pos))
    }

    /// The state after the cursor went to the start of the next word.
    pub open spec fn moved_word_forward(self) -> AppView {
        self.moved_to(word_forward(self.cursor.lines, self.cursor.pos))
    }

    /// The state after the cursor went back to the start of a word.
    pub open spec fn moved_word_back(self) -> AppView {
        self.moved_to(word_back(self.cursor.lines, self.cursor.pos))
    }

    /// The state after the cursor went to where `offset` lies.
    pub open spec fn moved_to_offset(self, offset: int) -> AppView {
        self.moved_to(cursor_at(self.cursor.starts, offset))
    }

    /// The state after `doc` was loaded: the document replaces any earlier
    /// one, the cursor stands at the start of its text, and selection and
    /// sidebar are back at their initial values.
    pub open spec fn loaded(self, doc: DocumentView) -> AppView {
        AppView {
            document: Some(doc),
            cursor: CursorView::over(doc.content),
            selection_start: None,
            selection_end: None,
            sidebar_selected: 0,
            ..self
        }
    }

    /// The state after selection began: both ends at the cursor.
    pub open spec fn entered_visual(self) -> AppView {
        AppView {
            mode: Mode::Visual,
            selection_start: Some(self.cursor.pos),
            selection_end: Some(self.cursor.pos),
            ..self
        }
    }

    /// The offsets of the two ends of the selection, while something is
    /// being selected.
    pub open spec fn selection_offsets(self) -> Option<(int, int)> {
        if self.mode == Mode::Visual && self.selection_start.is_some()
            && self.selection_end.is_some() {
            Some(
                (
                    self.cursor.offset(self.selection_start.unwrap()),
                    self.cursor.offset(self.selection_end.unwrap()),
                ),
            )
        } else {
            None
        }
    }

    /// The range that the selection covers, if it covers anything: the
    /// range between the offsets of its two ends, unless they coincide.
    pub open spec fn selected_range(self) -> Option<TextRange> {
        match self.selection_offsets() {
            Some((a, b)) => if a != b {
                Some(range_between(a, b))
            } else {
                None
            },
            None => None,
        }
    }

    /// The span to highlight while selecting: the offsets of the two ends
    /// of the selection in ascending order.
    pub open spec fn highlight(self) -> Option<(int, int)> {
        match self.selection_offsets() {
            Some((a, b)) => if a <= b {
                Some((a, b))
            } else {
                Some((b, a))
            },
            None => None,
        }
    }

    /// The state after selection ended: back in normal mode without a
    /// selection. A state in which nothing is being selected stays as it
    /// is.
    pub open spec fn exited_visual(self) -> AppView {
        if self.selection_offsets().is_some() {
            AppView { mode: Mode::Normal, selection_start: None, selection_end: None, ..self }
        } else {
            self
        }
    }

    /// The state after the cursor moved during selection: the far end of
    /// the selection follows the cursor.
    pub open spec fn updated_selection(self) -> AppView {
        if self.mode == Mode::Visual {
            AppView { selection_end: Some(self.cursor.pos), ..self }
        } else {
            self
        }
    }

    /// The state after annotation of the selection began: the selection
    /// has ended, and if it covered anything its range is pending and the
    /// severity picker is open.
    pub open spec fn started_annotation(self) -> AppView {
        match self.selected_range() {
            Some(range) => AppView {
                pending_range: Some(range),
                mode: Mode::SeverityPicker,
                ..self.exited_visual()
            },
            None => self.exited_visual(),
        }
    }

    /// Whether the annotation workflow can be completed: a range is
    /// pending, a document is loaded and a comment was typed.
    pub open spec fn can_complete(self) -> bool {
        &&& self.pending_range.is_some()
        &&& self.document.is_some()
        &&& self.input_buffer.len() > 0
    }

    /// The annotation that completing the workflow makes under identifier
    /// `id`: over the pending range, with the text that the range covers
    /// (as far as the content reaches), the pending category and severity,
    /// and the input buffer as comment.
    pub open spec fn pending_annotation(self, id: u128) -> AnnotationView
        recommends
            self.can_complete(),
    {
        let range = self.pending_range.unwrap();
        AnnotationView {
            id,
            range,
            selected_text: clamped_subrange(
                self.text(),
                range.start_offset as int,
                range.end_offset as int,
            ),
            category: self.pending_category,
            severity: self.pending_severity,
            comment: self.input_buffer,
            is_resolved: false,
        }
    }

    /// The state after the annotation workflow was completed under
    /// identifier `id` at clock reading `now`. Where it cannot be
    /// completed, nothing changes.
    pub open spec fn completed(self, id: u128, now: i64) -> AppView {
        if self.can_complete() {
            AppView {
                document: Some(
                    self.document.unwrap().with_annotation(self.pending_annotation(id), now),
                ),
                input_buffer: Seq::empty(),
                pending_range: None,
                pending_category: None,
                pending_severity: Severity::ShouldFix,
                mode: Mode::Normal,
                status_message: Some("Annotation added"@),
                ..self
            }
        } else {
            self
        }
    }

    /// The annotation the sidebar points at.
    pub open spec fn selected(self) -> Option<AnnotationView> {
        if 0 <= self.sidebar_selected < self.shown().len() {
            Some(self.shown()[self.sidebar_selected])
        } else {
            None
        }
    }

    /// The state after the sidebar went to entry `index`: the sidebar
    /// points at it, and the cursor stands where that annotation starts.
    pub open spec fn at_annotation(self, index: int) -> AppView {
        let there = AppView { sidebar_selected: index, ..self };
        if 0 <= index < self.shown().len() {
            there.moved_to_offset(self.shown()[index].range.start_offset as int)
        } else {
            there
        }
    }

    /// The state after the sidebar went one entry down, from the last to
    /// the first.
    pub open spec fn next_annotation(self) -> AppView {
        let count = self.annotations().len() as int;
        if count > 0 {
            self.at_annotation((self.sidebar_selected + 1) % count)
        } else {
            self
        }
    }

    /// The state after the sidebar went one entry up, from the first to the
    /// last.
    pub open spec fn prev_annotation(self) -> AppView {
        let count = self.annotations().len() as int;
        if count > 0 {
            self.at_annotation(
                if self.sidebar_selected == 0 {
                    count - 1
                } else {
                    self.sidebar_selected - 1
                },
            )
        } else {
            self
        }
    }

    /// The state after the annotation the sidebar points at was deleted at
    /// clock reading `now`. The sidebar keeps its index, goes to the new
    /// last entry if it pointed at the last, and to 0 if nothing is left.
    /// Where the sidebar points at nothing, nothing changes.
    pub open spec fn deleted_selected(self, now: i64) -> AppView {
        match self.selected() {
            Some(a) => {
                let doc = self.document.unwrap().without(a.id, now);
                let count = doc.annotations.len() as int;
                AppView {
                    document: Some(doc),
                    sidebar_selected: if count == 0 {
                        0
                    } else if self.sidebar_selected >= count {
                        count - 1
                    } else {
                        self.sidebar_selected
                    },
                    status_message: Some("Annotation deleted"@),
                    ..self
                }
            },
            None => self,
        }
    }

    /// The state after the resolved flag of the annotation the sidebar
    /// points at was flipped at clock reading `now`. Where the sidebar
    /// points at nothing, nothing changes.
    pub open spec fn toggled_selected(self, now: i64) -> AppView {
        match self.selected() {
            Some(a) => AppView {
                document: Some(self.document.unwrap().toggled(a.id, now)),
                status_message: Some("Toggled resolved status"@),
                ..self
            },
            None => self,
        }
    }

    /// The state with the focus on the other area.
    pub open spec fn toggled_focus(self) -> AppView {
        AppView {
            focus: match self.focus {
                Focus::Editor => Focus::Sidebar,
                Focus::Sidebar => Focus::Editor,
            },
            ..self
        }
    }

    /// The title to display: the file name of the document, or "Untitled".
    pub open spec fn title(self) -> Seq<char> {
        match self.document {
            Some(d) => match d.filename {
                Some(name) => name,
                None => "Untitled"@,
            },
            None => "Untitled"@,
        }
    }
}

/// Every motion keeps a well-formed state well-formed.
pub proof fn lemma_moves_keep_wf(v: AppView)
    requires
        v.wf(),
    ensures
        v.moved_up().wf(),
        v.moved_down().wf(),
        v.moved_left().wf(),
        v.moved_right().wf(),
        v.moved_to_top().wf(),
        v.moved_to_bottom().wf(),
        v.moved_word_forward().wf(),
        v.moved_word_back().wf(),
        forall|offset: int|
            0 <= offset <= usize::MAX ==> (#[trigger] v.moved_to_offset(offset)).wf(),
{
    lemma_motions_stay_addressable(
        v.cursor.starts,
        v.cursor.lines,
        v.cursor.total,
        v.cursor.pos,
        usize::MAX as int,
    );
    assert forall|offset: int| 0 <= offset <= usize::MAX implies (#[trigger] v.moved_to_offset(
        offset,
    )).wf() by {
        lemma_addressable(v.cursor.starts, v.cursor.lines, v.cursor.total, (0, 0), offset);
    }
}

/// The range of a selection never runs backwards and is never empty, and it
/// does not depend on which end the selection started from. A selection
/// whose two ends coincide covers nothing: ending it for annotation leaves
/// no pending range and opens no picker.
pub proof fn lemma_selected_range(v: AppView)
    requires
        v.wf(),
    ensures
        match v.selected_range() {
            Some(range) => range.start_offset < range.end_offset,
            None => true,
        },
        v.selected_range() == (AppView {
            selection_start: v.selection_end,
            selection_end: v.selection_start,
            ..v
        }).selected_range(),
        v.selection_start == v.selection_end ==> v.selected_range().is_none()
            && v.started_annotation() == v.exited_visual(),
        v.started_annotation().wf(),
{
}

/// Completing the workflow adds exactly one annotation, and that
/// annotation covers at least one offset.
pub proof fn lemma_completed_adds_one(v: AppView, id: u128, now: i64)
    requires
        v.wf(),
        v.can_complete(),
    ensures
        v.completed(id, now).annotations() == v.annotations().push(v.pending_annotation(id)),
        !v.pending_annotation(id).range.is_empty(),
        v.pending_annotation(id).selected_text.len() <= v.pending_annotation(id).range.end_offset
            - v.pending_annotation(id).range.start_offset,
        v.completed(id, now).wf(),
{
}

/// Deleting leaves the sidebar on a valid entry: on the entry that took the
/// place of the deleted one, on the new last entry if the last was
/// deleted, and on 0 if nothing is left.
pub proof fn lemma_delete_keeps_sidebar(v: AppView, now: i64)
    requires
        v.wf(),
        v.selected().is_some(),
    ensures
        ({
            let after = v.deleted_selected(now);
            let count = after.shown().len() as int;
            &&& count == v.shown().len() - 1
            &&& after.sidebar_selected == if count == 0 {
                0
            } else if v.sidebar_selected == count {
                count - 1
            } else {
                v.sidebar_selected
            }
            &&& after.wf()
        }),
{
    let anns = v.annotations();
    let id = v.selected().unwrap().id;
    lemma_sorted_view_ascends(anns);
    lemma_sorted_view_members(anns, v.sidebar_selected);
    lemma_index_of(anns, id);
    lemma_sorted_view_ascends(v.deleted_selected(now).annotations());
}

/// Whether exactly one stored annotation has the identifier `id`.
pub open spec fn occurs_once(anns: Seq<AnnotationView>, id: u128) -> bool {
    &&& exists|p: int| 0 <= p < anns.len() && anns[p].id == id
    &&& forall|p: int, q: int|
        0 <= p < anns.len() && 0 <= q < anns.len() && anns[p].id == id && anns[q].id == id ==> p
            == q
}

/// Deleting while the sidebar is on the last shown entry: the sidebar goes
/// to the new last entry, or to 0 if nothing is left. What leaves the list
/// is the entry of the first stored annotation that has the identifier of
/// the selected one; where no other annotation shares that identifier this
/// is the last shown entry itself, and all entries before it stay as they
/// are.
pub proof fn lemma_delete_last_shown(v: AppView, now: i64)
    requires
        v.wf(),
        v.selected().is_some(),
        v.sidebar_selected == v.shown().len() - 1,
    ensures
        ({
            let after = v.deleted_selected(now);
            let id = v.selected().unwrap().id;
            let gone = display_index(v.annotations(), index_of(v.annotations(), id));
            &&& after.sidebar_selected == if v.shown().len() == 1 {
                0
            } else {
                v.shown().len() - 2
            }
            &&& 0 <= gone < v.shown().len()
            &&& v.shown()[gone].id == id
            &&& after.shown() == v.shown().remove(gone)
            &&& occurs_once(v.annotations(), id) ==> gone == v.shown().len() - 1 && after.shown()
                == v.shown().drop_last()
        }),
{
    let anns = v.annotations();
    let shown = v.shown();
    let last = shown.len() - 1;
    let id = v.selected().unwrap().id;
    lemma_sorted_view_ascends(anns);
    lemma_sorted_view_members(anns, last);
    lemma_index_of(anns, id);
    let first = index_of(anns, id);
    lemma_remove_keeps_display_order(v.document.unwrap(), id, now);
    if occurs_once(anns, id) {
        let p = lemma_display_index_onto(anns, last);
        lemma_display_index(anns, p);
        assert(anns[p].id == id);
        assert(p == first);
        assert(shown.remove(last) =~= shown.drop_last());
    }
}

impl App {
    /// The application in its initial state.
    pub fn new() -> (app: Self)
        ensures
            app@ == AppView::initial(),
            app@.wf(),
            app@.in_sync(),
    {
        let app = App {
            document: None,
            cursor: CursorState::new(),
            mode: Mode::Normal,
            focus: Focus::Editor,
            running: true,
            selection_start: None,
            selection_end: None,
            sidebar_selected: 0,
            input_buffer: String::new(),
            input_target: InputTarget::Comment,
            category_selected: 0,
            // Default to ShouldFix.
            severity_selected: 1,
            pending_range: None,
            pending_category: None,
            pending_severity: Severity::ShouldFix,
            status_message: None,
        };
        proof {
            lemma_addressable(
                app@.cursor.starts,
                app@.cursor.lines,
                app@.cursor.total,
                (0, 0),
                0,
            );
        }
        app
    }

    /// Whether the state is well-formed. Every state that this module
    /// makes is; the test is for states whose fields were set from outside.
    pub fn is_valid(&self) -> (ok: bool)
        ensures
            ok == self@.wf(),
    {
        proof {
            use_type_invariant(&self.cursor.index);
        }
        let count = match &self.document {
            Some(doc) => doc.annotations.len(),
            None => 0,
        };
        let start_ok = match self.selection_start {
            Some(p) => self.cursor.index.addresses(p.0, p.1),
            None => true,
        };
        let end_ok = match self.selection_end {
            Some(p) => self.cursor.index.addresses(p.0, p.1),
            None => true,
        };
        let range_ok = match self.pending_range {
            Some(range) => range.start_offset < range.end_offset,
            None => true,
        };
        self.cursor.index.addresses(self.cursor.row, self.cursor.col) && start_ok && end_ok
            && self.category_selected < Category::all().len() + 1 && self.severity_selected
            < Severity::all().len() && (self.sidebar_selected == 0 || self.sidebar_selected < count)
            && range_ok
    }

    /// Loads `doc`, replacing any earlier document. The cursor returns to
    /// the start of the text; selection and sidebar are reset.
    pub fn load_document(&mut self, doc: Document)
        requires
            old(self)@.wf(),
        ensures
            final(self)@ == old(self)@.loaded(doc@),
            final(self)@.wf(),
            final(self)@.in_sync(),
    {
        self.cursor.set_content(doc.content.as_str());
        self.document = Some(doc);
        self.selection_start = None;
        self.selection_end = None;
        self.sidebar_selected = 0;
        proof {
            lemma_addressable(
                self@.cursor.starts,
                self@.cursor.lines,
                self@.cursor.total,
                (0, 0),
                0,
            );
        }
    }

    /// Get cursor position as (row, col).
    pub fn cursor_pos(&self) -> (r: (usize, usize))
        ensures
            (r.0 as int, r.1 as int) == self@.cursor.pos,
    {
        self.cursor.cursor()
    }

    /// Convert (row, col) to character offset.
    pub fn cursor_to_offset(&self, row: usize, col: usize) -> (offset: usize)
        requires
            self@.cursor.offset((row as int, col as int)) <= usize::MAX,
        ensures
            offset == self@.cursor.offset((row as int, col as int)),
    {
        self.cursor.cursor_to_offset(row, col)
    }

    /// Convert character offset to (row, col).
    pub fn offset_to_cursor(&self, offset: usize) -> (r: (usize, usize))
        ensures
            (r.0 as int, r.1 as int) == cursor_at(self@.cursor.starts, offset as int),
    {
        self.cursor.offset_to_cursor(offset)
    }

    /// Set cursor to character offset.
    pub fn set_cursor_offset(&mut self, offset: usize)
        requires
            old(self)@.wf(),
        ensures
            final(self)@ == old(self)@.moved_to_offset(offset as int),
            final(self)@.wf(),
    {
        proof {
            lemma_moves_keep_wf(self@);
        }
        self.cursor.set_cursor_offset(offset);
    }

    pub fn move_up(&mut self)
        requires
            old(self)@.wf(),
        ensures
            final(self)@ == old(self)@.moved_up(),
            final(self)@.wf(),
    {
        proof {
            lemma_moves_keep_wf(self@);
        }
        self.cursor.move_up();
    }

    pub fn move_down(&mut self)
        requires
            old(self)@.wf(),
        ensures
            final(self)@ == old(self)@.moved_down(),
            final(self)@.wf(),
    {
        proof {
            lemma_moves_keep_wf(self@);
        }
        self.cursor.move_down();
    }

    pub fn move_left(&mut self)
        requires
            old(self)@.wf(),
        ensures
            final(self)@ == old(self)@.moved_left(),
            final(self)@.wf(),
    {
        proof {
            lemma_moves_keep_wf(self@);
        }
        self.cursor.move_left();
    }

    pub fn move_right(&mut self)
        requires
            old(self)@.wf(),
        ensures
            final(self)@ == old(self)@.moved_right(),
            final(self)@.wf(),
    {
        proof {
            lemma_moves_keep_wf(self@);
        }
        self.cursor.move_right();
    }

    pub fn move_to_top(&mut self)
        requires
            old(self)@.wf(),
        ensures
            final(self)@ == old(self)@.moved_to_top(),
            final(self)@.wf(),
    {
        proof {
            lemma_moves_keep_wf(self@);
        }
        self.cursor.move_to_top();
    }

    pub fn move_to_bottom(&mut self)
        requires
            old(self)@.wf(),
        ensures
            final(self)@ == old(self)@.moved_to_bottom(),
            final(self)@.wf(),
    {
        proof {
            lemma_moves_keep_wf(self@);
        }
        self.cursor.move_to_bottom();
    }

    pub fn move_word_forward(&mut self)
        requires
            old(self)@.wf(),
        ensures
            final(self)@ == old(self)@.moved_word_forward(),
            final(self)@.wf(),
    {
        proof {
            lemma_moves_keep_wf(self@);
        }
        self.cursor.move_word_forward();
    }

    pub fn move_word_back(&mut self)
        requires
            old(self)@.wf(),
        ensures
            final(self)@ == old(self)@.moved_word_back(),
            final(self)@.wf(),
    {
        proof {
            lemma_moves_keep_wf(self@);
        }
        self.cursor.move_word_back();
    }

    /// Enter visual/selection mode.
    pub fn enter_visual_mode(&mut self)
        requires
            old(self)@.wf(),
        ensures
            final(self)@ == old(self)@.entered_visual(),
            final(self)@.wf(),
    {
        self.mode = Mode::Visual;
        let cursor = self.cursor.cursor();
        self.selection_start = Some(cursor);
        self.selection_end = Some(cursor);
    }

    /// Exit visual mode and get selection range. A selection whose two
    /// ends have the same offset covers nothing and gives no range.
    pub fn exit_visual_mode(&mut self) -> (r: Option<TextRange>)
        requires
            old(self)@.wf(),
        ensures
            r == old(self)@.selected_range(),
            final(self)@ == old(self)@.exited_visual(),
            final(self)@.wf(),
            match r {
                Some(range) => range.start_offset < range.end_offset,
                None => true,
            },
    {
        if self.mode != Mode::Visual {
            return None;
        }
        let start = match self.selection_start {
            Some(p) => p,
            None => {
                return None;
            },
        };
        let end = match self.selection_end {
            Some(p) => p,
            None => {
                return None;
            },
        };
        let start_offset = self.cursor.cursor_to_offset(start.0, start.1);
        let end_offset = self.cursor.cursor_to_offset(end.0, end.1);

        self.mode = Mode::Normal;
        self.selection_start = None;
        self.selection_end = None;

        if start_offset != end_offset {
            Some(TextRange::new(start_offset, end_offset))
        } else {
            None
        }
    }

    /// Update selection end position.
    pub fn update_selection(&mut self)
        requires
            old(self)@.wf(),
        ensures
            final(self)@ == old(self)@.updated_selection(),
            final(self)@.wf(),
    {
        if self.mode == Mode::Visual {
            self.selection_end = Some(self.cursor.cursor());
        }
    }

    /// Get selection range for highlighting.
    pub fn get_selection_range(&self) -> (r: Option<(usize, usize)>)
        requires
            self@.wf(),
        ensures
            position_view(r) == self@.highlight(),
    {
        if self.mode != Mode::Visual {
            return None;
        }
        let start = match self.selection_start {
            Some(p) => p,
            None => {
                return None;
            },
        };
        let end = match self.selection_end {
            Some(p) => p,
            None => {
                return None;
            },
        };
        let start_offset = self.cursor.cursor_to_offset(start.0, start.1);
        let end_offset = self.cursor.cursor_to_offset(end.0, end.1);
        if start_offset <= end_offset {
            Some((start_offset, end_offset))
        } else {
            Some((end_offset, start_offset))
        }
    }

    /// Start annotation creation workflow.
    pub fn start_annotation(&mut self)
        requires
            old(self)@.wf(),
        ensures
            final(self)@ == old(self)@.started_annotation(),
            final(self)@.wf(),
    {
        match self.exit_visual_mode() {
            Some(range) => {
                self.pending_range = Some(range);
                self.mode = Mode::SeverityPicker;
            },
            None => {},
        }
    }

    /// Complete annotation creation under identifier `id` at clock reading
    /// `now`. Fails, changing nothing, unless a range is pending, a
    /// document is loaded and a comment was typed.
    pub fn complete_annotation_with(&mut self, id: u128, now: i64) -> (ok: bool)
        requires
            old(self)@.wf(),
        ensures
            ok == old(self)@.can_complete(),
            final(self)@ == old(self)@.completed(id, now),
            final(self)@.wf(),
    {
        if self.input_buffer.as_str().is_empty() {
            return false;
        }
        let range = match self.pending_range {
            Some(r) => r,
            None => {
                return false;
            },
        };
        match &mut self.document {
            Some(doc) => {
                let selected_text = char_slice(
                    doc.content.as_str(),
                    range.start_offset,
                    range.end_offset,
                );
                let annotation = Annotation {
                    id,
                    range,
                    selected_text,
                    category: self.pending_category,
                    severity: self.pending_severity,
                    comment: self.input_buffer.clone(),
                    is_resolved: false,
                };
                doc.add_annotation_at(annotation, now);
            },
            None => {
                return false;
            },
        }
        // Reset state.
        self.input_buffer.clear();
        self.pending_range = None;
        self.pending_category = None;
        self.pending_severity = Severity::ShouldFix;
        self.mode = Mode::Normal;
        self.set_status("Annotation added");
        true
    }

    /// Complete annotation creation under a fresh identifier, stamped with
    /// the current time.
    pub fn complete_annotation(&mut self) -> (ok: bool)
        requires
            old(self)@.wf(),
        ensures
            ok == old(self)@.can_complete(),
            exists|id: u128, now: i64|
                is_random_id(id) && final(self)@ == old(self)@.completed(id, now),
            final(self)@.wf(),
    {
        let id = fresh_id();
        let now = now_micros();
        self.complete_annotation_with(id, now)
    }

    /// Get currently selected annotation.
    pub fn selected_annotation(&self) -> (r: Option<&Annotation>)
        ensures
            match r {
                Some(a) => self@.selected() == Some(a@),
                None => self@.selected().is_none(),
            },
    {
        match &self.document {
            Some(doc) => {
                let sorted = doc.annotations_sorted();
                if self.sidebar_selected < sorted.len() {
                    assert(borrowed_views(sorted@)[self.sidebar_selected as int]
                        == sorted@[self.sidebar_selected as int]@);
                    Some(sorted[self.sidebar_selected])
                } else {
                    None
                }
            },
            None => None,
        }
    }

    /// Moves the sidebar to entry `index` and the cursor to the start of
    /// that annotation.
    fn go_to_annotation(&mut self, index: usize)
        requires
            old(self)@.wf(),
            index < old(self)@.annotations().len(),
        ensures
            final(self)@ == old(self)@.at_annotation(index as int),
            final(self)@.wf(),
    {
        proof {
            lemma_sorted_view_ascends(self@.annotations());
        }
        self.sidebar_selected = index;
        let target = match &self.document {
            Some(doc) => annotation_offset_by_index(doc, index),
            None => None,
        };
        match target {
            Some(offset) => {
                proof {
                    lemma_addressable(
                        self@.cursor.starts,
                        self@.cursor.lines,
                        self@.cursor.total,
                        (0, 0),
                        offset as int,
                    );
                }
                self.cursor.set_cursor_offset(offset);
            },
            None => {},
        }
    }

    /// Navigate to next annotation.
    pub fn next_annotation(&mut self)
        requires
            old(self)@.wf(),
        ensures
            final(self)@ == old(self)@.next_annotation(),
            final(self)@.wf(),
    {
        let count = match &self.document {
            Some(doc) => doc.annotations.len(),
            None => 0,
        };
        if count > 0 {
            let next = (self.sidebar_selected + 1) % count;
            self.go_to_annotation(next);
        }
    }

    /// Navigate to previous annotation.
    pub fn prev_annotation(&mut self)
        requires
            old(self)@.wf(),
        ensures
            final(self)@ == old(self)@.prev_annotation(),
            final(self)@.wf(),
    {
        let count = match &self.document {
            Some(doc) => doc.annotations.len(),
            None => 0,
        };
        if count > 0 {
            let prev = if self.sidebar_selected == 0 {
                count - 1
            } else {
                self.sidebar_selected - 1
            };
            self.go_to_annotation(prev);
        }
    }

    /// Delete selected annotation at clock reading `now`. Returns whether
    /// the sidebar pointed at one.
    pub fn delete_selected_annotation_at(&mut self, now: i64) -> (ok: bool)
        requires
            old(self)@.wf(),
        ensures
            ok == old(self)@.selected().is_some(),
            final(self)@ == old(self)@.deleted_selected(now),
            final(self)@.wf(),
    {
        let id = match self.selected_annotation() {
            Some(a) => a.id,
            None => {
                return false;
            },
        };
        match &mut self.document {
            Some(doc) => {
                proof {
                    lemma_sorted_view_ascends(doc@.annotations);
                    lemma_sorted_view_members(doc@.annotations, self.sidebar_selected as int);
                    lemma_index_of(doc@.annotations, id);
                }
                let removed = doc.remove_annotation_at(id, now);
                // Adjust selection if needed.
                let count = doc.annotations.len();
                if count == 0 {
                    self.sidebar_selected = 0;
                } else if self.sidebar_selected >= count {
                    self.sidebar_selected = count - 1;
                }
            },
            None => {
                return false;
            },
        }
        self.set_status("Annotation deleted");
        true
    }

    /// Delete selected annotation, stamping the document with the current
    /// time.
    pub fn delete_selected_annotation(&mut self) -> (ok: bool)
        requires
            old(self)@.wf(),
        ensures
            ok == old(self)@.selected().is_some(),
            exists|now: i64| final(self)@ == old(self)@.deleted_selected(now),
            final(self)@.wf(),
    {
        let now = now_micros();
        self.delete_selected_annotation_at(now)
    }

    /// Toggle resolved status of selected annotation at clock reading
    /// `now`. Returns whether the sidebar pointed at one.
    pub fn toggle_selected_resolved_at(&mut self, now: i64) -> (ok: bool)
        requires
            old(self)@.wf(),
        ensures
            ok == old(self)@.selected().is_some(),
            final(self)@ == old(self)@.toggled_selected(now),
            final(self)@.wf(),
    {
        let id = match self.selected_annotation() {
            Some(a) => a.id,
            None => {
                return false;
            },
        };
        match &mut self.document {
            Some(doc) => {
                proof {
                    lemma_index_of(doc@.annotations, id);
                }
                doc.toggle_resolved_at(id, now);
            },
            None => {
                return false;
            },
        }
        self.set_status("Toggled resolved status");
        true
    }

    /// Toggle resolved status of selected annotation, stamping the
    /// document with the current time.
    pub fn toggle_selected_resolved(&mut self) -> (ok: bool)
        requires
            old(self)@.wf(),
        ensures
            ok == old(self)@.selected().is_some(),
            exists|now: i64| final(self)@ == old(self)@.toggled_selected(now),
            final(self)@.wf(),
    {
        let now = now_micros();
        self.toggle_selected_resolved_at(now)
    }

    /// Set status message.
    pub fn set_status(&mut self, msg: &str)
        ensures
            final(self)@ == old(self)@.with_status(msg@),
    {
        self.status_message = Some(msg.to_owned());
    }

    /// Clear status message.
    pub fn clear_status(&mut self)
        ensures
            final(self)@ == old(self)@.without_status(),
    {
        self.status_message = None;
    }

    /// Toggle focus between editor and sidebar.
    pub fn toggle_focus(&mut self)
        ensures
            final(self)@ == old(self)@.toggled_focus(),
    {
        self.focus = match self.focus {
            Focus::Editor => Focus::Sidebar,
            Focus::Sidebar => Focus::Editor,
        };
    }

    /// Get title for display.
    pub fn title(&self) -> (r: String)
        ensures
            r@ == self@.title(),
    {
        match &self.document {
            Some(doc) => match &doc.filename {
                Some(name) => name.clone(),
                None => "Untitled".to_owned(),
            },
            None => "Untitled".to_owned(),
        }
    }
}

impl App {
    /// Get content lines for rendering: the lines of the text while a
    /// document is loaded, none otherwise.
    pub fn content_lines(&self) -> (r: Vec<&str>)
        ensures
            borrowed_lines(r@) == (if self@.document.is_some() {
                self@.cursor.lines
            } else {
                Seq::empty()
            }),
            self@.in_sync() ==> borrowed_lines(r@) == lines_of(self@.text()),
    {
        let mut out: Vec<&str> = Vec::new();
        if self.document.is_some() {
            let count = self.cursor.line_count();
            let mut i: usize = 0;
            while i < count
                invariant
                    0 <= i <= count,
                    count == self@.cursor.lines.len(),
                    out@.len() == i,
                    forall|j: int| 0 <= j < i ==> (#[trigger] out@[j])@ == self@.cursor.lines[j],
                decreases count - i,
            {
                match self.cursor.line(i) {
                    Some(line) => {
                        out.push(line);
                    },
                    None => {},
                }
                i += 1;
            }
        }
        proof {
            assert(borrowed_lines(out@) =~= (if self@.document.is_some() {
                self@.cursor.lines
            } else {
                Seq::empty()
            }));
        }
        out
    }
}

impl Default for App {
    fn default() -> (app: Self)
        ensures
            app@ == AppView::initial(),
            app@.wf(),
            app@.in_sync(),
    {
        Self::new()
    }
}

} // verus!
