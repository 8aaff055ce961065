//! The interaction state machine: what each key does in each mode.
//!
//! A key event is handled in one step: the status message of the previous
//! step is cleared, then the handler of the current mode applies the key.
//! Work that needs the world outside (loading a file, writing an export) is
//! not done here; the step returns it as an [`Action`] for the caller to
//! perform and report back.

use vstd::prelude::*;
use vstd::string::*;
use crate::app::{
    category_choices, lemma_delete_keeps_sidebar, lemma_moves_keep_wf, lemma_selected_range,
    severity_choices, App, AppView, Focus, InputTarget, Mode,
};
use crate::export::{generate_prompt, report_text};
use crate::model::annotation::{AnnotationView, Category, Severity};
use crate::model::document::{index_of, lemma_index_of, Document, DocumentView};
use crate::model::order::{lemma_sorted_view_ascends, lemma_sorted_view_members};
use crate::stamp::{fresh_id, is_random_id, now_micros};
use crate::text::{decimal, push_decimal};

verus! {

/// A key, as far as the application tells keys apart.
#[derive(Debug, Clone, Copy, PartialEq, Eq, Structural)]
pub enum Key {
    Char(char),
    Esc,
    Enter,
    Backspace,
    Tab,
    Up,
    Down,
    Left,
    Right,
    /// Any other key; no mode reacts to it.
    Other,
}

/// What the caller has to do after a step.
#[derive(Debug)]
pub enum Action {
    /// Nothing.
    Done,
    /// Load the file at this path, then report with
    /// [`App::document_loaded`] or [`App::load_failed`].
    Load(String),
    /// Write the export of the document, then report with
    /// [`App::export_succeeded`] or [`App::export_failed`].
    Export,
}

/// An action, with its path as a character sequence.
pub enum ActionView {
    Done,
    Load(Seq<char>),
    Export,
}

impl View for Action {
    type V = ActionView;

    open spec fn view(&self) -> ActionView {
        match self {
            Action::Done => ActionView::Done,
            Action::Load(path) => ActionView::Load(path@),
            Action::Export => ActionView::Export,
        }
    }
}

/// The status message after the review prompt was generated: its length in
/// characters.
pub open spec fn prompt_status(length: nat) -> Seq<char> {
    "Prompt generated ("@ + decimal(length) + " chars)"@
}

impl AppView {
    /// Down in the focused area: the cursor in the editor, the selected
    /// entry in the sidebar.
    pub open spec fn focus_down(self) -> AppView {
        if self.focus == Focus::Editor {
            self.moved_down()
        } else {
            self.next_annotation()
        }
    }

    /// Up in the focused area.
    pub open spec fn focus_up(self) -> AppView {
        if self.focus == Focus::Editor {
            self.moved_up()
        } else {
            self.prev_annotation()
        }
    }

    /// The state with the file path prompt open.
    pub open spec fn asking_for_path(self) -> AppView {
        AppView {
            input_buffer: Seq::empty(),
            input_target: InputTarget::FilePath,
            mode: Mode::Input,
            ..self
        }
    }

    /// The state after the review prompt was generated: its length is
    /// reported. Without a document nothing happens.
    pub open spec fn prompted(self) -> AppView {
        match self.document {
            Some(doc) => self.with_status(prompt_status(report_text(doc).len())),
            None => self,
        }
    }

    /// What a key does in normal mode, at clock reading `now`.
    pub open spec fn normal_key(self, key: Key, now: i64) -> (AppView, ActionView) {
        match key {
            Key::Char('q') => (AppView { running: false, ..self }, ActionView::Done),
            Key::Char('?') => (AppView { mode: Mode::Help, ..self }, ActionView::Done),
            // Navigation.
            Key::Char('j') | Key::Down => (self.focus_down(), ActionView::Done),
            Key::Char('k') | Key::Up => (self.focus_up(), ActionView::Done),
            Key::Char('h') | Key::Left => (self.moved_left(), ActionView::Done),
            Key::Char('l') | Key::Right => (self.moved_right(), ActionView::Done),
            Key::Char('g') => (self.moved_to_top(), ActionView::Done),
            Key::Char('G') => (self.moved_to_bottom(), ActionView::Done),
            // Annotation navigation.
            Key::Char(']') => (self.next_annotation(), ActionView::Done),
            Key::Char('[') => (self.prev_annotation(), ActionView::Done),
            // Visual mode.
            Key::Char('v') => (self.entered_visual(), ActionView::Done),
            // Annotation actions.
            Key::Char('d') => (self.deleted_selected(now), ActionView::Done),
            Key::Char('r') => (self.toggled_selected(now), ActionView::Done),
            // Focus toggle.
            Key::Tab => (self.toggled_focus(), ActionView::Done),
            // Export.
            Key::Char('e') => (
                self,
                if self.document.is_some() {
                    ActionView::Export
                } else {
                    ActionView::Done
                },
            ),
            Key::Char('E') => (self.prompted(), ActionView::Done),
            // Open file.
            Key::Char('o') => (self.asking_for_path(), ActionView::Done),
            _ => (self, ActionView::Done),
        }
    }

    /// The state after the selection was cancelled.
    pub open spec fn cancelled_selection(self) -> AppView {
        AppView { mode: Mode::Normal, selection_start: None, selection_end: None, ..self }
    }

    /// What a key does in visual mode: motions extend the selection.
    pub open spec fn visual_key(self, key: Key) -> AppView {
        match key {
            Key::Esc => self.cancelled_selection(),
            Key::Char('j') | Key::Down => self.moved_down().updated_selection(),
            Key::Char('k') | Key::Up => self.moved_up().updated_selection(),
            Key::Char('h') | Key::Left => self.moved_left().updated_selection(),
            Key::Char('l') | Key::Right => self.moved_right().updated_selection(),
            Key::Char('w') => self.moved_word_forward().updated_selection(),
            Key::Char('b') => self.moved_word_back().updated_selection(),
            Key::Char('a') => self.started_annotation(),
            _ => self,
        }
    }

    /// The state after text input was cancelled: the buffer is empty and a
    /// pending range is dropped.
    pub open spec fn cancelled_input(self) -> AppView {
        AppView { mode: Mode::Normal, input_buffer: Seq::empty(), pending_range: None, ..self }
    }

    /// The state after the typed file path was submitted.
    pub open spec fn submitted_path(self) -> AppView {
        AppView { input_buffer: Seq::empty(), mode: Mode::Normal, ..self }
    }

    /// The state after the last typed character was erased.
    pub open spec fn erased(self) -> AppView {
        if self.input_buffer.len() > 0 {
            AppView { input_buffer: self.input_buffer.drop_last(), ..self }
        } else {
            self
        }
    }

    /// The state after `c` was typed.
    pub open spec fn typed(self, c: char) -> AppView {
        AppView { input_buffer: self.input_buffer.push(c), ..self }
    }

    /// What a key does in input mode. Submitting a comment completes the
    /// annotation under identifier `id` at clock reading `now`; submitting
    /// a file path asks the caller to load it.
    pub open spec fn input_key(self, key: Key, id: u128, now: i64) -> (AppView, ActionView) {
        match key {
            Key::Esc => (self.cancelled_input(), ActionView::Done),
            Key::Enter => match self.input_target {
                InputTarget::Comment => (self.completed(id, now), ActionView::Done),
                InputTarget::FilePath => (
                    self.submitted_path(),
                    ActionView::Load(self.input_buffer),
                ),
            },
            Key::Backspace => (self.erased(), ActionView::Done),
            Key::Char(c) => (self.typed(c), ActionView::Done),
            _ => (self, ActionView::Done),
        }
    }

    /// The state after a picker was cancelled: the pending range is
    /// dropped.
    pub open spec fn cancelled_picker(self) -> AppView {
        AppView { mode: Mode::Normal, pending_range: None, ..self }
    }

    /// The state after `severity` was chosen: the category picker opens.
    pub open spec fn with_severity(self, severity: Severity) -> AppView {
        AppView { pending_severity: severity, mode: Mode::CategoryPicker, ..self }
    }

    /// What a key does in the severity picker.
    pub open spec fn severity_key(self, key: Key) -> AppView {
        match key {
            Key::Esc => self.cancelled_picker(),
            Key::Char('j') | Key::Down => AppView {
                severity_selected: (self.severity_selected + 1) % severity_choices(),
                ..self
            },
            Key::Char('k') | Key::Up => AppView {
                severity_selected: if self.severity_selected == 0 {
                    severity_choices() - 1
                } else {
                    self.severity_selected - 1
                },
                ..self
            },
            Key::Enter => self.with_severity(Severity::all_spec()[self.severity_selected]),
            // Quick select.
            Key::Char('1') => self.with_severity(Severity::MustFix),
            Key::Char('2') => self.with_severity(Severity::ShouldFix),
            Key::Char('3') => self.with_severity(Severity::Consider),
            _ => self,
        }
    }

    /// The state after a category, or none, was chosen: the comment prompt
    /// opens with an empty buffer.
    pub open spec fn with_category(self, category: Option<Category>) -> AppView {
        AppView {
            pending_category: category,
            input_buffer: Seq::empty(),
            input_target: InputTarget::Comment,
            mode: Mode::Input,
            ..self
        }
    }

    /// The choice the category picker points at: none first, then the
    /// categories.
    pub open spec fn category_choice(self) -> Option<Category> {
        if self.category_selected == 0 {
            None
        } else {
            Some(Category::all_spec()[self.category_selected - 1])
        }
    }

    /// What a key does in the category picker.
    pub open spec fn category_key(self, key: Key) -> AppView {
        match key {
            Key::Esc => self.cancelled_picker(),
            Key::Char('j') | Key::Down => AppView {
                category_selected: (self.category_selected + 1) % category_choices(),
                ..self
            },
            Key::Char('k') | Key::Up => AppView {
                category_selected: if self.category_selected == 0 {
                    category_choices() - 1
                } else {
                    self.category_selected - 1
                },
                ..self
            },
            Key::Enter => self.with_category(self.category_choice()),
            // Quick select.
            Key::Char('0') => self.with_category(None),
            _ => self,
        }
    }

    /// One step of the state machine: the status message is cleared, then
    /// the key goes to the handler of the current mode. Any key closes the
    /// help.
    pub open spec fn step(self, key: Key, id: u128, now: i64) -> (AppView, ActionView) {
        let state = self.without_status();
        match state.mode {
            Mode::Normal => state.normal_key(key, now),
            Mode::Visual => (state.visual_key(key), ActionView::Done),
            Mode::Input => state.input_key(key, id, now),
            Mode::SeverityPicker => (state.severity_key(key), ActionView::Done),
            Mode::CategoryPicker => (state.category_key(key), ActionView::Done),
            Mode::Help => (AppView { mode: Mode::Normal, ..state }, ActionView::Done),
        }
    }

    /// The state after the caller loaded `doc` from `path`.
    pub open spec fn after_load(self, doc: DocumentView, path: Seq<char>) -> AppView {
        self.loaded(doc).with_status("Loaded "@ + path)
    }
}

/// What a key does in normal mode, at clock reading `now`.
pub fn handle_normal_mode(app: &mut App, key: Key, now: i64) -> (action: Action)
    requires
        old(app)@.wf(),
    ensures
        (final(app)@, action@) == old(app)@.normal_key(key, now),
        final(app)@.wf(),
{
    match key {
        Key::Char('q') => {
            app.running = false;
        },
        Key::Char('?') => {
            app.mode = Mode::Help;
        },
        // Navigation.
        Key::Char('j') | Key::Down => {
            if app.focus == Focus::Editor {
                app.move_down();
            } else {
                app.next_annotation();
            }
        },
        Key::Char('k') | Key::Up => {
            if app.focus == Focus::Editor {
                app.move_up();
            } else {
                app.prev_annotation();
            }
        },
        Key::Char('h') | Key::Left => {
            app.move_left();
        },
        Key::Char('l') | Key::Right => {
            app.move_right();
        },
        Key::Char('g') => {
            app.move_to_top();
        },
        Key::Char('G') => {
            app.move_to_bottom();
        },
        // Annotation navigation.
        Key::Char(']') => {
            app.next_annotation();
        },
        Key::Char('[') => {
            app.prev_annotation();
        },
        // Visual mode.
        Key::Char('v') => {
            app.enter_visual_mode();
        },
        // Annotation actions.
        Key::Char('d') => {
            app.delete_selected_annotation_at(now);
        },
        Key::Char('r') => {
            app.toggle_selected_resolved_at(now);
        },
        // Focus toggle.
        Key::Tab => {
            app.toggle_focus();
        },
        // Export.
        Key::Char('e') => {
            if app.document.is_some() {
                return Action::Export;
            }
        },
        Key::Char('E') => {
            app.report_prompt();
        },
        // Open file.
        Key::Char('o') => {
            app.input_buffer.clear();
            app.input_target = InputTarget::FilePath;
            app.mode = Mode::Input;
        },
        _ => {},
    }
    Action::Done
}

/// What a key does in visual mode.
pub fn handle_visual_mode(app: &mut App, key: Key)
    requires
        old(app)@.wf(),
    ensures
        final(app)@ == old(app)@.visual_key(key),
        final(app)@.wf(),
{
    match key {
        Key::Esc => {
            app.mode = Mode::Normal;
            app.selection_start = None;
            app.selection_end = None;
        },
        Key::Char('j') | Key::Down => {
            app.move_down();
            app.update_selection();
        },
        Key::Char('k') | Key::Up => {
            app.move_up();
            app.update_selection();
        },
        Key::Char('h') | Key::Left => {
            app.move_left();
            app.update_selection();
        },
        Key::Char('l') | Key::Right => {
            app.move_right();
            app.update_selection();
        },
        Key::Char('w') => {
            app.move_word_forward();
            app.update_selection();
        },
        Key::Char('b') => {
            app.move_word_back();
            app.update_selection();
        },
        Key::Char('a') => {
            app.start_annotation();
        },
        _ => {},
    }
}

/// What a key does in input mode, with `id` and `now` for an annotation
/// that the key may complete.
pub fn handle_input_mode(app: &mut App, key: Key, id: u128, now: i64) -> (action: Action)
    requires
        old(app)@.wf(),
    ensures
        (final(app)@, action@) == old(app)@.input_key(key, id, now),
        final(app)@.wf(),
{
    match key {
        Key::Esc => {
            app.mode = Mode::Normal;
            app.input_buffer.clear();
            app.pending_range = None;
        },
        Key::Enter => {
            match app.input_target {
                InputTarget::Comment => {
                    app.complete_annotation_with(id, now);
                },
                InputTarget::FilePath => {
                    let path = app.input_buffer.clone();
                    app.input_buffer.clear();
                    app.mode = Mode::Normal;
                    return Action::Load(path);
                },
            }
        },
        Key::Backspace => {
            app.input_buffer.pop();
        },
        Key::Char(c) => {
            app.input_buffer.push(c);
        },
        _ => {},
    }
    Action::Done
}

/// What a key does in the severity picker.
pub fn handle_severity_picker(app: &mut App, key: Key)
    requires
        old(app)@.wf(),
    ensures
        final(app)@ == old(app)@.severity_key(key),
        final(app)@.wf(),
{
    match key {
        Key::Esc => {
            app.mode = Mode::Normal;
            app.pending_range = None;
        },
        Key::Char('j') | Key::Down => {
            app.severity_selected = (app.severity_selected + 1) % Severity::all().len();
        },
        Key::Char('k') | Key::Up => {
            let len = Severity::all().len();
            app.severity_selected = if app.severity_selected == 0 {
                len - 1
            } else {
                app.severity_selected - 1
            };
        },
        Key::Enter => {
            app.pending_severity = Severity::all()[app.severity_selected];
            app.mode = Mode::CategoryPicker;
        },
        // Quick select.
        Key::Char('1') => {
            app.pending_severity = Severity::MustFix;
            app.mode = Mode::CategoryPicker;
        },
        Key::Char('2') => {
            app.pending_severity = Severity::ShouldFix;
            app.mode = Mode::CategoryPicker;
        },
        Key::Char('3') => {
            app.pending_severity = Severity::Consider;
            app.mode = Mode::CategoryPicker;
        },
        _ => {},
    }
}

/// What a key does in the category picker.
pub fn handle_category_picker(app: &mut App, key: Key)
    requires
        old(app)@.wf(),
    ensures
        final(app)@ == old(app)@.category_key(key),
        final(app)@.wf(),
{
    // One more than the categories, for "None".
    let total = Category::all().len() + 1;
    match key {
        Key::Esc => {
            app.mode = Mode::Normal;
            app.pending_range = None;
        },
        Key::Char('j') | Key::Down => {
            app.category_selected = (app.category_selected + 1) % total;
        },
        Key::Char('k') | Key::Up => {
            app.category_selected = if app.category_selected == 0 {
                total - 1
            } else {
                app.category_selected - 1
            };
        },
        Key::Enter => {
            app.pending_category = if app.category_selected == 0 {
                None
            } else {
                Some(Category::all()[app.category_selected - 1])
            };
            app.input_buffer.clear();
            app.input_target = InputTarget::Comment;
            app.mode = Mode::Input;
        },
        // Quick select.
        Key::Char('0') => {
            app.pending_category = None;
            app.input_buffer.clear();
            app.input_target = InputTarget::Comment;
            app.mode = Mode::Input;
        },
        _ => {},
    }
}

/// One step of the state machine, with `id` and `now` for whatever the key
/// may create or change.
pub fn handle_key_with(app: &mut App, key: Key, id: u128, now: i64) -> (action: Action)
    requires
        old(app)@.wf(),
    ensures
        (final(app)@, action@) == old(app)@.step(key, id, now),
        final(app)@.wf(),
        old(app)@.in_sync() ==> final(app)@.in_sync(),
{
    proof {
        lemma_step_keeps_text(app@, key, id, now);
    }
    // Clear status on any key.
    app.clear_status();
    match app.mode {
        Mode::Normal => handle_normal_mode(app, key, now),
        Mode::Visual => {
            handle_visual_mode(app, key);
            Action::Done
        },
        Mode::Input => handle_input_mode(app, key, id, now),
        Mode::SeverityPicker => {
            handle_severity_picker(app, key);
            Action::Done
        },
        Mode::CategoryPicker => {
            handle_category_picker(app, key);
            Action::Done
        },
        Mode::Help => {
            app.mode = Mode::Normal;
            Action::Done
        },
    }
}

/// Whether a step makes or changes an annotation, so that it needs an
/// identifier or the time: submitting a comment does, and so do the delete
/// and resolve keys of normal mode.
pub open spec fn needs_stamp_spec(mode: Mode, target: InputTarget, key: Key) -> bool {
    match mode {
        Mode::Normal => key == Key::Char('d') || key == Key::Char('r'),
        Mode::Input => key == Key::Enter && target == InputTarget::Comment,
        _ => false,
    }
}

/// Whether a step needs an identifier or the time.
pub fn needs_stamp(mode: Mode, target: InputTarget, key: Key) -> (r: bool)
    ensures
        r == needs_stamp_spec(mode, target, key),
{
    match mode {
        Mode::Normal => match key {
            Key::Char('d') | Key::Char('r') => true,
            _ => false,
        },
        Mode::Input => match key {
            Key::Enter => match target {
                InputTarget::Comment => true,
                InputTarget::FilePath => false,
            },
            _ => false,
        },
        _ => false,
    }
}

/// The identifier handed to steps that make no annotation.
pub const UNUSED_ID: u128 = 0x0000_0000_0000_4000_8000_0000_0000_0000u128;

/// One step of the state machine. An annotation that the key completes
/// gets a fresh identifier; a document that it changes is stamped with the
/// current time. Steps that do neither read no clock and draw no
/// identifier.
pub fn handle_key(app: &mut App, key: Key) -> (action: Action)
    requires
        old(app)@.wf(),
    ensures
        exists|id: u128, now: i64|
            is_random_id(id) && (final(app)@, action@) == old(app)@.step(key, id, now),
        final(app)@.wf(),
        old(app)@.in_sync() ==> final(app)@.in_sync(),
{
    assert(is_random_id(UNUSED_ID)) by (bit_vector);
    if needs_stamp(app.mode, app.input_target, key) {
        let id = match app.mode {
            Mode::Input => fresh_id(),
            _ => UNUSED_ID,
        };
        let now = now_micros();
        handle_key_with(app, key, id, now)
    } else {
        handle_key_with(app, key, UNUSED_ID, 0)
    }
}

/// A step that needs no identifier and no time does not depend on them.
pub proof fn lemma_step_ignores_unused_stamps(
    v: AppView,
    key: Key,
    id: u128,
    now: i64,
    other_id: u128,
    other_now: i64,
)
    requires
        !needs_stamp_spec(v.mode, v.input_target, key),
    ensures
        v.step(key, id, now) == v.step(key, other_id, other_now),
{
}

impl App {
    /// Generates the review prompt and reports its length in the status
    /// message. Without a document nothing happens.
    pub fn report_prompt(&mut self)
        ensures
            final(self)@ == old(self)@.prompted(),
    {
        let length = match &self.document {
            Some(doc) => Some(generate_prompt(doc).as_str().unicode_len()),
            None => None,
        };
        match length {
            Some(n) => {
                let mut message = String::new();
                message.append("Prompt generated (");
                push_decimal(&mut message, n);
                message.append(" chars)");
                proof {
                    assert(message@ =~= prompt_status(n as nat));
                }
                self.status_message = Some(message);
            },
            None => {},
        }
    }

    /// Sets the status message to `prefix` followed by `detail`.
    fn set_status_pair(&mut self, prefix: &str, detail: &str)
        ensures
            final(self)@ == old(self)@.with_status(prefix@ + detail@),
    {
        let mut message = String::new();
        message.append(prefix);
        message.append(detail);
        proof {
            assert(message@ =~= prefix@ + detail@);
        }
        self.status_message = Some(message);
    }

    /// Takes in the document that the caller loaded from `path`.
    pub fn document_loaded(&mut self, doc: Document, path: &str)
        requires
            old(self)@.wf(),
        ensures
            final(self)@ == old(self)@.after_load(doc@, path@),
            final(self)@.wf(),
            final(self)@.in_sync(),
    {
        self.load_document(doc);
        self.set_status_pair("Loaded ", path);
    }

    /// Reports that loading failed, with the caller's description of the
    /// failure.
    pub fn load_failed(&mut self, error: &str)
        ensures
            final(self)@ == old(self)@.with_status("Error: "@ + error@),
    {
        self.set_status_pair("Error: ", error);
    }

    /// Reports that the export was written to `path`.
    pub fn export_succeeded(&mut self, path: &str)
        ensures
            final(self)@ == old(self)@.with_status("Exported to "@ + path@),
    {
        self.set_status_pair("Exported to ", path);
    }

    /// Reports that the export failed, with the caller's description of
    /// the failure.
    pub fn export_failed(&mut self, error: &str)
        ensures
            final(self)@ == old(self)@.with_status("Export failed: "@ + error@),
    {
        self.set_status_pair("Export failed: ", error);
    }
}

/// No step changes the text: the content of the document and the tables
/// of the cursor stay as they are, so a cursor that moves over the text of
/// the document keeps doing so. A step neither loads nor drops a document.
pub proof fn lemma_step_keeps_text(v: AppView, key: Key, id: u128, now: i64)
    ensures
        v.step(key, id, now).0.text() == v.text(),
        v.step(key, id, now).0.document.is_some() == v.document.is_some(),
        v.step(key, id, now).0.cursor.starts == v.cursor.starts,
        v.step(key, id, now).0.cursor.lines == v.cursor.lines,
        v.step(key, id, now).0.cursor.total == v.cursor.total,
        v.in_sync() ==> v.step(key, id, now).0.in_sync(),
{
}

/// How a step may change the annotations: not at all, by appending one, by
/// removing one, or by flipping the resolved flag of one.
pub open spec fn annotations_step(before: Seq<AnnotationView>, after: Seq<AnnotationView>) -> bool {
    ||| after == before
    ||| exists|added: AnnotationView| after == before.push(added)
    ||| exists|i: int| 0 <= i < before.len() && after == before.remove(i)
    ||| exists|i: int| 0 <= i < before.len() && after == before.update(i, before[i].toggled())
}

/// Only normal mode and input mode touch the document, and what they do to
/// the annotations is one of three things: completing the workflow appends
/// one annotation, the delete key removes one, the resolve key flips the
/// flag of one. Nothing else about a stored annotation ever changes.
pub proof fn lemma_step_touches_document(v: AppView, key: Key, id: u128, now: i64)
    requires
        v.wf(),
    ensures
        v.mode != Mode::Normal && v.mode != Mode::Input ==> v.step(key, id, now).0.document
            == v.document,
        annotations_step(v.annotations(), v.step(key, id, now).0.annotations()),
        v.step(key, id, now).0.annotations().len() > v.annotations().len() ==> v.mode
            == Mode::Input && key == Key::Enter && v.without_status().can_complete()
            && v.step(key, id, now).0.annotations() == v.annotations().push(
            v.without_status().pending_annotation(id),
        ),
{
    let state = v.without_status();
    let before = v.annotations();
    let after = v.step(key, id, now).0.annotations();
    if state.selected().is_some() {
        let picked = state.selected().unwrap().id;
        lemma_sorted_view_ascends(before);
        lemma_sorted_view_members(before, state.sidebar_selected);
        lemma_index_of(before, picked);
        let i = index_of(before, picked);
        if state.mode == Mode::Normal && key == Key::Char('d') {
            assert(after == before.remove(i));
        }
        if state.mode == Mode::Normal && key == Key::Char('r') {
            assert(after == before.update(i, before[i].toggled()));
        }
    }
    if state.mode == Mode::Input && key == Key::Enter && state.input_target
        == InputTarget::Comment && state.can_complete() {
        assert(after == before.push(state.pending_annotation(id)));
    }
}

/// Going through the sidebar keeps a well-formed state well-formed.
pub proof fn lemma_sidebar_moves_keep_wf(v: AppView)
    requires
        v.wf(),
    ensures
        v.next_annotation().wf(),
        v.prev_annotation().wf(),
{
    let count = v.annotations().len() as int;
    lemma_sorted_view_ascends(v.annotations());
    if count > 0 {
        let next = AppView { sidebar_selected: (v.sidebar_selected + 1) % count, ..v };
        let prev = AppView {
            sidebar_selected: if v.sidebar_selected == 0 {
                count - 1
            } else {
                v.sidebar_selected - 1
            },
            ..v
        };
        lemma_moves_keep_wf(next);
        lemma_moves_keep_wf(prev);
        assert(next.moved_to_offset(
            v.shown()[next.sidebar_selected].range.start_offset as int,
        ).wf());
        assert(prev.moved_to_offset(
            v.shown()[prev.sidebar_selected].range.start_offset as int,
        ).wf());
    }
}

/// Deleting or toggling the selected annotation keeps a well-formed state
/// well-formed.
pub proof fn lemma_sidebar_edits_keep_wf(v: AppView, now: i64)
    requires
        v.wf(),
    ensures
        v.deleted_selected(now).wf(),
        v.toggled_selected(now).wf(),
{
    if v.selected().is_some() {
        lemma_delete_keeps_sidebar(v, now);
        lemma_index_of(v.annotations(), v.selected().unwrap().id);
    }
}

/// Every key of normal mode keeps a well-formed state well-formed.
pub proof fn lemma_normal_key_keeps_wf(v: AppView, key: Key, now: i64)
    requires
        v.wf(),
    ensures
        v.normal_key(key, now).0.wf(),
{
    lemma_normal_operations_keep_wf(v, now);
}

/// Every operation that normal mode offers keeps a well-formed state
/// well-formed.
proof fn lemma_normal_operations_keep_wf(v: AppView, now: i64)
    requires
        v.wf(),
    ensures
        v.focus_down().wf(),
        v.focus_up().wf(),
        v.moved_left().wf(),
        v.moved_right().wf(),
        v.moved_to_top().wf(),
        v.moved_to_bottom().wf(),
        v.next_annotation().wf(),
        v.prev_annotation().wf(),
        v.entered_visual().wf(),
        v.deleted_selected(now).wf(),
        v.toggled_selected(now).wf(),
        v.toggled_focus().wf(),
        v.prompted().wf(),
        v.asking_for_path().wf(),
{
    lemma_moves_keep_wf(v);
    lemma_sidebar_moves_keep_wf(v);
    lemma_sidebar_edits_keep_wf(v, now);
}

/// Every key of visual mode keeps a well-formed state well-formed.
pub proof fn lemma_visual_key_keeps_wf(v: AppView, key: Key)
    requires
        v.wf(),
    ensures
        v.visual_key(key).wf(),
{
    lemma_moves_keep_wf(v);
    lemma_selected_range(v);
}

/// Every key of input mode and of the two pickers keeps a well-formed
/// state well-formed.
pub proof fn lemma_entry_keys_keep_wf(v: AppView, key: Key, id: u128, now: i64)
    requires
        v.wf(),
    ensures
        v.input_key(key, id, now).0.wf(),
        v.severity_key(key).wf(),
        v.category_key(key).wf(),
{
}

/// Every step keeps a well-formed state well-formed.
pub proof fn lemma_step_keeps_wf(v: AppView, key: Key, id: u128, now: i64)
    requires
        v.wf(),
    ensures
        v.step(key, id, now).0.wf(),
{
    let state = v.without_status();
    lemma_normal_key_keeps_wf(state, key, now);
    lemma_visual_key_keeps_wf(state, key);
    lemma_entry_keys_keep_wf(state, key, id, now);
}

} // verus!
