//! What a front end shows of the state, as plain values: labels, lines of
//! text and the highlight of a character. Drawing itself is left to the
//! front end.

use vstd::prelude::*;
use vstd::string::*;
use crate::app::{App, AppView, Mode};
use crate::model::annotation::{Annotation, AnnotationView, Severity};
use crate::model::document::borrowed_views;
use crate::text::{chars_of, decimal, push_decimal};

verus! {

impl Mode {
    /// The name of a mode on the status bar.
    pub open spec fn label_spec(self) -> Seq<char> {
        match self {
            Mode::Normal => "NORMAL"@,
            Mode::Visual => "VISUAL"@,
            Mode::Input => "INPUT"@,
            Mode::CategoryPicker => "CATEGORY"@,
            Mode::SeverityPicker => "SEVERITY"@,
            Mode::Help => "HELP"@,
        }
    }

    /// The name of the mode on the status bar.
    pub fn label(&self) -> (r: &'static str)
        ensures
            r@ == self.label_spec(),
    {
        match self {
            Mode::Normal => "NORMAL",
            Mode::Visual => "VISUAL",
            Mode::Input => "INPUT",
            Mode::CategoryPicker => "CATEGORY",
            Mode::SeverityPicker => "SEVERITY",
            Mode::Help => "HELP",
        }
    }
}

/// The first line to show so that row `cursor_row` is among `height`
/// visible lines: 0 while the cursor is on the first screen, and otherwise
/// the line that puts the cursor on the last visible line.
pub open spec fn scroll_offset_spec(cursor_row: int, height: int) -> int {
    if cursor_row >= height {
        cursor_row - height + 1
    } else {
        0
    }
}

/// The first line to show so that the cursor row is visible.
pub fn scroll_offset(cursor_row: usize, height: usize) -> (first: usize)
    requires
        scroll_offset_spec(cursor_row as int, height as int) <= usize::MAX,
    ensures
        first == scroll_offset_spec(cursor_row as int, height as int),
        height > 0 ==> first <= cursor_row < first + height,
{
    if cursor_row >= height {
        if height == 0 {
            cursor_row + 1
        } else {
            cursor_row - (height - 1)
        }
    } else {
        0
    }
}

/// Whether no annotation before position `i` of the display order covers
/// `offset`.
pub open spec fn none_covers_before(shown: Seq<AnnotationView>, offset: usize, i: int) -> bool {
    forall|j: int| 0 <= j < i && j < shown.len() ==> !(#[trigger] shown[j]).range.covers(offset)
}

/// The severity that colours the character at `offset`: that of the first
/// annotation of the display order `shown` whose range covers the offset.
pub fn covering_severity(shown: &Vec<&Annotation>, offset: usize) -> (r: Option<Severity>)
    ensures
        match r {
            Some(severity) => exists|i: int|
                0 <= i < shown@.len() && (#[trigger] borrowed_views(shown@)[i]).range.covers(offset)
                    && borrowed_views(shown@)[i].severity == severity && none_covers_before(
                    borrowed_views(shown@),
                    offset,
                    i,
                ),
            None => none_covers_before(borrowed_views(shown@), offset, shown@.len() as int),
        },
{
    let mut i: usize = 0;
    while i < shown.len()
        invariant
            0 <= i <= shown@.len(),
            none_covers_before(borrowed_views(shown@), offset, i as int),
        decreases shown@.len() - i,
    {
        if shown[i].range.contains(offset) {
            assert(borrowed_views(shown@)[i as int] == shown@[i as int]@);
            return Some(shown[i].severity);
        }
        i += 1;
    }
    None
}

/// The first `limit` characters of `text`, each newline shown as a blank.
pub open spec fn preview_spec(text: Seq<char>, limit: int) -> Seq<char> {
    Seq::new(
        (if text.len() < limit {
            text.len()
        } else if limit < 0 {
            0
        } else {
            limit as nat
        }),
        |i: int|
            if text[i] == '\n' {
                ' '
            } else {
                text[i]
            },
    )
}

/// Appends the first `limit` characters of `text` to `out`, each newline
/// shown as a blank.
pub fn push_preview(out: &mut String, text: &str, limit: usize)
    ensures
        final(out)@ == old(out)@ + preview_spec(text@, limit as int),
{
    let chars = chars_of(text);
    let n = if chars.len() < limit {
        chars.len()
    } else {
        limit
    };
    let mut i: usize = 0;
    while i < n
        invariant
            0 <= i <= n <= chars@.len(),
            chars@ == text@,
            out@ == old(out)@ + preview_spec(text@, limit as int).take(i as int),
            n == preview_spec(text@, limit as int).len(),
        decreases n - i,
    {
        let c = chars[i];
        out.push(if c == '\n' {
            ' '
        } else {
            c
        });
        proof {
            let shown = preview_spec(text@, limit as int);
            assert(shown.take(i + 1) =~= shown.take(i as int).push(shown[i as int]));
            assert(out@ =~= old(out)@ + shown.take(i + 1));
        }
        i += 1;
    }
    proof {
        let shown = preview_spec(text@, limit as int);
        assert(shown.take(n as int) =~= shown);
    }
}

/// The heading of a sidebar entry: a marker for the selected entry, the
/// severity tag, a tilde on resolved annotations, and the first fifteen
/// characters of the selected text.
pub open spec fn entry_heading_spec(a: AnnotationView, selected: bool) -> Seq<char> {
    (if selected {
        ">"@
    } else {
        " "@
    }) + " ["@ + a.severity.tag() + "]"@ + (if a.is_resolved {
        "~"@
    } else {
        ""@
    }) + " \""@ + preview_spec(a.selected_text, 15) + "...\""@
}

/// The heading of the sidebar entry of `ann`.
pub fn entry_heading(ann: &Annotation, selected: bool) -> (r: String)
    ensures
        r@ == entry_heading_spec(ann@, selected),
{
    let mut out = String::new();
    out.append(if selected {
        ">"
    } else {
        " "
    });
    out.append(" [");
    out.append(ann.severity.short());
    out.append("]");
    out.append(if ann.is_resolved {
        "~"
    } else {
        ""
    });
    out.append(" \"");
    push_preview(&mut out, ann.selected_text.as_str(), 15);
    out.append("...\"");
    proof {
        assert(out@ =~= entry_heading_spec(ann@, selected));
    }
    out
}

/// The second line of a sidebar entry: the first twenty characters of the
/// comment, indented. Newlines stay as they are.
pub open spec fn entry_detail_spec(a: AnnotationView) -> Seq<char> {
    "   "@ + a.comment.take(if a.comment.len() < 20 {
        a.comment.len() as int
    } else {
        20
    })
}

/// The second line of the sidebar entry of `ann`.
pub fn entry_detail(ann: &Annotation) -> (r: String)
    ensures
        r@ == entry_detail_spec(ann@),
{
    let mut out = String::new();
    out.append("   ");
    let chars = chars_of(ann.comment.as_str());
    let n = if chars.len() < 20 {
        chars.len()
    } else {
        20
    };
    let mut i: usize = 0;
    while i < n
        invariant
            0 <= i <= n <= chars@.len(),
            chars@ == ann.comment@,
            out@ == "   "@ + chars@.take(i as int),
        decreases n - i,
    {
        out.push(chars[i]);
        proof {
            assert(chars@.take(i + 1) =~= chars@.take(i as int).push(chars@[i as int]));
            assert(out@ =~= "   "@ + chars@.take(i + 1));
        }
        i += 1;
    }
    out
}

/// The hint that the status bar shows while there is no status message.
pub open spec fn help_hint() -> Seq<char> {
    "j/k scroll | v select | a add | e export | ? help"@
}

impl AppView {
    /// The number of the selected sidebar entry, counting from one; 0
    /// while there are no annotations.
    pub open spec fn entry_number(self) -> int {
        if self.annotations().len() > 0 {
            self.sidebar_selected + 1
        } else {
            0
        }
    }

    /// The title bar: the name of the front end, the title of the document,
    /// and which of how many annotations is selected.
    pub open spec fn title_line(self, product: Seq<char>) -> Seq<char>
        recommends
            self.entry_number() >= 0,
    {
        " "@ + product + " - "@ + self.title() + " ["@ + decimal(self.entry_number() as nat)
            + "/"@ + decimal(self.annotations().len()) + "]"@
    }

    /// The status bar: the mode, then the status message, or the hint
    /// while there is no message or an empty one.
    pub open spec fn status_line(self) -> Seq<char> {
        " "@ + self.mode.label_spec() + " | "@ + (match self.status_message {
            Some(message) => if message.len() > 0 {
                message
            } else {
                help_hint()
            },
            None => help_hint(),
        })
    }

    /// Whether the character at `offset` lies in the selection.
    pub open spec fn in_selection(self, offset: int) -> bool {
        match self.highlight() {
            Some((from, to)) => from <= offset < to,
            None => false,
        }
    }
}

impl App {
    /// The text of the title bar of the front end called `product`.
    pub fn title_line(&self, product: &str) -> (r: String)
        requires
            self@.wf(),
        ensures
            r@ == self@.title_line(product@),
    {
        let count = match &self.document {
            Some(doc) => doc.annotations.len(),
            None => 0,
        };
        let current = if count > 0 {
            self.sidebar_selected + 1
        } else {
            0
        };
        let title = self.title();
        let mut out = String::new();
        out.append(" ");
        out.append(product);
        out.append(" - ");
        out.append(title.as_str());
        out.append(" [");
        push_decimal(&mut out, current);
        out.append("/");
        push_decimal(&mut out, count);
        out.append("]");
        proof {
            assert(out@ =~= self@.title_line(product@));
        }
        out
    }

    /// The text of the status bar.
    pub fn status_line(&self) -> (r: String)
        ensures
            r@ == self@.status_line(),
    {
        let mut out = String::new();
        out.append(" ");
        out.append(self.mode.label());
        out.append(" | ");
        let hint = "j/k scroll | v select | a add | e export | ? help";
        match &self.status_message {
            Some(message) => {
                if message.as_str().is_empty() {
                    out.append(hint);
                } else {
                    out.append(message.as_str());
                }
            },
            None => {
                out.append(hint);
            },
        }
        proof {
            assert(out@ =~= self@.status_line());
        }
        out
    }

    /// Whether the character at `offset` lies in the selection.
    pub fn in_selection(&self, offset: usize) -> (r: bool)
        requires
            self@.wf(),
        ensures
            r == self@.in_selection(offset as int),
    {
        match self.get_selection_range() {
            Some((from, to)) => from <= offset && offset < to,
            None => false,
        }
    }
}

} // verus!
