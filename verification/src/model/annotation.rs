//! Annotations and their classification.

use vstd::prelude::*;
use crate::model::text_range::TextRange;
use crate::stamp::{fresh_id, is_random_id};

verus! {

/// Annotation category for classification.
#[derive(Debug, Clone, Copy, PartialEq, Eq, Structural)]
pub enum Category {
    Voice,
    Clarity,
    Structure,
    Expand,
    Condense,
    Rephrase,
}

impl Category {
    /// Every category, in display order.
    pub open spec fn all_spec() -> Seq<Category> {
        seq![
            Category::Voice,
            Category::Clarity,
            Category::Structure,
            Category::Expand,
            Category::Condense,
            Category::Rephrase,
        ]
    }

    /// The display name of a category.
    pub open spec fn name(self) -> Seq<char> {
        match self {
            Category::Voice => "Voice"@,
            Category::Clarity => "Clarity"@,
            Category::Structure => "Structure"@,
            Category::Expand => "Expand"@,
            Category::Condense => "Condense"@,
            Category::Rephrase => "Rephrase"@,
        }
    }

    /// The name under which a category is written to an export.
    pub open spec fn export_name(self) -> Seq<char> {
        match self {
            Category::Voice => "VOICE"@,
            Category::Clarity => "CLARITY"@,
            Category::Structure => "STRUCTURE"@,
            Category::Expand => "EXPAND"@,
            Category::Condense => "CONDENSE"@,
            Category::Rephrase => "REPHRASE"@,
        }
    }

    pub fn all() -> (r: &'static [Category])
        ensures
            r@ == Self::all_spec(),
    {
        &[
            Category::Voice,
            Category::Clarity,
            Category::Structure,
            Category::Expand,
            Category::Condense,
            Category::Rephrase,
        ]
    }

    pub fn as_str(&self) -> (r: &'static str)
        ensures
            r@ == self.name(),
    {
        match self {
            Category::Voice => "Voice",
            Category::Clarity => "Clarity",
            Category::Structure => "Structure",
            Category::Expand => "Expand",
            Category::Condense => "Condense",
            Category::Rephrase => "Rephrase",
        }
    }

    /// The upper-case name used in exported data.
    pub fn as_export_str(&self) -> (r: &'static str)
        ensures
            r@ == self.export_name(),
    {
        match self {
            Category::Voice => "VOICE",
            Category::Clarity => "CLARITY",
            Category::Structure => "STRUCTURE",
            Category::Expand => "EXPAND",
            Category::Condense => "CONDENSE",
            Category::Rephrase => "REPHRASE",
        }
    }
}

/// Severity level for annotations, from most to least pressing.
#[derive(Debug, Clone, Copy, PartialEq, Eq, Structural)]
pub enum Severity {
    MustFix,
    ShouldFix,
    Consider,
}

impl Severity {
    /// Every severity, most pressing first. Reports group by this order.
    pub open spec fn all_spec() -> Seq<Severity> {
        seq![Severity::MustFix, Severity::ShouldFix, Severity::Consider]
    }

    /// The display name of a severity.
    pub open spec fn name(self) -> Seq<char> {
        match self {
            Severity::MustFix => "Must Fix"@,
            Severity::ShouldFix => "Should Fix"@,
            Severity::Consider => "Consider"@,
        }
    }

    /// The short tag of a severity.
    pub open spec fn tag(self) -> Seq<char> {
        match self {
            Severity::MustFix => "MUST"@,
            Severity::ShouldFix => "SHOULD"@,
            Severity::Consider => "CONSIDER"@,
        }
    }

    /// The name under which a severity is written to an export.
    pub open spec fn export_name(self) -> Seq<char> {
        match self {
            Severity::MustFix => "must-fix"@,
            Severity::ShouldFix => "should-fix"@,
            Severity::Consider => "consider"@,
        }
    }

    pub fn all() -> (r: &'static [Severity])
        ensures
            r@ == Self::all_spec(),
    {
        &[Severity::MustFix, Severity::ShouldFix, Severity::Consider]
    }

    pub fn as_str(&self) -> (r: &'static str)
        ensures
            r@ == self.name(),
    {
        match self {
            Severity::MustFix => "Must Fix",
            Severity::ShouldFix => "Should Fix",
            Severity::Consider => "Consider",
        }
    }

    pub fn short(&self) -> (r: &'static str)
        ensures
            r@ == self.tag(),
    {
        match self {
            Severity::MustFix => "MUST",
            Severity::ShouldFix => "SHOULD",
            Severity::Consider => "CONSIDER",
        }
    }

    /// The kebab-case name used in exported data.
    pub fn as_export_str(&self) -> (r: &'static str)
        ensures
            r@ == self.export_name(),
    {
        match self {
            Severity::MustFix => "must-fix",
            Severity::ShouldFix => "should-fix",
            Severity::Consider => "consider",
        }
    }
}

impl Default for Severity {
    fn default() -> (r: Self)
        ensures
            r == Severity::ShouldFix,
    {
        Severity::ShouldFix
    }
}

/// An annotation attached to a text range.
#[derive(Debug, Clone)]
pub struct Annotation {
    pub id: u128,
    pub range: TextRange,
    /// The text the range covered when the annotation was made.
    pub selected_text: String,
    pub category: Option<Category>,
    pub severity: Severity,
    pub comment: String,
    pub is_resolved: bool,
}

/// What an annotation holds, with its strings as character sequences.
pub struct AnnotationView {
    pub id: u128,
    pub range: TextRange,
    pub selected_text: Seq<char>,
    pub category: Option<Category>,
    pub severity: Severity,
    pub comment: Seq<char>,
    pub is_resolved: bool,
}

impl View for Annotation {
    type V = AnnotationView;

    open spec fn view(&self) -> AnnotationView {
        AnnotationView {
            id: self.id,
            range: self.range,
            selected_text: self.selected_text@,
            category: self.category,
            severity: self.severity,
            comment: self.comment@,
            is_resolved: self.is_resolved,
        }
    }
}

impl AnnotationView {
    /// A newly made annotation: unresolved, without category, of the
    /// default severity.
    pub open spec fn fresh(
        id: u128,
        range: TextRange,
        selected_text: Seq<char>,
        comment: Seq<char>,
    ) -> AnnotationView {
        AnnotationView {
            id,
            range,
            selected_text,
            category: None,
            severity: Severity::ShouldFix,
            comment,
            is_resolved: false,
        }
    }

    /// The same annotation with its resolved flag flipped.
    pub open spec fn toggled(self) -> AnnotationView {
        AnnotationView { is_resolved: !self.is_resolved, ..self }
    }
}

impl Annotation {
    /// Makes an unresolved annotation under a fresh random identifier.
    pub fn new(range: TextRange, selected_text: String, comment: String) -> (r: Self)
        ensures
            r@ == AnnotationView::fresh(r.id, range, selected_text@, comment@),
            is_random_id(r.id),
    {
        Annotation {
            id: fresh_id(),
            range,
            selected_text,
            category: None,
            severity: Severity::default(),
            comment,
            is_resolved: false,
        }
    }
}

} // verus!
