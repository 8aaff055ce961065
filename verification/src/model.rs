//! The data model: text ranges, annotations and the document that owns them.

pub mod annotation;
pub mod document;
pub mod order;
pub mod text_range;

pub use annotation::{Annotation, AnnotationView, Category, Severity};
pub use document::{Document, DocumentView};
pub use text_range::TextRange;
