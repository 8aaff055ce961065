//! Quill core: the platform-independent heart of a text annotation tool.
//!
//! A document is plain text addressed by character offsets. The cursor
//! module translates between `(row, column)` positions and offsets, the
//! model module holds documents and their annotations, the application
//! module sequences selection and annotation, and the input module is the
//! modal state machine that maps keys to those operations. Every function
//! carries a contract that Verus proves.

pub mod actions;
pub mod app;
pub mod cursor;
pub mod export;
pub mod input;
pub mod lines;
pub mod model;
pub mod motion;
pub mod stamp;
pub mod text;
pub mod view;

pub use app::{App, Focus, InputTarget, Mode};
pub use cursor::{CursorState, TextIndex};
pub use export::{generate_prompt, ExportAnnotation, ExportDocument};
pub use input::{handle_key, handle_key_with, Action, Key};
pub use model::{Annotation, Category, Document, Severity, TextRange};
