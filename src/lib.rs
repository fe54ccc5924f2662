//! The editing model of a small multi-document plain-text editor: documents
//! with coarse-grained undo/redo history and dirty tracking, replace-all, and a
//! session that keeps an ordered set of open documents and plans autosaves.
//!
//! File access, dialogs and rendering are left to the front-end: it performs the
//! reads and writes and hands their outcomes to the operations here.
pub mod document;
pub mod error;
pub mod history;
pub mod naming;
pub mod search;
pub mod session;

pub use document::{Document, DocumentView};
pub use error::EditorError;
pub use session::{AutosaveTask, AutosaveTaskView, DocumentSet, SessionView};
