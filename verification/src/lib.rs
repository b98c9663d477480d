//! The orchestration core of a modal text editor: the documents that are
//! open, the panes that show them, and the rules that keep both in step.

pub mod close;
pub mod config;
pub mod document;
pub mod editor;
pub mod error;
pub mod graphics;
pub mod language;
pub mod model;
pub mod pane;
pub mod router;
pub mod selection;
pub mod sync;
pub mod theme;
pub mod theorems;
pub mod tree;
pub mod wellformed;
