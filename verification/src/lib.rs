//! A manifest-backed, file-per-entry document store.
//!
//! A container is a directory holding a JSON manifest (`.index.json`) that
//! records an ordered collection of entries, each entry's content living in
//! its own sibling file. Two document kinds share this model: a notebook
//! (ordered markdown/code blocks) and a kanban board (tasks with metadata).
//!
//! The store's logic lives here as pure, verified state transitions: every
//! operation takes the current manifest (and whatever file contents it
//! needs) and returns the new manifest together with the ordered list of
//! file operations to perform. The thin shell that reads and writes the
//! disk stands outside the library and hands in plain values.

pub mod convert;
pub mod ids;
pub mod kanban;
pub mod kinds;
pub mod notebook;
pub mod parser;
pub mod process;
pub mod session;
pub mod settings;
pub mod strutil;
pub mod types;
