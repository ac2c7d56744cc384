//! Layout engine for a terminal file-browser panel.
//!
//! The library turns a directory listing and UI state into a draw plan:
//! formatted display entries laid out in columns inside a bordered panel,
//! a selected entry marked for emphasis, and a footer showing either the
//! command buffer or a transient error message. Callers render the plan
//! onto a terminal surface; the library itself performs no I/O.

pub mod columns;
pub mod footer;
pub mod frame;
pub mod item;
pub mod rect;
pub mod split;
