//! An embedded shell panel and the file-browsing logic around it.
//!
//! The core of the crate is the terminal subsystem: a sanitizer that removes
//! ANSI control sequences from raw shell output, a bounded scrollback buffer
//! with partial-line continuation, a bounded command history with a recall
//! cursor, and the controller that ties them to a pseudo-terminal session.
//! Around it stand the file-listing and text-search panels' state and
//! formatting logic.

pub mod ansi;
pub mod explorer;
pub mod history;
pub mod paths;
pub mod scrollback;
pub mod search;
pub mod terminal;
pub mod text;
