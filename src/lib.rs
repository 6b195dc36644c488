//! Session controller for browsing and editing a registry-like tree: where
//! the user is, what has been looked up, which pane or prompt is active, and
//! the command in progress.

pub mod context;
pub mod format;
pub mod listing;
pub mod registry;
pub mod selection;
pub mod text;
