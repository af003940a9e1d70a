//! Documents: the per-folder registry of tracked files, textual diffs, and
//! the decisions behind listing and forking files.

pub mod versioning;
pub mod diff;
pub mod layout;
