//! Planning and bookkeeping for bulk renames by literal substring substitution.
//!
//! A caller walks a directory tree and hands the outcome over as plain values.
//! This crate selects the entries whose file name holds a target text, computes
//! for each the path it is to be renamed to, and keeps track of the batch of
//! such renames while the caller applies them to the file system.
//!
//! - [`text`]: substring search and substitution on text, and their model.
//! - [`walk`]: the steps of a walk and the choice of the matching entries.
//! - [`plan`]: the rename planned for a path.
//! - [`batch`]: a run as a whole, and the order in which renames fall due.
//! - [`record`]: the mode of a run, a planned rename, the failures.
//! - [`laws`]: facts that hold of these functions for all inputs.

pub mod batch;
pub mod laws;
pub mod plan;
pub mod record;
pub mod text;
pub mod walk;

pub use batch::{bulk_rename, Batch};
pub use plan::{file_rename, plan_renames};
pub use record::{report_line, FileRename, Operation, RenameError};
pub use text::{contains_text, replace_text};
pub use walk::{find_matching_entries, matches_existing_name, WalkEntry, WalkItem};
