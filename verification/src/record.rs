//! The values a batch of renames is made of: the mode it runs in, one planned
//! rename, and the ways it can fail.

use vstd::prelude::*;

verus! {

/// Whether a batch changes the file system or only says what it would change.
#[derive(Clone, Copy, Debug, PartialEq, Eq, Structural)]
pub enum Operation {
    Mutating,
    DryRun,
}

impl Operation {
    /// The mode of a run that was asked to be a dry run, or not.
    pub fn for_dry_run(dry_run: bool) -> (operation: Operation)
        ensures
            operation == if dry_run {
                Operation::DryRun
            } else {
                Operation::Mutating
            },
    {
        if dry_run {
            Operation::DryRun
        } else {
            Operation::Mutating
        }
    }
}

/// One planned rename as mathematics: the full path before and after.
pub struct RenameView {
    pub original: Seq<char>,
    pub updated: Seq<char>,
}

/// One planned rename: the full path of an entry and the full path it is to get.
#[derive(Debug)]
pub struct FileRename {
    original_name: String,
    updated_name: String,
}

impl View for FileRename {
    type V = RenameView;

    closed spec fn view(&self) -> RenameView {
        RenameView { original: self.original_name@, updated: self.updated_name@ }
    }
}

impl FileRename {
    /// The rename of the entry at `original_name` to `updated_name`.
    pub fn new(original_name: String, updated_name: String) -> (names: Self)
        ensures
            names@.original == original_name@,
            names@.updated == updated_name@,
    {
        FileRename { original_name, updated_name }
    }

    /// The full path of the entry before the rename.
    pub fn get_original_name(&self) -> (name: &str)
        ensures
            name@ == self@.original,
    {
        self.original_name.as_str()
    }

    /// The full path that the entry is to get.
    pub fn get_updated_name(&self) -> (name: &str)
        ensures
            name@ == self@.updated,
    {
        self.updated_name.as_str()
    }
}

/// A failure as mathematics.
pub enum ErrorView {
    InvalidRoot,
    TraversalEntryError,
    RenameFailed { path: Seq<char>, cause: Seq<char> },
}

/// What can go wrong in a batch.
#[derive(Debug)]
pub enum RenameError {
    /// The walk could not start: the root itself could not be read.
    InvalidRoot,
    /// An entry below the root could not be read.
    TraversalEntryError,
    /// The file system refused to rename `path`, for the reason in `cause`.
    RenameFailed { path: String, cause: String },
}

impl View for RenameError {
    type V = ErrorView;

    open spec fn view(&self) -> ErrorView {
        match self {
            RenameError::InvalidRoot => ErrorView::InvalidRoot,
            RenameError::TraversalEntryError => ErrorView::TraversalEntryError,
            RenameError::RenameFailed { path, cause } => ErrorView::RenameFailed {
                path: path@,
                cause: cause@,
            },
        }
    }
}

/// The line that reports a failure.
pub open spec fn failure_text(failure: ErrorView) -> Seq<char> {
    match failure {
        ErrorView::InvalidRoot => "The root directory cannot be read"@,
        ErrorView::TraversalEntryError => "An entry of the tree cannot be read"@,
        ErrorView::RenameFailed { path, cause } => "Failed to rename "@ + path + " due to "@
            + cause,
    }
}

impl RenameError {
    /// The line that reports this failure.
    pub fn message(&self) -> (line: String)
        ensures
            line@ == failure_text(self@),
    {
        match self {
            RenameError::InvalidRoot => String::from_str("The root directory cannot be read"),
            RenameError::TraversalEntryError => String::from_str(
                "An entry of the tree cannot be read",
            ),
            RenameError::RenameFailed { path, cause } => {
                let mut line = String::from_str("Failed to rename ");
                line.append(path.as_str());
                line.append(" due to ");
                line.append(cause.as_str());
                line
            },
        }
    }
}

/// The line that reports one rename of a batch run in mode `operation`.
pub open spec fn report_text(names: RenameView, operation: Operation) -> Seq<char> {
    match operation {
        Operation::DryRun => names.original + " would have been renamed to "@ + names.updated
            + "."@,
        Operation::Mutating => "Renamed "@ + names.original + " to "@ + names.updated,
    }
}

/// The line that reports `names` after a batch run in mode `operation`.
pub fn report_line(names: &FileRename, operation: &Operation) -> (line: String)
    ensures
        line@ == report_text(names@, *operation),
{
    match operation {
        Operation::DryRun => {
            let mut line = String::from_str(names.get_original_name());
            line.append(" would have been renamed to ");
            line.append(names.get_updated_name());
            line.append(".");
            line
        },
        Operation::Mutating => {
            let mut line = String::from_str("Renamed ");
            line.append(names.get_original_name());
            line.append(" to ");
            line.append(names.get_updated_name());
            line
        },
    }
}

} // verus!
