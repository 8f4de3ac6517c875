//! A batch: the renames of one run, and how far the caller has come in
//! applying them.
//!
//! The batch decides, the caller acts: the caller asks for the rename that is
//! due, tries it on the file system, and reports how it went. In a dry run no
//! rename ever falls due.

use vstd::prelude::*;

use crate::plan::{plan_renames, planned_renames, renames_view};
use crate::record::{ErrorView, FileRename, Operation, RenameError, RenameView};
use crate::walk::{find_matching_entries, matching_paths, root_unreadable, walk_view, WalkItem};

verus! {

/// How an attempted rename went, as mathematics: done, or refused for a cause.
pub type OutcomeView = Result<(), Seq<char>>;

/// A batch as mathematics.
pub struct BatchView {
    /// The planned renames, in walk order.
    pub records: Seq<RenameView>,
    /// The mode of the run.
    pub operation: Operation,
    /// How many of the renames have been attempted: the first `attempted` ones.
    pub attempted: nat,
    /// How many of the attempted renames failed.
    pub failed: nat,
}

impl BatchView {
    /// The counters fit the list.
    pub open spec fn wf(self) -> bool {
        self.failed <= self.attempted <= self.records.len()
    }

    /// The batch of `records` before anything has been attempted.
    pub open spec fn fresh(records: Seq<RenameView>, operation: Operation) -> BatchView {
        BatchView { records, operation, attempted: 0, failed: 0 }
    }

    /// The rename that the caller is to attempt next, if any. A dry run has none.
    pub open spec fn pending(self) -> Option<RenameView> {
        if self.operation == Operation::Mutating && self.attempted < self.records.len() {
            Some(self.records[self.attempted as int])
        } else {
            None
        }
    }

    /// The batch after the caller has reported `outcome` for the pending
    /// rename. The batch moves on to the next rename however this one went.
    pub open spec fn record(self, outcome: OutcomeView) -> BatchView {
        if self.pending() is Some {
            BatchView {
                attempted: self.attempted + 1,
                failed: if outcome is Err {
                    self.failed + 1
                } else {
                    self.failed
                },
                ..self
            }
        } else {
            self
        }
    }

    /// The failure that `outcome` amounts to for the pending rename, if any.
    pub open spec fn failure(self, outcome: OutcomeView) -> Option<ErrorView> {
        match (self.pending(), outcome) {
            (Some(names), Err(cause)) => Some(
                ErrorView::RenameFailed { path: names.original, cause },
            ),
            _ => None,
        }
    }

    /// The batch after the caller has reported `outcomes`, one after the other.
    pub open spec fn record_all(self, outcomes: Seq<OutcomeView>) -> BatchView
        decreases outcomes.len(),
    {
        if outcomes.len() == 0 {
            self
        } else {
            self.record_all(outcomes.drop_last()).record(outcomes.last())
        }
    }
}

/// An outcome as mathematics.
pub open spec fn outcome_view(outcome: Result<(), String>) -> OutcomeView {
    match outcome {
        Ok(_) => Ok(()),
        Err(cause) => Err(cause@),
    }
}

/// The renames of one run and the progress of applying them.
#[derive(Debug)]
pub struct Batch {
    records: Vec<FileRename>,
    operation: Operation,
    attempted: usize,
    failed: usize,
}

impl View for Batch {
    type V = BatchView;

    closed spec fn view(&self) -> BatchView {
        BatchView {
            records: renames_view(self.records@),
            operation: self.operation,
            attempted: self.attempted as nat,
            failed: self.failed as nat,
        }
    }
}

impl Batch {
    #[verifier::type_invariant]
    spec fn counters_fit(&self) -> bool {
        self.failed <= self.attempted <= self.records.len()
    }

    /// The batch of `records`, none of them attempted yet.
    pub fn new(records: Vec<FileRename>, operation: Operation) -> (batch: Self)
        ensures
            batch@ == BatchView::fresh(renames_view(records@), operation),
    {
        Batch { records, operation, attempted: 0, failed: 0 }
    }

    /// The mode of the run.
    pub fn operation(&self) -> (operation: Operation)
        ensures
            operation == self@.operation,
    {
        self.operation
    }

    /// All planned renames in walk order, attempted or not, failed or not.
    pub fn records(&self) -> (records: &Vec<FileRename>)
        ensures
            renames_view(records@) == self@.records,
    {
        &self.records
    }

    /// The planned renames, given up by the batch.
    pub fn into_records(self) -> (records: Vec<FileRename>)
        ensures
            renames_view(records@) == self@.records,
    {
        self.records
    }

    /// How many renames have been attempted so far.
    pub fn attempted(&self) -> (count: usize)
        ensures
            count == self@.attempted,
            self@.wf(),
    {
        proof {
            use_type_invariant(self);
        }
        self.attempted
    }

    /// How many of the attempted renames failed.
    pub fn failed(&self) -> (count: usize)
        ensures
            count == self@.failed,
            self@.wf(),
    {
        proof {
            use_type_invariant(self);
        }
        self.failed
    }

    /// The rename that the caller is to attempt next, or `None` when the
    /// batch is through, which a dry run is from the start.
    pub fn next_rename(&self) -> (due: Option<&FileRename>)
        ensures
            match self@.pending() {
                Some(names) => due matches Some(d) && d@ == names,
                None => due is None,
            },
    {
        match self.operation {
            Operation::Mutating => {
                if self.attempted < self.records.len() {
                    Some(&self.records[self.attempted])
                } else {
                    None
                }
            },
            Operation::DryRun => None,
        }
    }

    /// Takes note of how the pending rename went and moves on to the next
    /// one. Returns the failure to report where the rename was refused. With
    /// no rename pending, nothing changes and nothing is returned.
    pub fn record_outcome(&mut self, outcome: Result<(), String>) -> (failure: Option<RenameError>)
        ensures
            final(self)@ == old(self)@.record(outcome_view(outcome)),
            match old(self)@.failure(outcome_view(outcome)) {
                Some(expected) => failure matches Some(f) && f@ == expected,
                None => failure is None,
            },
    {
        proof {
            use_type_invariant(&*self);
        }
        let due = match self.operation {
            Operation::Mutating => self.attempted < self.records.len(),
            Operation::DryRun => false,
        };
        if !due {
            return None;
        }
        let failure = match outcome {
            Ok(_) => None,
            Err(cause) => {
                let path = String::from_str(self.records[self.attempted].get_original_name());
                Some(RenameError::RenameFailed { path, cause })
            },
        };
        self.attempted = self.attempted + 1;
        if failure.is_some() {
            self.failed = self.failed + 1;
        }
        failure
    }
}

/// The batch for one run over the tree that `walk` describes: a rename is
/// planned for every entry whose file name holds `original`, with `update` in
/// the place of `original` throughout its path, and none has been attempted.
/// A walk that failed at its root gives no batch.
pub fn bulk_rename(
    walk: &Vec<WalkItem>,
    original: &str,
    update: &str,
    operation: &Operation,
) -> (planned: Result<Batch, RenameError>)
    ensures
        planned is Err <==> root_unreadable(walk_view(walk@)),
        planned matches Err(failure) ==> failure == RenameError::InvalidRoot,
        planned matches Ok(batch) ==> batch@ == BatchView::fresh(
            planned_renames(matching_paths(walk_view(walk@), original@), original@, update@),
            *operation,
        ),
{
    match find_matching_entries(original, walk) {
        Ok(matches) => {
            let operations = plan_renames(&matches, original, update);
            Ok(Batch::new(operations, *operation))
        },
        Err(failure) => Err(failure),
    }
}

} // verus!
