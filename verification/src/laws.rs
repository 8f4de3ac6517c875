//! General facts about the functions of this crate, each proved for all inputs.

use vstd::prelude::*;

use crate::batch::{BatchView, OutcomeView};
use crate::plan::renamed;
use crate::record::Operation;
use crate::text::{lemma_replace_absent, lemma_replace_same, occurs_in, replace_all};
use crate::walk::{entry_matches, matching_path, matching_paths, EntryView, ItemView};

verus! {

/// The paths found for a walk are those of the entries whose file name holds
/// the target, and no others: a path is among them exactly if some step of
/// the walk is a matching entry with that path.
pub proof fn lemma_found_are_the_matches(
    walk: Seq<ItemView>,
    target: Seq<char>,
    path: Option<Seq<char>>,
)
    ensures
        matching_paths(walk, target).contains(path) <==> exists|i: int|
            0 <= i < walk.len() && #[trigger] matching_path(walk[i], target) == Some(path),
    decreases walk.len(),
{
    if walk.len() > 0 {
        let pick = |item: ItemView| matching_path(item, target);
        let rest = walk.drop_last();
        let found = walk.filter_map(pick);
        let before = rest.filter_map(pick);
        lemma_found_are_the_matches(rest, target, path);
        // `found` is `before`, followed by the path of the last step where
        // that step is a match.
        if found.contains(path) {
            let k = choose|k: int| 0 <= k < found.len() && found[k] == path;
            if k < before.len() {
                assert(before.contains(path));
            }
        }
        if exists|i: int|
            0 <= i < walk.len() && #[trigger] matching_path(walk[i], target) == Some(path) {
            let i = choose|i: int|
                0 <= i < walk.len() && #[trigger] matching_path(walk[i], target) == Some(path);
            if i < rest.len() {
                assert(matching_path(rest[i], target) == Some(path));
                let k = choose|k: int| 0 <= k < before.len() && before[k] == path;
                assert(found[k] == path);
            } else {
                assert(found[found.len() - 1] == path);
            }
        }
    }
}

/// A step of a walk as a later walk would find it had the rename planned for
/// it been carried out in place: a matching entry whose path is text has `to`
/// for `from` in its name and in its path; every other step, for which no
/// rename is planned, is as it was.
pub open spec fn after_rename(item: ItemView, from: Seq<char>, to: Seq<char>) -> ItemView {
    match item {
        ItemView::Entry(entry) => if entry_matches(entry, from) && entry.path is Some {
            ItemView::Entry(
                EntryView {
                    file_name: Some(replace_all(entry.file_name->0, from, to)),
                    path: Some(replace_all(entry.path->0, from, to)),
                },
            )
        } else {
            item
        },
        ItemView::Unreadable { .. } => item,
    }
}

/// The rename rids the step of the target: where it is a matching entry, a
/// rename is planned for it, and its file name with `to` for `from` no longer
/// holds `from`.
pub open spec fn rid_of_target(item: ItemView, from: Seq<char>, to: Seq<char>) -> bool {
    item matches ItemView::Entry(entry) ==> (entry_matches(entry, from) ==> entry.path is Some
        && !occurs_in(replace_all(entry.file_name->0, from, to), from))
}

/// Once no replaced name holds the target any more, a second pass with the
/// same target over the renamed entries finds nothing.
pub proof fn lemma_second_pass_finds_nothing(walk: Seq<ItemView>, from: Seq<char>, to: Seq<char>)
    requires
        forall|i: int| 0 <= i < walk.len() ==> rid_of_target(#[trigger] walk[i], from, to),
    ensures
        matching_paths(walk.map_values(|item: ItemView| after_rename(item, from, to)), from)
            == Seq::<Option<Seq<char>>>::empty(),
    decreases walk.len(),
{
    let renamed_walk = walk.map_values(|item: ItemView| after_rename(item, from, to));
    if walk.len() > 0 {
        let rest = walk.drop_last();
        assert forall|i: int| 0 <= i < rest.len() implies rid_of_target(
            #[trigger] rest[i],
            from,
            to,
        ) by {
            assert(rest[i] == walk[i]);
        }
        lemma_second_pass_finds_nothing(rest, from, to);
        assert(renamed_walk.drop_last() =~= rest.map_values(
            |item: ItemView| after_rename(item, from, to),
        ));
    }
}

/// Once the replacement has rid a text of the target, replacing a second time
/// changes nothing.
pub proof fn lemma_replacing_again_changes_nothing(
    text: Seq<char>,
    from: Seq<char>,
    to: Seq<char>,
)
    requires
        !occurs_in(replace_all(text, from, to), from),
    ensures
        replace_all(replace_all(text, from, to), from, to) == replace_all(text, from, to),
{
    lemma_replace_absent(replace_all(text, from, to), from, to);
}

/// Where the replacement is the text it replaces, every planned rename keeps
/// the path as it is.
pub proof fn lemma_same_text_keeps_every_path(path: Seq<char>, text: Seq<char>)
    ensures
        renamed(path, text, text).updated == renamed(path, text, text).original,
{
    lemma_replace_same(path, text);
}

/// A dry run never has a rename due, whatever the caller reports: the batch
/// stays as it is and asks for nothing.
pub proof fn lemma_dry_run_asks_for_no_rename(batch: BatchView, outcomes: Seq<OutcomeView>)
    requires
        batch.operation == Operation::DryRun,
    ensures
        batch.pending() is None,
        batch.record_all(outcomes) == batch,
    decreases outcomes.len(),
{
    if outcomes.len() > 0 {
        lemma_dry_run_asks_for_no_rename(batch, outcomes.drop_last());
    }
}

/// A refused rename does not hold up the ones after it: in a mutating run,
/// after as many reports as there were renames before a given one, that one
/// falls due, whichever of the reports were failures; after a report for
/// every rename, none is due. The failures are counted, and nothing else of
/// the batch changes.
pub proof fn lemma_failures_do_not_hold_up_the_batch(batch: BatchView, outcomes: Seq<OutcomeView>)
    requires
        batch.wf(),
        batch.operation == Operation::Mutating,
        batch.attempted + outcomes.len() <= batch.records.len(),
    ensures
        batch.record_all(outcomes).wf(),
        batch.record_all(outcomes).records == batch.records,
        batch.record_all(outcomes).operation == batch.operation,
        batch.record_all(outcomes).attempted == batch.attempted + outcomes.len(),
        batch.record_all(outcomes).failed == batch.failed + outcomes.filter(
            |outcome: OutcomeView| outcome is Err,
        ).len(),
        batch.record_all(outcomes).pending() == if batch.attempted + outcomes.len()
            < batch.records.len() {
            Some(batch.records[(batch.attempted + outcomes.len()) as int])
        } else {
            None
        },
    decreases outcomes.len(),
{
    reveal(Seq::filter);
    if outcomes.len() > 0 {
        lemma_failures_do_not_hold_up_the_batch(batch, outcomes.drop_last());
    }
}

} // verus!
