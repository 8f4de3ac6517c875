//! What a recursive walk of a directory tree yields, and the choice of the
//! entries whose file name holds a target text.

use vstd::prelude::*;

use crate::record::RenameError;
use crate::text::{contains_text, occurs_in};

verus! {

/// The text of an optional string.
pub open spec fn text_of(s: Option<String>) -> Option<Seq<char>> {
    match s {
        Some(s) => Some(s@),
        None => None,
    }
}

/// An entry as mathematics.
pub struct EntryView {
    pub file_name: Option<Seq<char>>,
    pub path: Option<Seq<char>>,
}

/// An entry that the walk could read. Its last path component and its full
/// path are each given as text, or `None` where they are not valid Unicode.
#[derive(Debug)]
pub struct WalkEntry {
    pub file_name: Option<String>,
    pub path: Option<String>,
}

impl View for WalkEntry {
    type V = EntryView;

    open spec fn view(&self) -> EntryView {
        EntryView { file_name: text_of(self.file_name), path: text_of(self.path) }
    }
}

/// A step of a walk as mathematics.
pub enum ItemView {
    Entry(EntryView),
    Unreadable { depth: nat },
}

/// One step of a walk: an entry, or the failure to read one. `depth` counts
/// the directories between the root and the place of the failure; the root
/// itself is at depth 0.
#[derive(Debug)]
pub enum WalkItem {
    Entry(WalkEntry),
    Unreadable { depth: usize },
}

impl View for WalkItem {
    type V = ItemView;

    open spec fn view(&self) -> ItemView {
        match self {
            WalkItem::Entry(entry) => ItemView::Entry(entry@),
            WalkItem::Unreadable { depth } => ItemView::Unreadable { depth: *depth as nat },
        }
    }
}

/// A whole walk as mathematics: its steps in the order they were made.
pub open spec fn walk_view(walk: Seq<WalkItem>) -> Seq<ItemView> {
    walk.map_values(|item: WalkItem| item@)
}

/// The entry is a match for `target`: its file name is text and holds `target`.
pub open spec fn entry_matches(entry: EntryView, target: Seq<char>) -> bool {
    entry.file_name matches Some(name) && occurs_in(name, target)
}

/// The walk failed at its root, so nothing below it was seen.
pub open spec fn root_unreadable(walk: Seq<ItemView>) -> bool {
    exists|i: int| 0 <= i < walk.len() && #[trigger] walk[i] == (ItemView::Unreadable { depth: 0 })
}

/// The path of a step that is a matching entry.
pub open spec fn matching_path(item: ItemView, target: Seq<char>) -> Option<Option<Seq<char>>> {
    match item {
        ItemView::Entry(entry) => if entry_matches(entry, target) {
            Some(entry.path)
        } else {
            None
        },
        ItemView::Unreadable { .. } => None,
    }
}

/// The paths of the matching entries of a walk, in walk order. A path is
/// `None` where it is not valid Unicode.
pub open spec fn matching_paths(walk: Seq<ItemView>, target: Seq<char>) -> Seq<Option<Seq<char>>> {
    walk.filter_map(|item: ItemView| matching_path(item, target))
}

/// The paths of a list as mathematics.
pub open spec fn paths_view(paths: Seq<Option<String>>) -> Seq<Option<Seq<char>>> {
    paths.map_values(|path: Option<String>| text_of(path))
}

impl WalkItem {
    /// The entry of this step, or the failure that stands in its place: a
    /// failure at depth 0 is a failure of the root.
    pub fn entry(&self) -> (read: Result<&WalkEntry, RenameError>)
        ensures
            match self@ {
                ItemView::Entry(entry) => read matches Ok(e) && e@ == entry,
                ItemView::Unreadable { depth } => read matches Err(failure) && failure == (if depth
                    == 0 {
                    RenameError::InvalidRoot
                } else {
                    RenameError::TraversalEntryError
                }),
            },
    {
        match self {
            WalkItem::Entry(entry) => Ok(entry),
            WalkItem::Unreadable { depth } => if *depth == 0 {
                Err(RenameError::InvalidRoot)
            } else {
                Err(RenameError::TraversalEntryError)
            },
        }
    }
}

/// Whether `entry` is a match for `target`.
pub fn matches_existing_name(target: &str, entry: &WalkEntry) -> (matched: bool)
    ensures
        matched == entry_matches(entry@, target@),
{
    match &entry.file_name {
        Some(name) => contains_text(name.as_str(), target),
        None => false,
    }
}

/// The paths of the entries of `walk` whose file name holds `existing_name`, in
/// walk order. Steps below the root that could not be read are passed over; a
/// walk that failed at its root gives no paths at all.
pub fn find_matching_entries(
    existing_name: &str,
    walk: &Vec<WalkItem>,
) -> (found: Result<Vec<Option<String>>, RenameError>)
    ensures
        found is Err <==> root_unreadable(walk_view(walk@)),
        found matches Err(failure) ==> failure == RenameError::InvalidRoot,
        found matches Ok(paths) ==> paths_view(paths@) == matching_paths(
            walk_view(walk@),
            existing_name@,
        ),
{
    let ghost steps = walk_view(walk@);
    let ghost pick = |item: ItemView| matching_path(item, existing_name@);
    let mut paths: Vec<Option<String>> = Vec::new();
    let mut i: usize = 0;
    while i < walk.len()
        invariant
            i <= walk.len(),
            steps == walk_view(walk@),
            pick == |item: ItemView| matching_path(item, existing_name@),
            forall|j: int| 0 <= j < i ==> steps[j] != (ItemView::Unreadable { depth: 0 }),
            paths_view(paths@) == steps.take(i as int).filter_map(pick),
        decreases walk.len() - i,
    {
        proof {
            steps.lemma_filter_map_take_succ(pick, i as int);
        }
        match walk[i].entry() {
            Ok(entry) => {
                if matches_existing_name(existing_name, entry) {
                    let path = match &entry.path {
                        Some(text) => Some(text.clone()),
                        None => None,
                    };
                    paths.push(path);
                }
            },
            Err(RenameError::InvalidRoot) => {
                return Err(RenameError::InvalidRoot);
            },
            Err(_) => {},
        }
        i += 1;
    }
    assert(steps.take(i as int) =~= steps);
    Ok(paths)
}

} // verus!
