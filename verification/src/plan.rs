//! From the paths of the matching entries to the renames planned for them.

use vstd::prelude::*;

use crate::record::{FileRename, RenameView};
use crate::text::{replace_all, replace_text};
use crate::walk::{paths_view, text_of};

verus! {

/// The rename planned for the path `path`: every occurrence of `from` in the
/// whole path, not only in its last component, gives way to `to`.
pub open spec fn renamed(path: Seq<char>, from: Seq<char>, to: Seq<char>) -> RenameView {
    RenameView { original: path, updated: replace_all(path, from, to) }
}

/// The rename planned for a path that may not be text: none where it is not.
pub open spec fn planned_rename(
    path: Option<Seq<char>>,
    from: Seq<char>,
    to: Seq<char>,
) -> Option<RenameView> {
    match path {
        Some(path) => Some(renamed(path, from, to)),
        None => None,
    }
}

/// The renames planned for `paths`, in the order of the paths.
pub open spec fn planned_renames(
    paths: Seq<Option<Seq<char>>>,
    from: Seq<char>,
    to: Seq<char>,
) -> Seq<RenameView> {
    paths.filter_map(|path: Option<Seq<char>>| planned_rename(path, from, to))
}

/// A list of planned renames as mathematics.
pub open spec fn renames_view(renames: Seq<FileRename>) -> Seq<RenameView> {
    renames.map_values(|names: FileRename| names@)
}

/// The rename planned for the entry at `file`, or `None` where the path is
/// not valid Unicode.
pub fn file_rename(
    file: &Option<String>,
    original_name: &str,
    new_name: &str,
) -> (names: Option<FileRename>)
    ensures
        match planned_rename(text_of(*file), original_name@, new_name@) {
            Some(planned) => names matches Some(n) && n@ == planned,
            None => names is None,
        },
{
    match file {
        Some(file_name) => {
            let new_file_name = replace_text(file_name.as_str(), original_name, new_name);
            Some(FileRename::new(file_name.clone(), new_file_name))
        },
        None => None,
    }
}

/// The renames planned for `paths`, in the order of the paths; a path that is
/// not valid Unicode gets none.
pub fn plan_renames(
    paths: &Vec<Option<String>>,
    original: &str,
    update: &str,
) -> (renames: Vec<FileRename>)
    ensures
        renames_view(renames@) == planned_renames(paths_view(paths@), original@, update@),
{
    let ghost texts = paths_view(paths@);
    let ghost plan = |path: Option<Seq<char>>| planned_rename(path, original@, update@);
    let mut renames: Vec<FileRename> = Vec::new();
    let mut i: usize = 0;
    while i < paths.len()
        invariant
            i <= paths.len(),
            texts == paths_view(paths@),
            plan == |path: Option<Seq<char>>| planned_rename(path, original@, update@),
            renames_view(renames@) == texts.take(i as int).filter_map(plan),
        decreases paths.len() - i,
    {
        proof {
            texts.lemma_filter_map_take_succ(plan, i as int);
        }
        match file_rename(&paths[i], original, update) {
            Some(names) => {
                renames.push(names);
            },
            None => {},
        }
        i += 1;
    }
    assert(texts.take(i as int) =~= texts);
    renames
}

} // verus!
