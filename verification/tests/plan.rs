use bulk_renamer::{file_rename, plan_renames, FileRename};

fn names(planned: &FileRename) -> (&str, &str) {
    (planned.get_original_name(), planned.get_updated_name())
}

#[test]
fn new_keeps_both_names() {
    let planned = FileRename::new("/tmp/x/foo_1.txt".to_string(), "/tmp/x/baz_1.txt".to_string());
    assert_eq!(planned.get_original_name(), "/tmp/x/foo_1.txt");
    assert_eq!(planned.get_updated_name(), "/tmp/x/baz_1.txt");
}

#[test]
fn new_keeps_names_as_given_even_when_empty() {
    let planned = FileRename::new(String::new(), "b".to_string());
    assert_eq!(planned.get_original_name(), "");
    assert_eq!(planned.get_updated_name(), "b");
}

#[test]
fn file_rename_replaces_the_target_in_the_file_name() {
    let planned = file_rename(&Some("/tmp/x/foo_1.txt".to_string()), "foo", "baz").unwrap();
    assert_eq!(names(&planned), ("/tmp/x/foo_1.txt", "/tmp/x/baz_1.txt"));
}

#[test]
fn file_rename_rewrites_an_ancestor_that_holds_the_target() {
    let planned = file_rename(&Some("/tmp/foo/foo_1.txt".to_string()), "foo", "baz").unwrap();
    assert_eq!(names(&planned), ("/tmp/foo/foo_1.txt", "/tmp/baz/baz_1.txt"));
    let planned = file_rename(&Some("/data/old/sub/old.log".to_string()), "old", "new").unwrap();
    assert_eq!(planned.get_updated_name(), "/data/new/sub/new.log");
}

#[test]
fn file_rename_replaces_every_occurrence_in_one_name() {
    let planned = file_rename(&Some("/r/foo_foo.foo".to_string()), "foo", "x").unwrap();
    assert_eq!(planned.get_updated_name(), "/r/x_x.x");
}

#[test]
fn file_rename_gives_a_record_for_a_path_without_the_target() {
    let planned = file_rename(&Some("/tmp/x/bar.txt".to_string()), "foo", "baz").unwrap();
    assert_eq!(names(&planned), ("/tmp/x/bar.txt", "/tmp/x/bar.txt"));
}

#[test]
fn file_rename_gives_nothing_for_a_path_that_is_not_text() {
    assert!(file_rename(&None, "foo", "baz").is_none());
}

#[test]
fn file_rename_with_the_same_text_keeps_the_path() {
    let planned = file_rename(&Some("/tmp/foo/foo_1.txt".to_string()), "foo", "foo").unwrap();
    assert_eq!(planned.get_updated_name(), planned.get_original_name());
    assert_eq!(planned.get_updated_name(), "/tmp/foo/foo_1.txt");
}

#[test]
fn file_rename_can_delete_the_target() {
    let planned = file_rename(&Some("/tmp/x/foo_1.txt".to_string()), "foo_", "").unwrap();
    assert_eq!(planned.get_updated_name(), "/tmp/x/1.txt");
}

#[test]
fn plan_renames_plans_one_rename_for_each_path_that_is_text() {
    let paths = vec![
        Some("/r/foo_a".to_string()),
        None,
        Some("/r/d/foo_b".to_string()),
        Some("/r/foo".to_string()),
    ];
    let planned = plan_renames(&paths, "foo", "baz");
    let listed: Vec<(&str, &str)> = planned.iter().map(names).collect();
    assert_eq!(
        listed,
        vec![("/r/foo_a", "/r/baz_a"), ("/r/d/foo_b", "/r/d/baz_b"), ("/r/foo", "/r/baz")]
    );
}

#[test]
fn plan_renames_of_no_paths_is_empty() {
    assert!(plan_renames(&Vec::new(), "foo", "baz").is_empty());
    assert!(plan_renames(&vec![None, None], "foo", "baz").is_empty());
}
