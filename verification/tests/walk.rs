use bulk_renamer::{find_matching_entries, matches_existing_name, RenameError, WalkEntry, WalkItem};

fn entry(file_name: &str, path: &str) -> WalkItem {
    WalkItem::Entry(WalkEntry { file_name: Some(file_name.to_string()), path: Some(path.to_string()) })
}

fn tree() -> Vec<WalkItem> {
    vec![
        entry("x", "/tmp/x"),
        entry("foo_1.txt", "/tmp/x/foo_1.txt"),
        entry("bar.txt", "/tmp/x/bar.txt"),
    ]
}

#[test]
fn matches_existing_name_looks_at_the_file_name() {
    let file = WalkEntry {
        file_name: Some("foo_1.txt".to_string()),
        path: Some("/tmp/x/foo_1.txt".to_string()),
    };
    assert!(matches_existing_name("foo", &file));
    assert!(matches_existing_name("_1", &file));
    assert!(!matches_existing_name("bar", &file));
    assert!(!matches_existing_name("FOO", &file));
}

#[test]
fn matches_existing_name_does_not_look_at_the_path() {
    let file = WalkEntry {
        file_name: Some("bar.txt".to_string()),
        path: Some("/tmp/foo/bar.txt".to_string()),
    };
    assert!(!matches_existing_name("foo", &file));
    assert!(!matches_existing_name("tmp", &file));
    assert!(!matches_existing_name("/", &file));
}

#[test]
fn matches_existing_name_passes_over_a_name_that_is_not_text() {
    let file = WalkEntry { file_name: None, path: Some("/tmp/x/foo".to_string()) };
    assert!(!matches_existing_name("foo", &file));
    assert!(!matches_existing_name("", &file));
}

#[test]
fn entry_of_a_step_that_was_read_is_the_entry() {
    let step = entry("foo", "/tmp/foo");
    match step.entry() {
        Ok(read) => {
            assert_eq!(read.file_name.as_deref(), Some("foo"));
            assert_eq!(read.path.as_deref(), Some("/tmp/foo"));
        }
        Err(_) => panic!("the step holds an entry"),
    }
}

#[test]
fn entry_of_a_failure_at_the_root_is_invalid_root() {
    let step = WalkItem::Unreadable { depth: 0 };
    assert!(matches!(step.entry(), Err(RenameError::InvalidRoot)));
}

#[test]
fn entry_of_a_failure_below_the_root_is_a_traversal_error() {
    assert!(matches!(
        WalkItem::Unreadable { depth: 1 }.entry(),
        Err(RenameError::TraversalEntryError)
    ));
    assert!(matches!(
        WalkItem::Unreadable { depth: 7 }.entry(),
        Err(RenameError::TraversalEntryError)
    ));
}

#[test]
fn find_matching_entries_returns_the_matches_and_no_others() {
    let found = find_matching_entries("foo", &tree()).unwrap();
    assert_eq!(found, vec![Some("/tmp/x/foo_1.txt".to_string())]);
}

#[test]
fn find_matching_entries_finds_files_and_directories() {
    let walk = vec![
        entry("x", "/tmp/x"),
        entry("foo", "/tmp/x/foo"),
        entry("foo_1.txt", "/tmp/x/foo/foo_1.txt"),
        entry("bar.txt", "/tmp/x/foo/bar.txt"),
    ];
    let found = find_matching_entries("foo", &walk).unwrap();
    assert_eq!(
        found,
        vec![Some("/tmp/x/foo".to_string()), Some("/tmp/x/foo/foo_1.txt".to_string())]
    );
}

#[test]
fn find_matching_entries_keeps_the_order_of_the_walk() {
    let walk = vec![
        entry("b_foo", "/r/b_foo"),
        entry("c", "/r/c"),
        entry("a_foo", "/r/a_foo"),
        entry("foo", "/r/c/foo"),
    ];
    let found = find_matching_entries("foo", &walk).unwrap();
    assert_eq!(
        found,
        vec![
            Some("/r/b_foo".to_string()),
            Some("/r/a_foo".to_string()),
            Some("/r/c/foo".to_string()),
        ]
    );
}

#[test]
fn find_matching_entries_finds_nothing_where_nothing_matches() {
    let found = find_matching_entries("qux", &tree()).unwrap();
    assert!(found.is_empty());
    let found = find_matching_entries("foo", &Vec::new()).unwrap();
    assert!(found.is_empty());
}

#[test]
fn find_matching_entries_passes_over_unreadable_steps_below_the_root() {
    let walk = vec![
        entry("x", "/tmp/x"),
        WalkItem::Unreadable { depth: 1 },
        entry("foo_1.txt", "/tmp/x/foo_1.txt"),
        WalkItem::Unreadable { depth: 2 },
        entry("foo_2.txt", "/tmp/x/foo_2.txt"),
    ];
    let found = find_matching_entries("foo", &walk).unwrap();
    assert_eq!(
        found,
        vec![Some("/tmp/x/foo_1.txt".to_string()), Some("/tmp/x/foo_2.txt".to_string())]
    );
}

#[test]
fn find_matching_entries_passes_over_names_that_are_not_text() {
    let walk = vec![
        entry("x", "/tmp/x"),
        WalkItem::Entry(WalkEntry { file_name: None, path: None }),
        WalkItem::Entry(WalkEntry { file_name: None, path: Some("/tmp/x/foo".to_string()) }),
        entry("foo_1.txt", "/tmp/x/foo_1.txt"),
    ];
    let found = find_matching_entries("foo", &walk).unwrap();
    assert_eq!(found, vec![Some("/tmp/x/foo_1.txt".to_string())]);
}

#[test]
fn find_matching_entries_keeps_a_match_whose_path_is_not_text() {
    let walk = vec![
        WalkItem::Entry(WalkEntry { file_name: Some("foo".to_string()), path: None }),
        entry("foo_1.txt", "/tmp/x/foo_1.txt"),
    ];
    let found = find_matching_entries("foo", &walk).unwrap();
    assert_eq!(found, vec![None, Some("/tmp/x/foo_1.txt".to_string())]);
}

#[test]
fn find_matching_entries_fails_when_the_root_cannot_be_read() {
    let walk = vec![WalkItem::Unreadable { depth: 0 }];
    assert!(matches!(find_matching_entries("foo", &walk), Err(RenameError::InvalidRoot)));
}

#[test]
fn find_matching_entries_fails_when_the_root_cannot_be_listed() {
    let walk = vec![entry("foo", "/tmp/foo"), WalkItem::Unreadable { depth: 0 }];
    assert!(matches!(find_matching_entries("foo", &walk), Err(RenameError::InvalidRoot)));
}

#[test]
fn find_matching_entries_with_the_empty_target_finds_every_named_entry() {
    let found = find_matching_entries("", &tree()).unwrap();
    assert_eq!(
        found,
        vec![
            Some("/tmp/x".to_string()),
            Some("/tmp/x/foo_1.txt".to_string()),
            Some("/tmp/x/bar.txt".to_string()),
        ]
    );
}
