use vm_core::{add_to_user_path, remove_from_user_path};

#[test]
fn add_to_empty_path_gives_dir_alone() {
    assert_eq!(add_to_user_path("", r"C:\vm\java"), Some(r"C:\vm\java".to_string()));
    assert_eq!(add_to_user_path("   ", r"C:\vm\java"), Some(r"C:\vm\java".to_string()));
}

#[test]
fn add_appends_after_trailing_separators() {
    assert_eq!(
        add_to_user_path(r"C:\Windows;C:\tools;;", r"C:\vm\java"),
        Some(r"C:\Windows;C:\tools;C:\vm\java".to_string())
    );
    assert_eq!(
        add_to_user_path(r"C:\Windows", r"C:\vm\java"),
        Some(r"C:\Windows;C:\vm\java".to_string())
    );
}

#[test]
fn add_skips_a_dir_already_present() {
    assert_eq!(add_to_user_path(r"C:\Windows;C:\vm\java", r"C:\vm\java"), None);
    // quoted, padded, or in another case: still the same directory
    assert_eq!(add_to_user_path(r#"C:\Windows; "c:\VM\Java" ;D:\x"#, r"C:\vm\java"), None);
}

#[test]
fn adding_twice_changes_nothing_the_second_time() {
    let once = add_to_user_path(r"C:\Windows", r"C:\vm\java").unwrap();
    assert_eq!(add_to_user_path(&once, r"C:\vm\java"), None);
}

#[test]
fn remove_drops_matching_and_empty_entries() {
    assert_eq!(
        remove_from_user_path(r#"C:\Windows;;"C:\VM\java";C:\tools"#, r"C:\vm\java"),
        Some(r"C:\Windows;C:\tools".to_string())
    );
    // entries are kept as they were written
    assert_eq!(
        remove_from_user_path(r" C:\Windows ;C:\vm\java", r"C:\vm\java"),
        Some(r" C:\Windows ".to_string())
    );
}

#[test]
fn remove_of_absent_dir_changes_nothing() {
    assert_eq!(remove_from_user_path(r"C:\Windows;C:\tools", r"C:\vm\java"), None);
    assert_eq!(remove_from_user_path("", r"C:\vm\java"), None);
}

#[test]
fn removed_dir_is_gone() {
    let new = remove_from_user_path(r"C:\vm\java;C:\Windows;c:\vm\JAVA", r"C:\vm\java").unwrap();
    assert_eq!(new, r"C:\Windows");
    assert_eq!(remove_from_user_path(&new, r"C:\vm\java"), None);
    assert!(add_to_user_path(&new, r"C:\vm\java").is_some());
}

#[test]
fn remove_of_only_entry_leaves_empty_path() {
    assert_eq!(remove_from_user_path(r"C:\vm\java", r"C:\vm\java"), Some(String::new()));
}

#[test]
fn white_space_agrees_with_std() {
    for u in 0..=0x10FFFFu32 {
        if let Some(c) = char::from_u32(u) {
            assert_eq!(vm_core::text::char_is_white_space(c), c.is_whitespace(), "U+{u:04X}");
        }
    }
}

#[test]
fn remove_undoes_add() {
    for p in ["", r"C:\Windows", r"C:\Windows; D:\tools"] {
        let added = add_to_user_path(p, r"C:\vm\java").unwrap();
        assert_eq!(remove_from_user_path(&added, r"C:\vm\java").unwrap(), p);
    }
}

#[test]
fn setup_twice_leaves_path_as_once() {
    let dir = r"C:\Users\u\.vm\java";
    let bin = r"C:\Users\u\.vm\java\bin";
    let mut path = r"C:\Windows;".to_string();
    for d in [dir, bin] {
        if let Some(new) = add_to_user_path(&path, d) {
            path = new;
        }
    }
    assert_eq!(path, r"C:\Windows;C:\Users\u\.vm\java;C:\Users\u\.vm\java\bin");
    assert_eq!(add_to_user_path(&path, dir), None);
    assert_eq!(add_to_user_path(&path, bin), None);
}
