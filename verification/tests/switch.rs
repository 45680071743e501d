use vm_core::{
    add_category, add_version, bin_dir_candidate, bin_subdir, current_version, edit_category,
    edit_version, list_categories, list_versions, normalize_bin, remove_category, remove_version,
    resolve_bin_dir, use_version, Config, VersionEntry, VmError,
};

fn empty_cfg() -> Config {
    Config::default()
}

#[test]
fn category_lifecycle() {
    let mut cfg = empty_cfg();
    add_category(&mut cfg, "nodejs", "Node").unwrap();
    assert!(add_category(&mut cfg, "nodejs", "dup").is_err());
    assert_eq!(list_categories(&cfg), vec!["nodejs"]);
    remove_category(&mut cfg, "nodejs").unwrap();
    assert!(list_categories(&cfg).is_empty());
}

#[test]
fn version_and_use() {
    let mut cfg = empty_cfg();
    add_category(&mut cfg, "java", "JDK").unwrap();
    add_version(&mut cfg, "java", "21", "/opt/jdk21", None).unwrap();
    add_version(&mut cfg, "java", "17", "/opt/jdk17", None).unwrap();
    assert_eq!(list_versions(&cfg, "java").unwrap(), vec!["17", "21"]);
    // a version that does not exist cannot be made active
    assert!(use_version(&mut cfg, "java", "99").is_err());
    use_version(&mut cfg, "java", "21").unwrap();
    assert_eq!(current_version(&cfg, "java").unwrap(), Some("21".into()));
    // removing the active version clears it
    remove_version(&mut cfg, "java", "21").unwrap();
    assert_eq!(current_version(&cfg, "java").unwrap(), None);
}

#[test]
fn bin_dir_resolution() {
    let root = "/tmp/vm_test_bin";
    let entry = VersionEntry { path: root.to_string(), bin: None };
    // `bin` under the root is a directory and exists
    assert_eq!(resolve_bin_dir(&entry, true, true).unwrap(), bin_subdir(root));

    let explicit = VersionEntry { path: root.to_string(), bin: Some(root.to_string()) };
    assert_eq!(resolve_bin_dir(&explicit, true, true).unwrap(), root);
}

#[test]
fn bin_none_normalization() {
    let mut cfg = Config::default();
    add_category(&mut cfg, "nodejs", "Node").unwrap();
    // an empty string means "find it"
    add_version(&mut cfg, "nodejs", "20", "/opt/node20", Some("".into())).unwrap();
    assert_eq!(cfg.categories.get("nodejs").unwrap().versions.get("20").unwrap().bin, None);
    // so does one of white space only
    edit_version(&mut cfg, "nodejs", "20", "/opt/node20", Some("   ".into())).unwrap();
    assert_eq!(cfg.categories.get("nodejs").unwrap().versions.get("20").unwrap().bin, None);
    // anything else is kept
    edit_version(&mut cfg, "nodejs", "20", "/opt/node20", Some("/opt/node20/bin".into())).unwrap();
    assert_eq!(
        cfg.categories.get("nodejs").unwrap().versions.get("20").unwrap().bin,
        Some("/opt/node20/bin".into())
    );
}

#[test]
fn empty_bin_resolves_like_none() {
    // an empty `bin` falls back to finding the directory, not to the working directory
    let root = "/tmp/vm_test_bin_empty";
    let entry = VersionEntry { path: root.to_string(), bin: Some("".into()) };
    assert_eq!(resolve_bin_dir(&entry, true, true).unwrap(), bin_subdir(root));
}

#[test]
fn categories_list_in_byte_order() {
    let mut cfg = empty_cfg();
    for name in ["python", "go", "Zig", "java", "nodejs", "été", "go1"] {
        add_category(&mut cfg, name, "").unwrap();
    }
    assert_eq!(
        list_categories(&cfg),
        vec!["Zig", "go", "go1", "java", "nodejs", "python", "été"]
    );
}

#[test]
fn add_then_remove_category_gives_back_config() {
    let mut cfg = empty_cfg();
    add_category(&mut cfg, "java", "JDK").unwrap();
    add_category(&mut cfg, "rust", "toolchains").unwrap();
    remove_category(&mut cfg, "rust").unwrap();
    assert_eq!(list_categories(&cfg), vec!["java"]);
    assert_eq!(cfg.categories.get("java").unwrap().description, "JDK");
}

#[test]
fn add_then_remove_version_gives_back_category() {
    let mut cfg = empty_cfg();
    add_category(&mut cfg, "java", "JDK").unwrap();
    add_version(&mut cfg, "java", "17", "/opt/jdk17", None).unwrap();
    use_version(&mut cfg, "java", "17").unwrap();
    add_version(&mut cfg, "java", "21", "/opt/jdk21", None).unwrap();
    remove_version(&mut cfg, "java", "21").unwrap();
    assert_eq!(list_versions(&cfg, "java").unwrap(), vec!["17"]);
    assert_eq!(current_version(&cfg, "java").unwrap(), Some("17".into()));
}

#[test]
fn removing_other_version_keeps_active() {
    let mut cfg = empty_cfg();
    add_category(&mut cfg, "java", "JDK").unwrap();
    add_version(&mut cfg, "java", "17", "/opt/jdk17", None).unwrap();
    add_version(&mut cfg, "java", "21", "/opt/jdk21", None).unwrap();
    use_version(&mut cfg, "java", "21").unwrap();
    remove_version(&mut cfg, "java", "17").unwrap();
    assert_eq!(current_version(&cfg, "java").unwrap(), Some("21".into()));
}

#[test]
fn edit_category_changes_description_only() {
    let mut cfg = empty_cfg();
    add_category(&mut cfg, "java", "JDK").unwrap();
    add_version(&mut cfg, "java", "17", "/opt/jdk17", None).unwrap();
    edit_category(&mut cfg, "java", "Java kits").unwrap();
    let cat = cfg.categories.get("java").unwrap();
    assert_eq!(cat.description, "Java kits");
    assert_eq!(list_versions(&cfg, "java").unwrap(), vec!["17"]);
}

#[test]
fn edit_version_changes_path() {
    let mut cfg = empty_cfg();
    add_category(&mut cfg, "java", "JDK").unwrap();
    add_version(&mut cfg, "java", "17", "/opt/jdk17", Some("/opt/jdk17/bin".into())).unwrap();
    edit_version(&mut cfg, "java", "17", "/usr/lib/jdk17", None).unwrap();
    let entry = cfg.categories.get("java").unwrap().versions.get("17").unwrap();
    assert_eq!(entry.path, "/usr/lib/jdk17");
    assert_eq!(entry.bin, None);
}

#[test]
fn errors_name_what_is_missing() {
    let mut cfg = empty_cfg();
    match add_version(&mut cfg, "java", "17", "/opt/jdk17", None) {
        Err(VmError::CategoryNotFound(c)) => assert_eq!(c, "java"),
        other => panic!("unexpected {:?}", other),
    }
    add_category(&mut cfg, "java", "JDK").unwrap();
    match add_category(&mut cfg, "java", "again") {
        Err(VmError::CategoryExists(c)) => assert_eq!(c, "java"),
        other => panic!("unexpected {:?}", other),
    }
    add_version(&mut cfg, "java", "17", "/opt/jdk17", None).unwrap();
    match add_version(&mut cfg, "java", "17", "/elsewhere", None) {
        Err(VmError::VersionExists(v, c)) => {
            assert_eq!(v, "17");
            assert_eq!(c, "java");
        }
        other => panic!("unexpected {:?}", other),
    }
    match use_version(&mut cfg, "java", "99") {
        Err(VmError::VersionNotFound(v, c)) => {
            assert_eq!(v, "99");
            assert_eq!(c, "java");
        }
        other => panic!("unexpected {:?}", other),
    }
    match remove_version(&mut cfg, "java", "99") {
        Err(VmError::VersionNotFound(v, _)) => assert_eq!(v, "99"),
        other => panic!("unexpected {:?}", other),
    }
    match edit_version(&mut cfg, "java", "99", "/x", None) {
        Err(VmError::VersionNotFound(v, _)) => assert_eq!(v, "99"),
        other => panic!("unexpected {:?}", other),
    }
    match edit_category(&mut cfg, "go", "Go") {
        Err(VmError::CategoryNotFound(c)) => assert_eq!(c, "go"),
        other => panic!("unexpected {:?}", other),
    }
    match remove_category(&mut cfg, "go") {
        Err(VmError::CategoryNotFound(c)) => assert_eq!(c, "go"),
        other => panic!("unexpected {:?}", other),
    }
    assert!(current_version(&cfg, "go").is_err());
    assert!(list_versions(&cfg, "go").is_err());
    // the failed calls changed nothing
    assert_eq!(list_categories(&cfg), vec!["java"]);
    assert_eq!(list_versions(&cfg, "java").unwrap(), vec!["17"]);
    assert_eq!(current_version(&cfg, "java").unwrap(), None);
}

#[test]
fn normalize_bin_cases() {
    assert_eq!(normalize_bin(None), None);
    assert_eq!(normalize_bin(Some("".into())), None);
    assert_eq!(normalize_bin(Some(" \t\n".into())), None);
    assert_eq!(normalize_bin(Some("\u{3000}".into())), None);
    assert_eq!(normalize_bin(Some(" /opt/x ".into())), Some(" /opt/x ".into()));
    // normalizing twice is normalizing once
    let once = normalize_bin(Some("  ".into()));
    assert_eq!(normalize_bin(once.clone()), once);
}

#[test]
fn bin_dir_candidate_cases() {
    let entry = VersionEntry { path: "/opt/node".into(), bin: None };
    assert_eq!(bin_dir_candidate(&entry, false), "/opt/node");
    assert_eq!(bin_dir_candidate(&entry, true), "/opt/node/bin");
    let blank = VersionEntry { path: "/opt/node".into(), bin: Some("  ".into()) };
    assert_eq!(bin_dir_candidate(&blank, false), "/opt/node");
    let explicit = VersionEntry { path: "/opt/node".into(), bin: Some("/opt/node/sbin".into()) };
    assert_eq!(bin_dir_candidate(&explicit, true), "/opt/node/sbin");
}

#[test]
fn missing_bin_dir_is_named() {
    let entry = VersionEntry { path: "/opt/none".into(), bin: None };
    match resolve_bin_dir(&entry, false, false) {
        Err(VmError::BinDirMissing(p)) => assert_eq!(p, "/opt/none"),
        other => panic!("unexpected {:?}", other),
    }
}

#[test]
fn clone_keeps_everything() {
    let mut cfg = empty_cfg();
    add_category(&mut cfg, "java", "JDK").unwrap();
    add_version(&mut cfg, "java", "17", "/opt/jdk17", Some("/opt/jdk17/bin".into())).unwrap();
    use_version(&mut cfg, "java", "17").unwrap();
    let copy = cfg.clone();
    remove_category(&mut cfg, "java").unwrap();
    assert_eq!(list_categories(&copy), vec!["java"]);
    assert_eq!(current_version(&copy, "java").unwrap(), Some("17".into()));
    let entry = copy.categories.get("java").unwrap().versions.get("17").unwrap();
    assert_eq!(entry.bin, Some("/opt/jdk17/bin".into()));
}
