use vm_core::link::{ActivationPhase, CleanupPhase, FsOp, SetupPhase, Step};
use vm_core::{
    add_category, add_version, bin_subdir, category_dir, cleanup_category_dir, config_path,
    init_category_dir, link_active_bin, use_version, Config, VmError,
};

fn java_cfg() -> Config {
    let mut cfg = Config::default();
    add_category(&mut cfg, "java", "JDK").unwrap();
    add_version(&mut cfg, "java", "21", "/opt/jdk21", None).unwrap();
    cfg
}

#[test]
fn config_file_sits_in_config_dir() {
    assert_eq!(config_path("/home/u/.vm"), "/home/u/.vm/config.toml");
    assert_eq!(category_dir("/home/u/.vm", "java"), "/home/u/.vm/java");
    assert_eq!(bin_subdir("/home/u/.vm/java"), "/home/u/.vm/java/bin");
}

#[test]
fn activation_needs_category_active_version_and_entry() {
    let mut cfg = java_cfg();
    assert!(matches!(link_active_bin(&cfg, "/h/.vm", "go"), Err(VmError::CategoryNotFound(_))));
    assert!(matches!(link_active_bin(&cfg, "/h/.vm", "java"), Err(VmError::NoActiveVersion(_))));
    use_version(&mut cfg, "java", "21").unwrap();
    let job = link_active_bin(&cfg, "/h/.vm", "java").unwrap();
    assert_eq!(job.target, "/opt/jdk21");
    assert_eq!(job.link, "/h/.vm/java");
    assert_eq!(job.link_bin, "/h/.vm/java/bin");
}

#[test]
fn activation_runs_in_order() {
    let mut cfg = java_cfg();
    use_version(&mut cfg, "java", "21").unwrap();
    let job = link_active_bin(&cfg, "/h/.vm", "java").unwrap();
    let mut phase = ActivationPhase::CheckTarget;
    let mut seen = Vec::new();
    loop {
        match job.op(phase) {
            FsOp::CheckExists(p) => seen.push(format!("exists {p}")),
            FsOp::RemoveLink(p) => seen.push(format!("remove {p}")),
            FsOp::CreateLink(t, l) => seen.push(format!("link {l} -> {t}")),
            FsOp::AddToUserPath(p) => seen.push(format!("path+ {p}")),
            other => panic!("unexpected {:?}", other),
        }
        match job.advance(phase, true) {
            Step::Next(p) => phase = p,
            Step::Done => break,
            _ => panic!("unexpected failure"),
        }
    }
    assert_eq!(
        seen,
        vec![
            "exists /opt/jdk21",
            "remove /h/.vm/java",
            "link /h/.vm/java -> /opt/jdk21",
            "path+ /h/.vm/java",
            "path+ /h/.vm/java/bin",
        ]
    );
}

#[test]
fn activation_fails_for_missing_root() {
    let mut cfg = java_cfg();
    use_version(&mut cfg, "java", "21").unwrap();
    let job = link_active_bin(&cfg, "/h/.vm", "java").unwrap();
    match job.advance(ActivationPhase::CheckTarget, false) {
        Step::Fail(VmError::BinDirMissing(p)) => assert_eq!(p, "/opt/jdk21"),
        _ => panic!("expected BinDirMissing"),
    }
}

#[test]
fn stuck_link_is_retried_after_inner_link() {
    let mut cfg = java_cfg();
    use_version(&mut cfg, "java", "21").unwrap();
    let job = link_active_bin(&cfg, "/h/.vm", "java").unwrap();
    assert!(matches!(
        job.advance(ActivationPhase::RemoveLink, false),
        Step::Next(ActivationPhase::RemoveInnerLink)
    ));
    assert!(matches!(job.op(ActivationPhase::RemoveInnerLink), FsOp::RemoveLink(p) if p == "/h/.vm/java/bin"));
    assert!(matches!(
        job.advance(ActivationPhase::RemoveInnerLink, false),
        Step::Next(ActivationPhase::RetryRemoveLink)
    ));
    assert!(matches!(job.advance(ActivationPhase::RetryRemoveLink, false), Step::Abort));
    assert!(matches!(job.advance(ActivationPhase::CreateLink, false), Step::Abort));
}

#[test]
fn cleanup_runs_in_order() {
    let job = cleanup_category_dir("/h/.vm", "java");
    assert!(matches!(job.op(CleanupPhase::RemoveDir), FsOp::RemoveLink(p) if p == "/h/.vm/java"));
    assert!(matches!(job.advance(CleanupPhase::RemoveDir, true), Step::Next(CleanupPhase::RemoveBinFromPath)));
    assert!(matches!(job.op(CleanupPhase::RemoveBinFromPath), FsOp::RemoveFromUserPath(p) if p == "/h/.vm/java/bin"));
    assert!(matches!(job.advance(CleanupPhase::RemoveBinFromPath, true), Step::Next(CleanupPhase::RemoveDirFromPath)));
    assert!(matches!(job.op(CleanupPhase::RemoveDirFromPath), FsOp::RemoveFromUserPath(p) if p == "/h/.vm/java"));
    assert!(matches!(job.advance(CleanupPhase::RemoveDirFromPath, true), Step::Done));
    assert!(matches!(job.advance(CleanupPhase::RemoveDir, false), Step::Next(CleanupPhase::RemoveInnerLink)));
    assert!(matches!(job.advance(CleanupPhase::RetryRemoveDir, false), Step::Abort));
}

#[test]
fn setup_creates_missing_dir_only() {
    let job = init_category_dir("/h/.vm", "java");
    assert_eq!(job.dir, "/h/.vm/java");
    assert!(matches!(job.op(SetupPhase::CheckDir), FsOp::CheckEntry(p) if p == "/h/.vm/java"));
    assert!(matches!(job.advance(SetupPhase::CheckDir, true), Step::Next(SetupPhase::AddDirToPath)));
    assert!(matches!(job.advance(SetupPhase::CheckDir, false), Step::Next(SetupPhase::CreateDir)));
    assert!(matches!(job.op(SetupPhase::CreateDir), FsOp::CreateDirAll(p) if p == "/h/.vm/java"));
    assert!(matches!(job.op(SetupPhase::AddBinToPath), FsOp::AddToUserPath(p) if p == "/h/.vm/java/bin"));
    assert!(matches!(job.advance(SetupPhase::AddBinToPath, true), Step::Done));
    assert!(matches!(job.advance(SetupPhase::CreateDir, false), Step::Abort));
}
