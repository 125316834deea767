use dotfiles::symlink::manual::ManualSymlinker;
use dotfiles::symlink::stow::StowSymlinker;
use dotfiles::symlink::{
    detect_conflicts, exclusions, validate_symlinks, DirScan, EntryProbe, FsAction, SymlinkReport,
    SymlinkStatus, Symlinker, TargetState,
};

fn entry(name: &str, source_dir: &str, target_dir: &str, state: TargetState) -> EntryProbe {
    EntryProbe {
        name: name.to_string(),
        source_path: format!("{}/{}", source_dir, name),
        target_path: format!("{}/{}", target_dir, name),
        target: state,
    }
}

fn scan_of(source: &str, target: &str, entries: Vec<EntryProbe>) -> DirScan {
    DirScan {
        source_path: source.to_string(),
        target_path: target.to_string(),
        source_exists: true,
        entries,
    }
}

#[test]
fn test_symlink_status_is_success() {
    let created = SymlinkStatus::Created {
        source: "/src".to_string(),
        target: "/target".to_string(),
    };
    assert!(created.is_success());

    let exists = SymlinkStatus::AlreadyExists {
        target: "/target".to_string(),
    };
    assert!(exists.is_success());

    let conflict = SymlinkStatus::Conflict {
        target: "/target".to_string(),
        reason: "exists".to_string(),
    };
    assert!(!conflict.is_success());
}

#[test]
fn test_symlink_status_is_conflict() {
    let conflict = SymlinkStatus::Conflict {
        target: "/target".to_string(),
        reason: "exists".to_string(),
    };
    assert!(conflict.is_conflict());

    let created = SymlinkStatus::Created {
        source: "/src".to_string(),
        target: "/target".to_string(),
    };
    assert!(!created.is_conflict());
}

#[test]
fn test_symlink_status_target() {
    let created = SymlinkStatus::Created {
        source: "/src".to_string(),
        target: "/target".to_string(),
    };
    assert_eq!(created.target(), "/target");
}

#[test]
fn test_symlink_report_new() {
    let report = SymlinkReport::new();
    assert_eq!(report.total(), 0);
    assert!(report.is_success());
}

#[test]
fn test_symlink_report_add() {
    let mut report = SymlinkReport::new();

    report.add(SymlinkStatus::Created {
        source: "/src/file1".to_string(),
        target: "/target/file1".to_string(),
    });
    assert_eq!(report.created.len(), 1);
    assert_eq!(report.total(), 1);

    report.add(SymlinkStatus::Conflict {
        target: "/target/file2".to_string(),
        reason: "exists".to_string(),
    });
    assert_eq!(report.conflicts.len(), 1);
    assert_eq!(report.total(), 2);
    assert!(!report.is_success());
}

#[test]
fn test_symlink_report_summary() {
    let mut report = SymlinkReport::new();
    report.add(SymlinkStatus::Created {
        source: "/src/file1".to_string(),
        target: "/target/file1".to_string(),
    });
    report.add(SymlinkStatus::AlreadyExists {
        target: "/target/file2".to_string(),
    });

    let summary = report.summary();
    assert!(summary.contains("Created: 1"));
    assert!(summary.contains("Already exists: 1"));
}

#[test]
fn test_detect_conflicts_nonexistent_source() {
    let scan = DirScan {
        source_path: "/nonexistent/source".to_string(),
        target_path: "/target".to_string(),
        source_exists: false,
        entries: Vec::new(),
    };
    let conflicts = detect_conflicts(&scan);
    assert_eq!(conflicts.len(), 1);
    assert!(conflicts[0].1.contains("does not exist"));
}

#[test]
fn mod_test_validate_symlinks_nonexistent_source() {
    let scan = DirScan {
        source_path: "/nonexistent/source".to_string(),
        target_path: "/target".to_string(),
        source_exists: false,
        entries: Vec::new(),
    };
    let issues = validate_symlinks(&scan).unwrap();
    assert_eq!(issues.len(), 1);
    assert!(issues[0].1.contains("does not exist"));
}

#[test]
fn test_manual_symlinker_new() {
    let manual = ManualSymlinker::new();
    assert!(!manual.dry_run);
    assert!(!manual.force);
}

#[test]
fn test_manual_symlinker_dry_run() {
    let manual = ManualSymlinker::dry_run();
    assert!(manual.dry_run);
}

#[test]
fn test_manual_symlinker_default() {
    let manual = ManualSymlinker::default();
    assert!(!manual.dry_run);
    assert!(!manual.force);
}

#[test]
fn test_manual_symlinker_is_available() {
    let manual = ManualSymlinker::new();
    assert!(manual.is_available());
}

#[test]
fn test_manual_symlinker_name() {
    let manual = ManualSymlinker::new();
    assert_eq!(manual.name(), "Manual Symlinks");
}

#[test]
fn test_stow_symlinker_new() {
    let stow = StowSymlinker::new();
    assert!(!stow.dry_run);
    assert!(!stow.verbose);
}

#[test]
fn test_stow_symlinker_dry_run() {
    let stow = StowSymlinker::dry_run();
    assert!(stow.dry_run);
}

#[test]
fn test_stow_symlinker_default() {
    let stow = StowSymlinker::default();
    assert!(!stow.dry_run);
    assert!(!stow.verbose);
}

#[test]
fn test_stow_symlinker_name() {
    let stow = StowSymlinker::new();
    assert_eq!(stow.name(), "GNU Stow");
}

#[test]
fn test_stow_exclusions_constant() {
    let ex = exclusions();
    assert!(ex.iter().any(|e| e == ".git"));
    assert!(ex.iter().any(|e| e == ".DS_Store"));
    assert!(ex.iter().any(|e| e == ".agent"));
    assert!(ex.iter().any(|e| e == "README.md"));
    assert!(ex.iter().any(|e| e == "LICENSE"));
    assert_eq!(ex.len(), 5);
}

#[test]
fn test_stow_args_shape() {
    let stow = StowSymlinker::dry_run();
    let args = stow.stow_args("/repo/pkg", "/home/user", false).unwrap();
    assert_eq!(args[0], "-d");
    assert_eq!(args[1], "/repo");
    assert_eq!(args[2], "-t");
    assert_eq!(args[3], "/home/user");
    assert!(args.iter().any(|a| a == "-n"));
    assert_eq!(args.last().unwrap(), "pkg");
}

#[test]
fn test_parse_stow_output_success() {
    let stow = StowSymlinker::new();
    let report = stow.parse_stow_output("/repo/pkg", "/home/user", true, "");
    assert_eq!(report.created.len(), 1);
    assert_eq!(report.created[0], "/home/user");
    assert!(report.is_success());
}

#[test]
fn test_parse_stow_output_conflicts() {
    let stow = StowSymlinker::new();
    let stderr = "WARNING! stowing pkg would cause conflicts:\n  * existing target is neither a link nor a directory: .zshrc\n";
    let report = stow.parse_stow_output("/repo/pkg", "/home/user", false, stderr);
    assert_eq!(report.created.len(), 0);
    assert_eq!(report.conflicts.len(), 2);
    assert!(report.conflicts[1].1.contains("existing target"));
}

// Scenario: a source directory with two files and an empty target yields two
// Created outcomes; running apply again on the resulting state yields two
// AlreadyExists outcomes.
#[test]
fn apply_twice_two_files() {
    let manual = ManualSymlinker::new();
    let first = scan_of(
        "/src",
        "/tgt",
        vec![
            entry("a.txt", "/src", "/tgt", TargetState::Absent),
            entry("b.txt", "/src", "/tgt", TargetState::Absent),
        ],
    );
    let (report, actions) = manual.symlink(&first).unwrap();
    assert_eq!(report.created.len(), 2);
    assert_eq!(report.already_exists.len(), 0);
    assert_eq!(report.conflicts.len(), 0);
    assert_eq!(actions.len(), 2);
    assert!(matches!(&actions[0], FsAction::CreateLink { .. }));

    let second = scan_of(
        "/src",
        "/tgt",
        vec![
            entry(
                "a.txt",
                "/src",
                "/tgt",
                TargetState::LinkTo { dest: "/src/a.txt".to_string() },
            ),
            entry(
                "b.txt",
                "/src",
                "/tgt",
                TargetState::LinkTo { dest: "/src/b.txt".to_string() },
            ),
        ],
    );
    let (report2, actions2) = manual.symlink(&second).unwrap();
    assert_eq!(report2.created.len(), 0);
    assert_eq!(report2.already_exists.len(), 2);
    assert_eq!(report2.conflicts.len(), 0);
    assert_eq!(actions2.len(), 0);
}

// Scenario: a plain file occupying the target path is one conflict for plan,
// and apply without force does not touch it.
#[test]
fn plain_file_conflict_untouched() {
    let scan = scan_of(
        "/src",
        "/tgt",
        vec![entry("a.txt", "/src", "/tgt", TargetState::IsFile)],
    );
    let conflicts = detect_conflicts(&scan);
    assert_eq!(conflicts.len(), 1);
    assert_eq!(conflicts[0].0, "/tgt/a.txt");
    assert!(conflicts[0].1.contains("File already exists"));

    let manual = ManualSymlinker::new();
    let (report, actions) = manual.symlink(&scan).unwrap();
    assert_eq!(report.conflicts.len(), 1);
    assert_eq!(report.created.len(), 0);
    assert_eq!(actions.len(), 0, "a plain-file conflict plans no action");
}

// Scenario: a dry run decides the same outcomes but plans no actions.
#[test]
fn dry_run_plans_nothing() {
    let dry = ManualSymlinker::dry_run();
    let scan = scan_of(
        "/src",
        "/tgt",
        vec![
            entry("a.txt", "/src", "/tgt", TargetState::Absent),
            entry("b.txt", "/src", "/tgt", TargetState::IsDirectory),
        ],
    );
    let (report, actions) = dry.symlink(&scan).unwrap();
    assert_eq!(report.created.len(), 1);
    assert_eq!(report.conflicts.len(), 1);
    assert_eq!(actions.len(), 0);

    let (_removed, remove_actions) = dry.remove(&scan).unwrap();
    assert_eq!(remove_actions.len(), 0);
}

#[test]
fn force_overrides_wrong_link_only() {
    let forced = ManualSymlinker { dry_run: false, force: true };
    let scan = scan_of(
        "/src",
        "/tgt",
        vec![
            entry(
                "a.txt",
                "/src",
                "/tgt",
                TargetState::LinkTo { dest: "/elsewhere/a.txt".to_string() },
            ),
            entry("b.txt", "/src", "/tgt", TargetState::IsFile),
        ],
    );
    let (report, actions) = forced.symlink(&scan).unwrap();
    assert_eq!(report.created, vec!["/tgt/a.txt".to_string()]);
    assert_eq!(report.conflicts.len(), 1);
    assert_eq!(actions.len(), 2);
    assert!(matches!(&actions[0], FsAction::RemoveFile { path } if path == "/tgt/a.txt"));
}

#[test]
fn remove_outcomes() {
    let manual = ManualSymlinker::new();
    let scan = scan_of(
        "/src",
        "/tgt",
        vec![
            entry("a", "/src", "/tgt", TargetState::Absent),
            entry("b", "/src", "/tgt", TargetState::IsFile),
            entry(
                "c",
                "/src",
                "/tgt",
                TargetState::LinkTo { dest: "/src/c".to_string() },
            ),
        ],
    );
    let (report, actions) = manual.remove(&scan).unwrap();
    assert_eq!(report.skipped.len(), 1);
    assert!(report.skipped[0].1.contains("does not exist"));
    assert_eq!(report.conflicts.len(), 1);
    assert!(report.conflicts[0].1.contains("will not remove"));
    assert_eq!(report.created, vec!["/tgt/c".to_string()]);
    assert_eq!(actions.len(), 1);
    assert!(matches!(&actions[0], FsAction::RemoveFile { path } if path == "/tgt/c"));
}

#[test]
fn detect_conflicts_precision_cases() {
    let scan = scan_of(
        "/src",
        "/tgt",
        vec![
            entry("absent", "/src", "/tgt", TargetState::Absent),
            entry(
                "good",
                "/src",
                "/tgt",
                TargetState::LinkTo { dest: "/src/good".to_string() },
            ),
            entry(
                "wrong",
                "/src",
                "/tgt",
                TargetState::LinkTo { dest: "/other/wrong".to_string() },
            ),
            entry("dir", "/src", "/tgt", TargetState::IsDirectory),
        ],
    );
    let conflicts = detect_conflicts(&scan);
    let paths: Vec<&str> = conflicts.iter().map(|c| c.0.as_str()).collect();
    assert_eq!(paths, vec!["/tgt/wrong", "/tgt/dir"]);
    assert!(conflicts[0].1.contains("wrong location"));
    assert!(conflicts[1].1.contains("Directory already exists"));
}

#[test]
fn symlink_missing_source_is_error() {
    let manual = ManualSymlinker::new();
    let scan = DirScan {
        source_path: "/gone".to_string(),
        target_path: "/tgt".to_string(),
        source_exists: false,
        entries: Vec::new(),
    };
    let err = manual.symlink(&scan).unwrap_err();
    assert_eq!(err.detail(), "Source directory does not exist: \"/gone\"");
    let err = manual.remove(&scan).unwrap_err();
    assert!(err.detail().contains("/gone"));
}

#[test]
fn stow_args_invalid_source() {
    let stow = StowSymlinker::new();
    let err = stow.stow_args("/", "/tgt", false).unwrap_err();
    assert_eq!(err.detail(), "Invalid source path");
}

#[test]
fn summary_exact_text() {
    let mut report = SymlinkReport::new();
    for i in 0..12 {
        report.add(SymlinkStatus::Created {
            source: format!("/s/{}", i),
            target: format!("/t/{}", i),
        });
    }
    report.add(SymlinkStatus::Skipped {
        target: "/t/x".to_string(),
        reason: "dry run".to_string(),
    });
    assert_eq!(
        report.summary(),
        "Created: 12, Already exists: 0, Conflicts: 0, Skipped: 1"
    );
}
