use dotfiles::backup::{backup_dir_name, get_latest_backup, BackupInfo};
use dotfiles::configs::{scan_file, validate_config, validate_json, validate_toml, validate_yaml};
use dotfiles::detect::detect_conflicts;
use dotfiles::homebrew::{detect_homebrew, get_brew_path, homebrew_paths, is_installed};
use dotfiles::language::{
    get_installer, GoInstaller, JavaInstaller, JavaScriptInstaller, LanguageInstaller,
    PythonInstaller, RustInstaller,
};
use dotfiles::migrate::{migrate_plan, MigrationOptions};
use dotfiles::packages::{
    check_cloud_packages, check_development_packages, check_editor_packages,
    check_essential_packages, check_productivity_packages, essential_packages, optional_packages,
    package_status,
};
use dotfiles::repos::git_marker_path;
use dotfiles::shell::{is_script_sourced, source_line};
use dotfiles::symlink::{DirScan, EntryProbe, TargetState};
use dotfiles::version_manager::{detect, VersionManager};

#[test]
fn test_version_manager_command() {
    assert_eq!(VersionManager::Asdf.command(), "asdf");
    assert_eq!(VersionManager::Mise.command(), "mise");
    assert_eq!(VersionManager::Rtx.command(), "rtx");
}

#[test]
fn test_version_manager_display_name() {
    assert_eq!(VersionManager::Asdf.display_name(), "ASDF");
    assert_eq!(VersionManager::Mise.display_name(), "mise");
    assert_eq!(VersionManager::Rtx.display_name(), "rtx");
}

#[test]
fn test_version_manager_homebrew_package() {
    assert_eq!(VersionManager::Asdf.homebrew_package(), "asdf");
    assert_eq!(VersionManager::Mise.homebrew_package(), "mise");
    assert_eq!(VersionManager::Rtx.homebrew_package(), "rtx");
}

#[test]
fn test_detect() {
    assert_eq!(detect(false, false, false), None);
    assert_eq!(detect(true, true, true), Some(VersionManager::Mise));
    assert_eq!(detect(false, true, true), Some(VersionManager::Asdf));
    assert_eq!(detect(false, false, true), Some(VersionManager::Rtx));
}

#[test]
fn version_manager_test_is_installed_consistency() {
    for mise in [false, true] {
        for asdf in [false, true] {
            for rtx in [false, true] {
                let detected = detect(mise, asdf, rtx);
                match detected {
                    Some(VersionManager::Mise) => assert!(mise),
                    Some(VersionManager::Asdf) => assert!(asdf),
                    Some(VersionManager::Rtx) => assert!(rtx),
                    None => assert!(!mise && !asdf && !rtx),
                }
            }
        }
    }
}

#[test]
fn test_homebrew_paths_constant() {
    let paths = homebrew_paths();
    assert_eq!(paths.len(), 2);
    assert!(paths.iter().any(|p| p == "/opt/homebrew/bin/brew"));
    assert!(paths.iter().any(|p| p == "/usr/local/bin/brew"));
}

#[test]
fn test_detect_homebrew() {
    let result = detect_homebrew(true, false);
    if let Some(path) = result {
        assert!(
            path.contains("/opt/homebrew/bin/brew") || path.contains("/usr/local/bin/brew"),
            "Unexpected homebrew path: {}",
            path
        );
    }
    assert_eq!(detect_homebrew(false, true).unwrap(), "/usr/local/bin/brew");
    assert_eq!(detect_homebrew(false, false), None);
}

#[test]
fn homebrew_test_is_installed_consistency() {
    for arm in [false, true] {
        for intel in [false, true] {
            assert_eq!(is_installed(arm, intel), detect_homebrew(arm, intel).is_some());
        }
    }
}

#[test]
fn test_get_brew_path_consistency() {
    for arm in [false, true] {
        for intel in [false, true] {
            assert_eq!(get_brew_path(arm, intel), detect_homebrew(arm, intel));
        }
    }
}

#[test]
fn test_essential_packages_list() {
    let essential = essential_packages();
    assert_eq!(essential.len(), 7);
    assert!(essential.iter().any(|p| p == "stow"));
    assert!(essential.iter().any(|p| p == "fzf"));
    assert!(essential.iter().any(|p| p == "bat"));
    assert!(essential.iter().any(|p| p == "fd"));
    assert!(essential.iter().any(|p| p == "tree"));
    assert!(essential.iter().any(|p| p == "nvim"));
    assert!(essential.iter().any(|p| p == "tmux"));
}

#[test]
fn test_optional_packages_list() {
    let optional = optional_packages();
    assert_eq!(optional.len(), 4);
    assert!(optional.iter().any(|p| p == "ripgrep"));
    assert!(optional.iter().any(|p| p == "git"));
    assert!(optional.iter().any(|p| p == "curl"));
    assert!(optional.iter().any(|p| p == "wget"));
}

#[test]
fn test_check_essential_packages() {
    let installed = vec!["stow".to_string(), "tmux".to_string()];
    let missing = check_essential_packages(&installed);
    let essential = essential_packages();
    for pkg in &missing {
        assert!(
            essential.iter().any(|p| p == pkg),
            "Package {} is not essential",
            pkg
        );
    }
    assert_eq!(missing.len(), 5);
    assert!(!missing.iter().any(|p| p == "stow"));
}

#[test]
fn check_other_package_groups() {
    let nothing: Vec<String> = Vec::new();
    assert_eq!(check_development_packages(&nothing).len(), 5);
    assert_eq!(check_cloud_packages(&nothing).len(), 3);
    assert_eq!(check_productivity_packages(&nothing).len(), 2);
    assert_eq!(check_editor_packages(&nothing).len(), 2);
}

#[test]
fn test_package_status() {
    let installed = vec!["stow".to_string(), "git".to_string(), "gh".to_string()];
    let status = package_status(&installed);

    let essential = essential_packages();
    for pkg in &status.missing_essential {
        assert!(essential.iter().any(|p| p == pkg));
    }
    for pkg in &status.installed_essential {
        assert!(essential.iter().any(|p| p == pkg));
    }
    let optional = optional_packages();
    for pkg in &status.installed_optional {
        assert!(optional.iter().any(|p| p == pkg));
    }
    assert_eq!(status.installed_essential, vec!["stow".to_string()]);
    assert_eq!(status.installed_optional, vec!["git".to_string()]);
    assert_eq!(status.installed_development, vec!["gh".to_string()]);
}

#[test]
fn test_package_status_completeness() {
    let status = package_status(&Vec::new());
    if status.missing_essential.is_empty() {
        assert!(status.is_complete());
    } else {
        assert!(!status.is_complete());
    }
    let all = essential_packages();
    let status = package_status(&all);
    assert!(status.is_complete());
}

#[test]
fn test_package_status_total() {
    let installed = vec!["stow".to_string(), "git".to_string(), "gh".to_string()];
    let status = package_status(&installed);
    let total = status.total_installed();
    assert_eq!(
        total,
        status.installed_essential.len() + status.installed_optional.len()
            + status.installed_development.len() + status.installed_cloud.len()
            + status.installed_productivity.len() + status.installed_editors.len()
    );
}

#[test]
fn test_go_installer() {
    let installer = GoInstaller;
    assert_eq!(installer.language_name(), "golang");
    assert_eq!(installer.display_name(), "Go");
    assert!(installer.fallback_instructions().contains("go"));
}

#[test]
fn test_java_installer() {
    let installer = JavaInstaller;
    assert_eq!(installer.language_name(), "java");
    assert_eq!(installer.display_name(), "Java");
    assert!(installer.fallback_instructions().contains("Java"));
}

#[test]
fn test_javascript_installer() {
    let installer = JavaScriptInstaller;
    assert_eq!(installer.language_name(), "nodejs");
    assert_eq!(installer.display_name(), "Node.js");
    assert!(installer.fallback_instructions().contains("node"));
}

#[test]
fn test_python_installer() {
    let installer = PythonInstaller;
    assert_eq!(installer.language_name(), "python");
    assert_eq!(installer.display_name(), "Python");
    assert!(installer.fallback_instructions().contains("Python"));
}

#[test]
fn test_rust_installer() {
    let installer = RustInstaller;
    assert_eq!(installer.language_name(), "rust");
    assert_eq!(installer.display_name(), "Rust");
    assert!(installer.fallback_instructions().contains("Rust"));
}

#[test]
fn get_installer_by_either_name() {
    assert!(get_installer("golang").is_some());
    assert_eq!(get_installer("go").unwrap().language_name(), "golang");
    assert_eq!(get_installer("PYTHON").unwrap().language_name(), "python");
    assert!(get_installer("cobol").is_none());
}

#[test]
fn test_backup_info_from_path() {
    let path = "/home/user/.dotfiles-backup-20260129-143022".to_string();
    let backup = BackupInfo::from_path(path.clone(), String::new());

    assert!(backup.is_some());
    let backup = backup.unwrap();
    assert_eq!(backup.timestamp, "20260129-143022");
    assert_eq!(backup.path, path);
}

#[test]
fn test_backup_info_from_invalid_path() {
    let path = "/home/user/not-a-backup".to_string();
    let backup = BackupInfo::from_path(path, String::new());
    assert!(backup.is_none());
}

#[test]
fn latest_backup_picks_newest() {
    let candidates = vec![
        "/h/.dotfiles-backup-20260129-120000".to_string(),
        "/h/not-a-backup".to_string(),
        "/h/.dotfiles-backup-20260129-130000".to_string(),
        "/h/.dotfiles-backup-20260128-090000".to_string(),
    ];
    let latest = get_latest_backup(&candidates).unwrap();
    assert_eq!(latest.timestamp, "20260129-130000");

    assert!(get_latest_backup(&vec!["/h/other".to_string()]).is_none());
}

#[test]
fn backup_name_round_trip() {
    let name = backup_dir_name("20260129-143022");
    assert_eq!(name, ".dotfiles-backup-20260129-143022");
    let parsed = BackupInfo::from_path(name, "/src".to_string()).unwrap();
    assert_eq!(parsed.timestamp, "20260129-143022");
    assert_eq!(parsed.source, "/src");
}

#[test]
fn test_migration_options_new() {
    let source = "/source".to_string();
    let target = "/target".to_string();
    let options = MigrationOptions::new(source.clone(), target.clone());

    assert_eq!(options.source, source);
    assert_eq!(options.target, target);
    assert!(options.extract_secrets);
    assert!(options.create_backup);
    assert!(!options.dry_run);
}

#[test]
fn migrate_plan_dry_run_and_conflicts() {
    let mut options = MigrationOptions::new("/src".to_string(), "/tgt".to_string());
    options.dry_run = true;
    options.create_backup = false;
    let scan = DirScan {
        source_path: "/src".to_string(),
        target_path: "/tgt".to_string(),
        source_exists: true,
        entries: vec![EntryProbe {
            name: "config.txt".to_string(),
            source_path: "/src/config.txt".to_string(),
            target_path: "/tgt/config.txt".to_string(),
            target: TargetState::Absent,
        }],
    };
    let (result, actions) = migrate_plan(&options, &scan, 0, None).unwrap();
    assert_eq!(result.secrets_extracted, 0);
    assert!(result.symlink_report.is_some());
    assert_eq!(actions.len(), 0, "a dry run plans no actions");

    let missing = DirScan {
        source_path: "/nonexistent".to_string(),
        target_path: "/tgt".to_string(),
        source_exists: false,
        entries: Vec::new(),
    };
    assert!(migrate_plan(&options, &missing, 0, None).is_err());

    let mut real = options.clone();
    real.dry_run = false;
    let conflicted = DirScan {
        source_path: "/src".to_string(),
        target_path: "/tgt".to_string(),
        source_exists: true,
        entries: vec![EntryProbe {
            name: "config.txt".to_string(),
            source_path: "/src/config.txt".to_string(),
            target_path: "/tgt/config.txt".to_string(),
            target: TargetState::IsFile,
        }],
    };
    let (result, actions) = migrate_plan(&real, &conflicted, 3, None).unwrap();
    assert_eq!(result.conflicts.len(), 1);
    assert!(result.symlink_report.is_none());
    assert_eq!(result.secrets_extracted, 3);
    assert_eq!(actions.len(), 0);
}

#[test]
fn home_conflict_scan() {
    // tracked files: .zshrc, .tmux.conf, .config/nvim, .gitconfig
    let probes = vec![(true, false), (true, true), (false, false), (true, false)];
    let conflicts = detect_conflicts("/home/user", &probes).unwrap();
    assert_eq!(
        conflicts,
        vec!["/home/user/.zshrc".to_string(), "/home/user/.gitconfig".to_string()]
    );
}

#[test]
fn git_marker() {
    assert_eq!(git_marker_path("/repo"), "/repo/.git");
}

#[test]
fn test_is_script_sourced_with_source() {
    let content = "source /path/to/script.sh\nother content";
    assert!(is_script_sourced(content, "/path/to/script.sh"));
}

#[test]
fn test_is_script_sourced_with_dot() {
    let content = ". /path/to/script.sh\nother content";
    assert!(is_script_sourced(content, "/path/to/script.sh"));
}

#[test]
fn test_is_script_not_sourced() {
    let content = "# some config\nalias ls='ls -la'";
    assert!(!is_script_sourced(content, "/path/to/script.sh"));
}

#[test]
fn source_line_shape() {
    let line = source_line("script.sh", "/p/script.sh");
    assert!(line.contains("source /p/script.sh"));
    assert!(line.contains("script.sh"));
}

#[test]
fn toml_validation() {
    let good = validate_toml("config.toml", "[section]\nkey = \"value\"\n");
    assert!(good.is_pass());
    assert_eq!(good.name(), "Config:config.toml");

    let bad = validate_toml("config.toml", "[section\nkey = value\n");
    assert!(bad.is_error());
    assert!(bad.message().contains("Invalid TOML syntax"));
}

#[test]
fn json_validation() {
    assert!(validate_json("a.json", "{\"k\": [1, 2, 3]}").is_pass());
    let bad = validate_json("a.json", "{\"k\": ");
    assert!(bad.is_error());
    assert!(bad.message().contains("Invalid JSON syntax"));
}

#[test]
fn yaml_validation() {
    assert!(validate_yaml("a.yaml", "k: v\nlist:\n  - 1\n").is_pass());
    let bad = validate_yaml("a.yaml", "k: v\n  bad_indent: [\n");
    assert!(bad.is_error());
    assert!(bad.message().contains("Invalid YAML syntax"));
}

#[test]
fn config_validation_by_extension() {
    assert!(validate_config("a.toml", "k = 1").is_pass());
    assert!(validate_config("a.toml", "k = ").is_error());
    assert!(validate_config("a.json", "{}").is_pass());
    assert!(validate_config("a.yml", "k: v").is_pass());
    let skipped = validate_config("a.txt", "whatever [ not parsed");
    assert!(skipped.is_pass());
    assert!(skipped.message().contains("Skipped validation"));
    let no_ext = validate_config(".zshrc", "whatever");
    assert!(no_ext.is_pass());
    assert!(no_ext.message().contains("No extension"));
}

#[test]
fn hardcoded_path_scan() {
    let clean = scan_file("test.sh", "echo $HOME\nexport PATH=$PATH:$HOME/bin\n");
    assert!(clean.is_pass());

    let dirty = scan_file("test.sh", "export PATH=/Users/jo/bin:$PATH\ncd /home/jo\n");
    assert!(dirty.is_warn());
    assert!(dirty.message().contains("Found 2 hardcoded path(s)"));

    let commented = scan_file("test.sh", "# /Users/jo\necho ok\n");
    assert!(commented.is_pass());
}
