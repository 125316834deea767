use dotfiles::detect::OS;
use dotfiles::symlink::{DirScan, EntryProbe, TargetState};
use dotfiles::validate::{
    check_agent_exists, check_agent_git_repo, check_agent_git_status,
    check_agent_individual_symlinks, check_agent_remote, check_homebrew,
    check_iterm_custom_prefs, check_iterm_plist_in_dotfiles, check_script_sourced, check_symlink,
    check_tool, check_version_manager, validate_all, validate_agent_directory,
    validate_critical, validate_iterm_config, validate_shell_integration, validate_symlinks,
    AgentProbe,
};
use dotfiles::version_manager::VersionManager;

#[test]
fn symlinks_test_validate_symlinks_nonexistent_source() {
    let scan = DirScan {
        source_path: "/nonexistent/source".to_string(),
        target_path: "/target".to_string(),
        source_exists: false,
        entries: Vec::new(),
    };
    let report = validate_symlinks(&scan);
    assert!(report.has_errors());
    assert!(report.checks.iter().any(|c| c.message().contains("does not exist")));
}

#[test]
fn validate_symlinks_all_good() {
    let scan = DirScan {
        source_path: "/src".to_string(),
        target_path: "/tgt".to_string(),
        source_exists: true,
        entries: vec![EntryProbe {
            name: "a".to_string(),
            source_path: "/src/a".to_string(),
            target_path: "/tgt/a".to_string(),
            target: TargetState::LinkTo { dest: "/src/a".to_string() },
        }],
    };
    let report = validate_symlinks(&scan);
    assert_eq!(report.total(), 1);
    assert!(report.is_clean());
    assert!(report.checks[0].message().contains("are valid"));
}

#[test]
fn check_symlink_cases() {
    let good = check_symlink(
        "/tgt/a",
        "/src/a",
        &TargetState::LinkTo { dest: "/src/a".to_string() },
    );
    assert!(good.is_pass());
    assert_eq!(good.name(), "Symlink:a");

    let missing = check_symlink("/tgt/a", "/src/a", &TargetState::Absent);
    assert!(missing.is_error());
    assert!(missing.message().contains("does not exist"));
    assert!(missing.suggestion().is_some());

    let not_link = check_symlink("/tgt/a", "/src/a", &TargetState::IsFile);
    assert!(not_link.is_error());
    assert!(not_link.message().contains("not a symlink"));

    let wrong = check_symlink(
        "/tgt/a",
        "/src/a",
        &TargetState::LinkTo { dest: "/other/a".to_string() },
    );
    assert!(wrong.is_error());
    assert!(wrong.message().contains("instead of"));
}

#[test]
fn test_check_agent_exists_when_directory_missing() {
    let result = check_agent_exists(false);
    assert!(result.is_error());
}

#[test]
fn agent_directory_report_shape() {
    let probe = AgentProbe {
        agent_exists: true,
        git_exists: true,
        remote: Some("git@example.com:me/agent-config.git".to_string()),
        status_output: Some("".to_string()),
        dotfiles_agent_exists: true,
        file_probes: vec![(true, true), (true, false)],
    };
    let report = validate_agent_directory(&probe);
    assert_eq!(report.total(), 5);
    assert_eq!(report.pass_count(), 4);
    assert_eq!(report.warn_count(), 1);
    assert!(report.checks[4].message().contains("settings.json"));

    let missing = AgentProbe {
        agent_exists: false,
        git_exists: false,
        remote: None,
        status_output: None,
        dotfiles_agent_exists: false,
        file_probes: Vec::new(),
    };
    let report = validate_agent_directory(&missing);
    assert_eq!(report.total(), 1);
    assert!(report.has_errors());
}

#[test]
fn agent_git_checks() {
    assert!(check_agent_git_repo(true).is_pass());
    assert!(check_agent_git_repo(false).is_error());
    assert!(check_agent_remote(&Some("url".to_string())).is_pass());
    assert!(check_agent_remote(&None).is_warn());
    assert!(check_agent_git_status(&Some(" \n".to_string())).is_pass());
    assert!(check_agent_git_status(&Some("M file".to_string())).is_warn());
    assert!(check_agent_git_status(&None).is_pass());
}

#[test]
fn agent_individual_symlinks_pass_and_warn() {
    let ok = check_agent_individual_symlinks(&vec![(true, true), (true, true)]);
    assert!(ok.is_pass());

    let missing = check_agent_individual_symlinks(&vec![(true, false), (false, false)]);
    assert!(missing.is_warn());
    assert!(missing.message().contains("AGENT.md"));
}

#[test]
fn test_check_homebrew() {
    let not_mac = check_homebrew(OS::Linux, &None);
    assert!(not_mac.is_pass());
    assert!(not_mac.message().contains("Not required"));

    let installed = check_homebrew(OS::MacOS, &Some("/opt/homebrew/bin/brew".to_string()));
    assert!(installed.is_pass());

    let missing = check_homebrew(OS::MacOS, &None);
    assert!(missing.is_error());
    assert!(missing.suggestion().is_some());
}

#[test]
fn test_check_version_manager() {
    let detected = check_version_manager(&Some((
        VersionManager::Mise,
        Some("/usr/local/bin/mise".to_string()),
    )));
    assert!(detected.is_pass());
    assert!(detected.message().contains("mise installed at /usr/local/bin/mise"));

    let result = check_version_manager(&None);
    assert!(result.is_warn());
    assert!(result.suggestion().is_some());
    assert!(
        result.suggestion().unwrap().contains("mise")
            || result.suggestion().unwrap().contains("asdf")
    );
}

#[test]
fn test_check_tool_stow() {
    let result = check_tool("stow", &None);
    assert!(result.is_pass() || result.is_error());
    assert_eq!(result.name(), "stow");
    if result.is_error() {
        assert!(result.suggestion().is_some());
        assert!(result.suggestion().unwrap().contains("brew install"));
    }

    let installed = check_tool("stow", &Some("/usr/bin/stow".to_string()));
    assert!(installed.is_pass());
    assert!(installed.message().contains("Installed at /usr/bin/stow"));
}

#[test]
fn test_check_tool_unknown() {
    let result = check_tool("definitely_not_installed_tool_12345", &None);
    assert!(result.is_error());
    assert_eq!(result.name(), "definitely_not_installed_tool_12345");
    assert!(result.suggestion().is_some());
}

#[test]
fn test_check_tool_suggestions() {
    let tools = vec!["stow", "git", "fzf", "nvim"];
    for tool in tools {
        let result = check_tool(tool, &None);
        if result.is_error() {
            assert!(result.suggestion().is_some());
            let suggestion = result.suggestion().unwrap();
            assert!(suggestion.contains("brew install"));
            assert!(suggestion.contains(tool));
        }
    }
}

#[test]
fn test_validate_critical() {
    let report = validate_critical(OS::MacOS, &None, &None);
    assert_eq!(report.total(), 2);

    let names: Vec<&str> = report.checks.iter().map(|c| c.name()).collect();
    assert!(names.contains(&"Homebrew"));
    assert!(names.contains(&"stow"));
}

#[test]
fn test_validate_all() {
    let report = validate_all(OS::MacOS, &None, &None, &Vec::new());

    let expected = 2 + dotfiles::packages::essential_packages().len();
    assert_eq!(report.total(), expected);

    assert!(report.checks.iter().any(|c| c.name() == "Homebrew"));
    assert!(report.checks.iter().any(|c| c.name() == "Version Manager"));
    assert!(report.checks.iter().any(|c| c.name() == "stow"));
}

#[test]
fn iterm_checks() {
    let found = check_iterm_plist_in_dotfiles("/df", &vec![false, true, false]);
    assert!(found.is_pass());
    assert!(found.message().contains("/df/iterm/com.googlecode.iterm2.plist"));

    let missing = check_iterm_plist_in_dotfiles("/df", &vec![false, false, false]);
    assert!(missing.is_warn());

    assert!(check_iterm_custom_prefs(&Some("/prefs".to_string())).is_pass());
    assert!(check_iterm_custom_prefs(&None).is_warn());

    let report = validate_iterm_config("/df", &vec![true, false, false], &None);
    assert_eq!(report.total(), 2);
    assert_eq!(report.pass_count(), 1);
    assert_eq!(report.warn_count(), 1);
}

#[test]
fn shell_integration_checks() {
    let sourced = check_script_sourced(
        true,
        &Some("source /df/scripts/check-agent-changes.sh\n".to_string()),
        "/df/scripts/check-agent-changes.sh",
        "check-agent-changes.sh",
    );
    assert!(sourced.is_pass());

    let not_sourced = check_script_sourced(
        true,
        &Some("alias ll='ls -la'\n".to_string()),
        "/df/scripts/check-agent-changes.sh",
        "check-agent-changes.sh",
    );
    assert!(not_sourced.is_error());

    let script_missing = check_script_sourced(
        false,
        &Some("".to_string()),
        "/df/scripts/check-agent-changes.sh",
        "check-agent-changes.sh",
    );
    assert!(script_missing.is_warn());

    let unreadable = check_script_sourced(
        true,
        &None,
        "/df/scripts/check-agent-changes.sh",
        "check-agent-changes.sh",
    );
    assert!(unreadable.is_error());

    let no_zshrc = validate_shell_integration("/df", false, &None, true);
    assert_eq!(no_zshrc.total(), 1);
    assert!(no_zshrc.checks[0].is_warn());

    let ok = validate_shell_integration(
        "/df",
        true,
        &Some(". /df/scripts/check-agent-changes.sh".to_string()),
        true,
    );
    assert!(ok.is_clean());
}
