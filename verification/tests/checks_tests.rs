use dotfiles::checks::{CheckReport, CheckResult};

#[test]
fn test_check_result_pass() {
    let result = CheckResult::pass("Test", "Everything is good");
    assert!(result.is_pass());
    assert!(!result.is_warn());
    assert!(!result.is_error());
    assert_eq!(result.name(), "Test");
    assert_eq!(result.message(), "Everything is good");
    assert_eq!(result.suggestion(), None);
}

#[test]
fn test_check_result_warn() {
    let result = CheckResult::warn("Test", "Something might be wrong", Some("Try fixing this"));
    assert!(!result.is_pass());
    assert!(result.is_warn());
    assert!(!result.is_error());
    assert_eq!(result.name(), "Test");
    assert_eq!(result.message(), "Something might be wrong");
    assert_eq!(result.suggestion(), Some("Try fixing this"));
}

#[test]
fn test_check_result_error() {
    let result = CheckResult::error("Test", "Something is broken", Some("Run this command"));
    assert!(!result.is_pass());
    assert!(!result.is_warn());
    assert!(result.is_error());
    assert_eq!(result.name(), "Test");
    assert_eq!(result.message(), "Something is broken");
    assert_eq!(result.suggestion(), Some("Run this command"));
}

#[test]
fn test_check_result_error_no_suggestion() {
    let result: CheckResult = CheckResult::error("Test", "Something is broken", None);
    assert!(result.is_error());
    assert_eq!(result.suggestion(), None);
}

#[test]
fn test_check_report_new() {
    let report = CheckReport::new();
    assert_eq!(report.total(), 0);
    assert_eq!(report.pass_count(), 0);
    assert_eq!(report.warn_count(), 0);
    assert_eq!(report.error_count(), 0);
    assert!(report.is_clean());
    assert!(!report.has_errors());
}

#[test]
fn test_check_report_add() {
    let mut report = CheckReport::new();

    report.add(CheckResult::pass("Test1", "Good"));
    assert_eq!(report.pass_count(), 1);
    assert_eq!(report.total(), 1);

    report.add(CheckResult::warn("Test2", "Warning", Some("Fix it")));
    assert_eq!(report.warn_count(), 1);
    assert_eq!(report.total(), 2);

    report.add(CheckResult::error("Test3", "Error", Some("Fix this")));
    assert_eq!(report.error_count(), 1);
    assert_eq!(report.total(), 3);
}

#[test]
fn test_check_report_is_clean() {
    let mut report = CheckReport::new();
    report.add(CheckResult::pass("Test", "Good"));
    assert!(report.is_clean());

    report.add(CheckResult::warn("Test", "Warning", None));
    assert!(!report.is_clean());
}

#[test]
fn test_check_report_has_errors() {
    let mut report = CheckReport::new();
    report.add(CheckResult::pass("Test", "Good"));
    assert!(!report.has_errors());

    report.add(CheckResult::error("Test", "Error", None));
    assert!(report.has_errors());
}

#[test]
fn test_check_report_summary() {
    let mut report = CheckReport::new();
    report.add(CheckResult::pass("Test1", "Good"));
    report.add(CheckResult::warn("Test2", "Warning", None));
    report.add(CheckResult::error("Test3", "Error", None));

    let summary = report.summary();
    assert!(summary.contains("Passed: 1"));
    assert!(summary.contains("Warnings: 1"));
    assert!(summary.contains("Errors: 1"));
}

#[test]
fn test_check_result_format_colored() {
    let pass = CheckResult::pass("Test", "Good");
    let formatted = pass.format_colored();
    assert!(formatted.contains("Test"));
    assert!(formatted.contains("Good"));

    let warn = CheckResult::warn("Test", "Warning", Some("Fix"));
    let formatted = warn.format_colored();
    assert!(formatted.contains("Test"));
    assert!(formatted.contains("Warning"));
    assert!(formatted.contains("Fix"));
}

#[test]
fn report_format_colored_groups_by_category() {
    let mut report = CheckReport::new();
    report.add(CheckResult::pass("Config:a.toml", "Valid TOML syntax"));
    report.add(CheckResult::error("Symlink:b", "Not a symlink", None));
    report.add(CheckResult::pass("Config:c.json", "Valid JSON syntax"));

    let out = report.format_colored();
    assert!(out.contains("Valid TOML syntax"));
    assert!(out.contains("Not a symlink"));
    assert!(out.contains("Valid JSON syntax"));
    assert!(out.contains("Summary"));
    assert!(out.contains("Total: 3 checks"));
    // the two Config checks land in one section: the header appears once
    let config_headers = out.matches("Config\n").count();
    assert_eq!(config_headers, 1);
}
