use dotfiles::secrets::{
    extract_to_env_content, is_likely_secret, scan_content, scan_line, should_scan_file,
    split_lines, summarize_secrets, Secret,
};

fn secret(key: &str, value: &str, file: &str, line_number: usize) -> Secret {
    Secret {
        key: key.to_string(),
        value: value.to_string(),
        file: file.to_string(),
        line_number,
    }
}

#[test]
fn test_is_likely_secret() {
    assert!(is_likely_secret("API_TOKEN"));
    assert!(is_likely_secret("GITHUB_TOKEN"));
    assert!(is_likely_secret("SECRET_KEY"));
    assert!(is_likely_secret("DATABASE_PASSWORD"));

    assert!(!is_likely_secret("PUBLIC_KEY"));
    assert!(!is_likely_secret("SSH_KEY_PATH"));
    assert!(!is_likely_secret("HOME"));
    assert!(!is_likely_secret("PATH"));
}

// Allow/deny interaction: a key holding both a credential keyword and a deny
// substring is excluded.
#[test]
fn deny_substring_wins() {
    assert!(!is_likely_secret("PUBLIC_KEY_TOKEN"));
    assert!(!is_likely_secret("MY_KEYMAP_TOKEN"));
    assert!(!is_likely_secret("TOKEN_KEY_FILE"));
    assert!(is_likely_secret("PRIVATE_TOKEN"));
}

// Scenario: one secret-looking assignment and one ordinary assignment yield
// exactly one secret, on line 1.
#[test]
fn scan_config_sh() {
    let secrets = scan_content(
        "export API_TOKEN=abc123\nexport HOME=/home/user\n",
        "config.sh",
    );
    assert_eq!(secrets.len(), 1);
    assert_eq!(secrets[0].key, "API_TOKEN");
    assert_eq!(secrets[0].value, "abc123");
    assert_eq!(secrets[0].file, "config.sh");
    assert_eq!(secrets[0].line_number, 1);
}

#[test]
fn scan_two_secrets() {
    let secrets = scan_content(
        "export API_TOKEN=abc123\nexport GITHUB_TOKEN=xyz789\nexport HOME=/home/user\n",
        "config.sh",
    );
    assert_eq!(secrets.len(), 2);
    assert_eq!(secrets[0].key, "API_TOKEN");
    assert_eq!(secrets[0].value, "abc123");
    assert_eq!(secrets[1].key, "GITHUB_TOKEN");
    assert_eq!(secrets[1].value, "xyz789");
    assert_eq!(secrets[1].line_number, 2);
}

// Comment suppression: a commented-out assignment never yields a secret.
#[test]
fn scan_skips_comments() {
    let secrets = scan_content(
        "# export API_TOKEN=abc123\n  // export OTHER_TOKEN=x\nexport REAL_TOKEN=xyz789\n",
        "config.sh",
    );
    assert_eq!(secrets.len(), 1);
    assert_eq!(secrets[0].key, "REAL_TOKEN");
    assert_eq!(secrets[0].line_number, 3);
}

#[test]
fn scan_quoted_values() {
    let secrets = scan_content(
        "export API_TOKEN=\"abc123\"\nexport GITHUB_TOKEN='xyz789'\n",
        "config.sh",
    );
    assert_eq!(secrets.len(), 2);
    assert_eq!(secrets[0].value, "abc123");
    assert_eq!(secrets[1].value, "xyz789");
}

#[test]
fn scan_line_without_export() {
    let found = scan_line("GITHUB_TOKEN=xyz789");
    assert_eq!(found, Some(("GITHUB_TOKEN".to_string(), "xyz789".to_string())));

    let not_secret = scan_line("export HOME=/home/user");
    assert_eq!(not_secret, None);

    let denied = scan_line("export PUBLIC_KEY=abc");
    assert_eq!(denied, None);
}

#[test]
fn scan_line_leftmost_match() {
    let found = scan_line("A_TOKEN=1 B_TOKEN=2");
    assert_eq!(found, Some(("A_TOKEN".to_string(), "1".to_string())));
}

#[test]
fn split_lines_endings() {
    let lines = split_lines("a\r\nb\nc");
    assert_eq!(lines, vec!["a".to_string(), "b".to_string(), "c".to_string()]);
    let empty: Vec<String> = Vec::new();
    assert_eq!(split_lines(""), empty);
    assert_eq!(split_lines("x\n"), vec!["x".to_string()]);
}

#[test]
fn test_extract_to_env() {
    let secrets = vec![
        secret("API_TOKEN", "abc123", "config.sh", 1),
        secret("GITHUB_TOKEN", "xyz789", "config.sh", 2),
    ];
    let content = extract_to_env_content(&secrets);
    assert!(content.contains("API_TOKEN=abc123"));
    assert!(content.contains("GITHUB_TOKEN=xyz789"));
    assert!(content.contains("DO NOT COMMIT"));
}

// Dedup by key, first wins: of two secrets with the same key, only the first
// value is written.
#[test]
fn test_extract_to_env_deduplicates() {
    let secrets = vec![
        secret("API_TOKEN", "abc123", "config1.sh", 1),
        secret("API_TOKEN", "different", "config2.sh", 1),
    ];
    let content = extract_to_env_content(&secrets);
    assert_eq!(content.matches("API_TOKEN").count(), 1);
    assert!(content.contains("API_TOKEN=abc123"));
    assert!(!content.contains("different"));
}

// Scenario: two secrets sharing the key K write exactly one line, K=1.
#[test]
fn extract_writes_first_value_once() {
    let secrets = vec![secret("K", "1", "f1", 1), secret("K", "2", "f2", 1)];
    let content = extract_to_env_content(&secrets);
    let body: Vec<&str> = content.lines().filter(|l| !l.starts_with('#') && !l.is_empty()).collect();
    assert_eq!(body, vec!["K=1"]);
}

#[test]
fn test_summarize_secrets() {
    let secrets = vec![
        secret("API_TOKEN", "abc123", "config.sh", 5),
        secret("GITHUB_TOKEN", "xyz789", "config.sh", 10),
    ];
    let summary = summarize_secrets(&secrets);
    assert!(summary.contains("Found 2 secret(s)"));
    assert!(summary.contains("config.sh"));
    assert!(summary.contains("Line 5: API_TOKEN"));
    assert!(summary.contains("Line 10: GITHUB_TOKEN"));
}

#[test]
fn summarize_counts_files_once() {
    let secrets = vec![
        secret("A_TOKEN", "1", "a.sh", 1),
        secret("B_TOKEN", "2", "b.sh", 1),
        secret("C_TOKEN", "3", "a.sh", 2),
    ];
    let summary = summarize_secrets(&secrets);
    assert!(summary.contains("Found 3 secret(s) across 2 file(s)"));
}

#[test]
fn eligible_file_names() {
    assert!(should_scan_file("config.sh"));
    assert!(should_scan_file("app.toml"));
    assert!(should_scan_file("deploy.yaml"));
    assert!(should_scan_file(".zshrc"));
    assert!(!should_scan_file("readme.txt"));
    assert!(!should_scan_file("notes"));
}

#[test]
fn extract_exact_text() {
    let secrets = vec![secret("API_TOKEN", "abc", "f", 1)];
    assert_eq!(
        extract_to_env_content(&secrets),
        "# Extracted secrets - DO NOT COMMIT THIS FILE\n# Add this file to .gitignore\n\nAPI_TOKEN=abc\n"
    );
}

#[test]
fn summarize_exact_text() {
    let secrets = vec![secret("A_TOKEN", "1", "a.sh", 3)];
    assert_eq!(
        summarize_secrets(&secrets),
        "Found 1 secret(s) across 1 file(s):\n\na.sh:\n  Line 3: A_TOKEN\n\n"
    );
}

#[test]
fn quirky_lines_match_like_the_scanner_says() {
    // a key run extends left of the keyword, and lowercase letters end it
    assert_eq!(
        scan_line("MY_TOKEN=x"),
        Some(("MY_TOKEN".to_string(), "x".to_string()))
    );
    assert_eq!(
        scan_line("myTOKEN=x"),
        Some(("TOKEN".to_string(), "x".to_string()))
    );
    // an empty quoted value is no match at that position
    assert_eq!(scan_line("A_TOKEN=\"\""), None);
    // a quoted value closes at the first quote or whitespace
    assert_eq!(
        scan_line("A_TOKEN=\"ab cd\""),
        Some(("A_TOKEN".to_string(), "ab".to_string()))
    );
    // the export keyword needs following whitespace to be consumed
    assert_eq!(
        scan_line("exportA_TOKEN=1"),
        Some(("A_TOKEN".to_string(), "1".to_string()))
    );
}
