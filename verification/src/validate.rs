//! The doctor-style health checks: each takes the probed state it judges as
//! plain values and returns a structured check result. All filesystem and
//! process probing is the caller's work.

use vstd::prelude::*;

use crate::checks::{CheckReport, CheckResult};
use crate::detect::OS;
use crate::symlink::{issues_of, pairs_view, DirScan, TargetState};
use crate::textfmt::{base_name, base_name_of, concat3, str_eq, strs_view};
use crate::version_manager::VersionManager;

verus! {

/// The name of a per-path symlink check.
pub open spec fn symlink_check_name(target_path: Seq<char>) -> Seq<char> {
    "Symlink:"@ + base_name_of(target_path)
}

/// The target state is a link resolving to the expected source.
pub open spec fn symlink_ok(state: TargetState, expected: Seq<char>) -> bool {
    state matches TargetState::LinkTo { dest } && dest@ == expected
}

/// The message a per-path symlink check reports.
pub open spec fn symlink_check_message(state: TargetState, expected: Seq<char>) -> Seq<char> {
    match state {
        TargetState::Absent => "Symlink does not exist"@,
        TargetState::IsFile => "Path exists but is not a symlink"@,
        TargetState::IsDirectory => "Path exists but is not a symlink"@,
        TargetState::LinkTo { dest } => if dest@ == expected {
            "Points to \""@ + dest@ + "\""@
        } else {
            "Points to \""@ + dest@ + "\" instead of \""@ + expected + "\""@
        },
        TargetState::LinkUnreadable => "Failed to read symlink"@,
    }
}

/// Checks if a specific target path is a symlink resolving to the expected
/// source: a pass exactly when it is, an error saying what stands there
/// otherwise.
pub fn check_symlink(target: &str, expected_source: &str, state: &TargetState) -> (r: CheckResult)
    ensures
        r.spec_name() == symlink_check_name(target@),
        r.spec_message() == symlink_check_message(*state, expected_source@),
        (r is Pass) == symlink_ok(*state, expected_source@),
        !symlink_ok(*state, expected_source@) ==> r is Error,
{
    let name = {
        let mut n = String::from_str("Symlink:");
        n.append(base_name(target).as_str());
        n
    };
    match state {
        TargetState::Absent => {
            let sugg = {
                let mut s = String::from_str("Create symlink: ln -s \"");
                s.append(expected_source);
                s.append("\" \"");
                s.append(target);
                s.append("\"");
                s
            };
            CheckResult::error(name.as_str(), "Symlink does not exist", Some(sugg.as_str()))
        },
        TargetState::LinkTo { dest } => {
            if str_eq(dest.as_str(), expected_source) {
                let msg = concat3("Points to \"", dest.as_str(), "\"");
                CheckResult::pass(name.as_str(), msg.as_str())
            } else {
                let msg = concat3("Points to \"", dest.as_str(), "\" instead of \"");
                let msg = concat3(msg.as_str(), expected_source, "\"");
                let sugg = {
                    let mut s = String::from_str("Fix symlink: ln -sf \"");
                    s.append(expected_source);
                    s.append("\" \"");
                    s.append(target);
                    s.append("\"");
                    s
                };
                CheckResult::error(name.as_str(), msg.as_str(), Some(sugg.as_str()))
            }
        },
        TargetState::LinkUnreadable => {
            CheckResult::error(name.as_str(), "Failed to read symlink", None)
        },
        _ => {
            let sugg = {
                let mut s = String::from_str("Remove file and create symlink: rm \"");
                s.append(target);
                s.append("\" && ln -s \"");
                s.append(expected_source);
                s.append("\" \"");
                s.append(target);
                s.append("\"");
                s
            };
            CheckResult::error(
                name.as_str(),
                "Path exists but is not a symlink",
                Some(sugg.as_str()),
            )
        },
    }
}

/// The issues a validation pass over a snapshot reports: the per-entry
/// issues, or one synthetic issue for a missing source directory.
pub open spec fn val_issues(scan: DirScan) -> Seq<(Seq<char>, Seq<char>)> {
    if scan.source_exists {
        issues_of(scan.entries@)
    } else {
        seq![(scan.source_path@, "Source directory does not exist"@)]
    }
}

/// Validates the snapshot's symlinks as a check report: one pass when there
/// are no issues, otherwise one error per issue, carrying the issue text.
pub fn validate_symlinks(scan: &DirScan) -> (r: CheckReport)
    ensures
        val_issues(*scan).len() == 0 ==> r.checks@.len() == 1 && r.checks@[0] is Pass
            && r.checks@[0].spec_name() == "Symlinks"@,
        val_issues(*scan).len() > 0 ==> {
            &&& r.checks@.len() == val_issues(*scan).len()
            &&& forall|i: int|
                0 <= i < r.checks@.len() ==> (#[trigger] r.checks@[i]) is Error
                    && r.checks@[i].spec_name() == "Symlink:"@ + base_name_of(
                    val_issues(*scan)[i].0,
                ) && r.checks@[i].spec_message() == val_issues(*scan)[i].1
        },
{
    let issues = match crate::symlink::validate_symlinks(scan) {
        Ok(v) => v,
        Err(_) => {
            proof {
                assert(false);
            }
            Vec::new()
        },
    };
    let mut report = CheckReport::new();
    if issues.len() == 0 {
        let mut msg = String::from_str("All symlinks from \"");
        msg.append(scan.source_path.as_str());
        msg.append("\" to \"");
        msg.append(scan.target_path.as_str());
        msg.append("\" are valid");
        report.add(CheckResult::pass("Symlinks", msg.as_str()));
        return report;
    }
    let n = issues.len();
    let mut i: usize = 0;
    while i < n
        invariant
            n == issues@.len(),
            pairs_view(issues@) == val_issues(*scan),
            0 <= i <= n,
            report.checks@.len() == i,
            forall|k: int|
                0 <= k < i ==> (#[trigger] report.checks@[k]) is Error
                    && report.checks@[k].spec_name() == "Symlink:"@ + base_name_of(
                    val_issues(*scan)[k].0,
                ) && report.checks@[k].spec_message() == val_issues(*scan)[k].1,
        decreases n - i,
    {
        let name = {
            let mut s = String::from_str("Symlink:");
            s.append(base_name(issues[i].0.as_str()).as_str());
            s
        };
        let sugg = concat3("Fix symlink at \"", issues[i].0.as_str(), "\"");
        report.add(CheckResult::error(name.as_str(), issues[i].1.as_str(), Some(sugg.as_str())));
        i += 1;
    }
    report
}

/// The check for the presence of the `~/.agent` directory.
pub open spec fn is_agent_exists_check(r: CheckResult, exists_dir: bool) -> bool {
    &&& r.spec_name() == "Agent Directory"@
    &&& (r is Pass) == exists_dir
    &&& (exists_dir ==> r.spec_message() == "~/.agent directory exists"@)
    &&& (!exists_dir ==> r is Error && r.spec_message() == "~/.agent directory not found"@)
}

/// Checks that the `~/.agent` directory exists.
pub fn check_agent_exists(exists_dir: bool) -> (r: CheckResult)
    ensures
        is_agent_exists_check(r, exists_dir),
{
    if exists_dir {
        CheckResult::pass("Agent Directory", "~/.agent directory exists")
    } else {
        CheckResult::error(
            "Agent Directory",
            "~/.agent directory not found",
            Some(
                "Clone agent-config repo: git clone <repo-url> ~/.agent (or run: dotfiles setup)",
            ),
        )
    }
}

/// The check for `~/.agent` being a git repository.
pub open spec fn is_agent_git_check(r: CheckResult, git_exists: bool) -> bool {
    &&& r.spec_name() == "Agent Git"@
    &&& (r is Pass) == git_exists
    &&& (git_exists ==> r.spec_message() == "~/.agent is a git repository"@)
    &&& (!git_exists ==> r is Error && r.spec_message() == "~/.agent is not a git repository"@)
}

/// Checks that `~/.agent` is a git repository.
pub fn check_agent_git_repo(git_exists: bool) -> (r: CheckResult)
    ensures
        is_agent_git_check(r, git_exists),
{
    if git_exists {
        CheckResult::pass("Agent Git", "~/.agent is a git repository")
    } else {
        CheckResult::error(
            "Agent Git",
            "~/.agent is not a git repository",
            Some("Initialize: cd ~/.agent && git init"),
        )
    }
}

/// The view of an optional owned string.
pub open spec fn opt_string_view(o: Option<String>) -> Option<Seq<char>> {
    match o {
        Some(s) => Some(s@),
        None => None,
    }
}

/// The check for the configured git remote of `~/.agent`.
pub open spec fn is_agent_remote_check(r: CheckResult, remote: Option<Seq<char>>) -> bool {
    &&& r.spec_name() == "Agent Remote"@
    &&& (r is Pass) == (remote is Some)
    &&& (remote matches Some(url) ==> r.spec_message() == "Git remote configured: "@ + url)
    &&& (remote is None ==> r is Warn && r.spec_message() == "No git remote configured"@)
}

/// Checks the git remote of `~/.agent`: `remote` carries the configured
/// URL, or nothing when the probe failed or none is configured.
pub fn check_agent_remote(remote: &Option<String>) -> (r: CheckResult)
    ensures
        is_agent_remote_check(r, opt_string_view(*remote)),
{
    match remote {
        Some(url) => {
            let msg = crate::textfmt::concat2("Git remote configured: ", url.as_str());
            CheckResult::pass("Agent Remote", msg.as_str())
        },
        None => CheckResult::warn(
            "Agent Remote",
            "No git remote configured",
            Some("Add remote: git -C ~/.agent remote add origin <url>"),
        ),
    }
}

/// The text holds only whitespace.
pub open spec fn all_whitespace(s: Seq<char>) -> bool {
    forall|i: int| 0 <= i < s.len() ==> crate::secrets::is_space_char(#[trigger] s[i])
}

fn is_all_whitespace(s: &str) -> (r: bool)
    ensures
        r == all_whitespace(s@),
{
    let ls = s.unicode_len();
    let mut i: usize = 0;
    while i < ls
        invariant
            ls == s@.len(),
            0 <= i <= ls,
            forall|q: int| 0 <= q < i ==> crate::secrets::is_space_char(#[trigger] s@[q]),
        decreases ls - i,
    {
        let c = s.get_char(i);
        let u = c as u32;
        let space = (9 <= u && u <= 13) || u == 32 || u == 0x85 || u == 0xA0 || u == 0x1680 || (
        0x2000 <= u && u <= 0x200A) || u == 0x2028 || u == 0x2029 || u == 0x202F || u == 0x205F
            || u == 0x3000;
        if !space {
            return false;
        }
        i += 1;
    }
    true
}

/// The check for uncommitted changes in `~/.agent`.
pub open spec fn is_agent_status_check(r: CheckResult, status: Option<Seq<char>>) -> bool {
    &&& r.spec_name() == "Agent Git Status"@
    &&& (status matches Some(out) ==> {
        &&& (all_whitespace(out) ==> r is Pass && r.spec_message() == "No uncommitted changes"@)
        &&& (!all_whitespace(out) ==> r is Warn && r.spec_message()
            == "Uncommitted changes in ~/.agent"@)
    })
    &&& (status is None ==> r is Pass && r.spec_message() == "Unable to check git status"@)
}

/// Checks the working-tree status of `~/.agent`: `status` carries the
/// porcelain output, or nothing when the probe failed.
pub fn check_agent_git_status(status: &Option<String>) -> (r: CheckResult)
    ensures
        is_agent_status_check(r, opt_string_view(*status)),
{
    match status {
        Some(out) => {
            if is_all_whitespace(out.as_str()) {
                CheckResult::pass("Agent Git Status", "No uncommitted changes")
            } else {
                CheckResult::warn(
                    "Agent Git Status",
                    "Uncommitted changes in ~/.agent",
                    Some("Review and commit: cd ~/.agent && git status"),
                )
            }
        },
        None => CheckResult::pass("Agent Git Status", "Unable to check git status"),
    }
}

/// The files of the `.agent` directory that are linked one by one.
pub open spec fn spec_expected_agent_files() -> Seq<Seq<char>> {
    seq!["AGENT.md"@, "settings.json"@]
}

/// The files of the `.agent` directory that are linked one by one.
pub fn expected_agent_files() -> (r: Vec<String>)
    ensures
        strs_view(r@) == spec_expected_agent_files(),
{
    let mut v: Vec<String> = Vec::new();
    v.push(String::from_str("AGENT.md"));
    v.push(String::from_str("settings.json"));
    proof {
        assert(strs_view(v@) =~= spec_expected_agent_files());
    }
    v
}

/// The probe for the file at position `i`: whether its source exists, and
/// whether its target exists. A missing probe counts as both absent.
pub open spec fn pair_probe_at(probes: Seq<(bool, bool)>, i: int) -> (bool, bool) {
    if 0 <= i < probes.len() {
        probes[i]
    } else {
        (false, false)
    }
}

/// The expected files whose source exists while the target link does not.
pub open spec fn missing_agent_files(
    files: Seq<Seq<char>>,
    probes: Seq<(bool, bool)>,
) -> Seq<Seq<char>>
    decreases files.len(),
{
    if files.len() == 0 {
        Seq::empty()
    } else {
        missing_agent_files(files.drop_last(), probes) + {
            let pr = pair_probe_at(probes, files.len() - 1);
            if pr.0 && !pr.1 {
                seq![files.last()]
            } else {
                Seq::empty()
            }
        }
    }
}

/// The names joined with `, ` between them.
pub open spec fn join_comma(names: Seq<Seq<char>>) -> Seq<char>
    decreases names.len(),
{
    if names.len() == 0 {
        Seq::empty()
    } else if names.len() == 1 {
        names.last()
    } else {
        join_comma(names.drop_last()) + ", "@ + names.last()
    }
}

/// The check for the individual file links of the `.agent` directory.
pub open spec fn is_agent_links_check(r: CheckResult, probes: Seq<(bool, bool)>) -> bool {
    &&& r.spec_name() == "Agent Symlinks"@
    &&& (missing_agent_files(spec_expected_agent_files(), probes).len() == 0 ==> r is Pass
        && r.spec_message() == "Individual file symlinks configured"@)
    &&& (missing_agent_files(spec_expected_agent_files(), probes).len() > 0 ==> r is Warn
        && r.spec_message() == "Missing symlinks: "@ + join_comma(
        missing_agent_files(spec_expected_agent_files(), probes),
    ))
}

/// Checks the individual file links of the `.agent` directory. `probes`
/// pairs up with `expected_agent_files()`: per file, whether the source
/// exists and whether the target exists.
pub fn check_agent_individual_symlinks(probes: &Vec<(bool, bool)>) -> (r: CheckResult)
    ensures
        is_agent_links_check(r, probes@),
{
    let files = expected_agent_files();
    let n = files.len();
    let mut missing: Vec<String> = Vec::new();
    let mut i: usize = 0;
    proof {
        assert(strs_view(files@).take(0) =~= Seq::empty());
        assert(strs_view(missing@) =~= missing_agent_files(strs_view(files@).take(0), probes@));
    }
    while i < n
        invariant
            n == files@.len(),
            strs_view(files@) == spec_expected_agent_files(),
            0 <= i <= n,
            strs_view(missing@) == missing_agent_files(strs_view(files@).take(i as int), probes@),
        decreases n - i,
    {
        let ghost prev = missing@;
        let (src_exists, tgt_exists) = if i < probes.len() {
            probes[i]
        } else {
            (false, false)
        };
        if src_exists && !tgt_exists {
            missing.push(files[i].clone());
        }
        proof {
            let t1 = strs_view(files@).take(i + 1);
            assert(t1.drop_last() =~= strs_view(files@).take(i as int));
            assert(t1.last() == strs_view(files@)[i as int]);
            assert(pair_probe_at(probes@, i as int) == (src_exists, tgt_exists));
            if src_exists && !tgt_exists {
                assert(strs_view(missing@) =~= strs_view(prev) + seq![files@[i as int]@]);
            }
            assert(strs_view(missing@) =~= missing_agent_files(t1, probes@));
        }
        i += 1;
    }
    proof {
        assert(strs_view(files@).take(n as int) =~= strs_view(files@));
    }
    if missing.len() == 0 {
        CheckResult::pass("Agent Symlinks", "Individual file symlinks configured")
    } else {
        let mut joined = String::new();
        let m = missing.len();
        let mut k: usize = 0;
        while k < m
            invariant
                m == missing@.len(),
                m > 0,
                0 <= k <= m,
                joined@ == join_comma(strs_view(missing@).take(k as int)),
            decreases m - k,
        {
            if k > 0 {
                joined.append(", ");
            }
            joined.append(missing[k].as_str());
            proof {
                let t1 = strs_view(missing@).take(k + 1);
                assert(t1.drop_last() =~= strs_view(missing@).take(k as int));
                assert(t1.last() == strs_view(missing@)[k as int]);
                if k == 0 {
                    assert(joined@ =~= join_comma(t1));
                } else {
                    assert(joined@ =~= join_comma(t1));
                }
            }
            k += 1;
        }
        proof {
            assert(strs_view(missing@).take(m as int) =~= strs_view(missing@));
        }
        let msg = crate::textfmt::concat2("Missing symlinks: ", joined.as_str());
        CheckResult::warn(
            "Agent Symlinks",
            msg.as_str(),
            Some("Run: dotfiles setup to create symlinks"),
        )
    }
}

/// The probed state of the `~/.agent` setup.
#[derive(Debug, Clone)]
pub struct AgentProbe {
    /// The `~/.agent` directory exists.
    pub agent_exists: bool,
    /// `~/.agent/.git` exists.
    pub git_exists: bool,
    /// The configured git remote URL, when one could be read.
    pub remote: Option<String>,
    /// The porcelain status output, when it could be read.
    pub status_output: Option<String>,
    /// The dotfiles repository has a `.agent` directory.
    pub dotfiles_agent_exists: bool,
    /// Per expected file: whether the source exists and the target exists.
    pub file_probes: Vec<(bool, bool)>,
}

/// Validates the `~/.agent` directory setup: its presence always; when
/// present also its git state; and the individual file links when the
/// dotfiles repository tracks them.
pub fn validate_agent_directory(probe: &AgentProbe) -> (r: CheckReport)
    ensures
        is_agent_exists_check(r.checks@[0], probe.agent_exists),
        !probe.agent_exists ==> r.checks@.len() == 1,
        probe.agent_exists ==> {
            &&& r.checks@.len() == (if probe.dotfiles_agent_exists {
                5int
            } else {
                4int
            })
            &&& is_agent_git_check(r.checks@[1], probe.git_exists)
            &&& is_agent_remote_check(r.checks@[2], opt_string_view(probe.remote))
            &&& is_agent_status_check(r.checks@[3], opt_string_view(probe.status_output))
            &&& (probe.dotfiles_agent_exists ==> is_agent_links_check(
                r.checks@[4],
                probe.file_probes@,
            ))
        },
{
    let mut report = CheckReport::new();
    report.add(check_agent_exists(probe.agent_exists));
    if probe.agent_exists {
        report.add(check_agent_git_repo(probe.git_exists));
        report.add(check_agent_remote(&probe.remote));
        report.add(check_agent_git_status(&probe.status_output));
        if probe.dotfiles_agent_exists {
            report.add(check_agent_individual_symlinks(&probe.file_probes));
        }
    }
    report
}

/// The suggestion for installing a missing tool: the known tools get their
/// Homebrew command, any other tool the generic one.
pub open spec fn spec_tool_suggestion(tool: Seq<char>) -> Seq<char> {
    if tool == "stow"@ {
        "brew install stow"@
    } else if tool == "git"@ {
        "brew install git"@
    } else if tool == "fzf"@ {
        "brew install fzf"@
    } else if tool == "bat"@ {
        "brew install bat"@
    } else if tool == "fd"@ {
        "brew install fd"@
    } else if tool == "tree"@ {
        "brew install tree"@
    } else if tool == "nvim"@ {
        "brew install nvim"@
    } else if tool == "tmux"@ {
        "brew install tmux"@
    } else if tool == "ripgrep"@ {
        "brew install ripgrep"@
    } else {
        "brew install <package>"@
    }
}

/// The check for Homebrew's presence.
pub open spec fn is_homebrew_check(r: CheckResult, os: OS, brew_path: Option<Seq<char>>) -> bool {
    &&& r.spec_name() == "Homebrew"@
    &&& (!(os is MacOS) ==> r is Pass && r.spec_message() == "Not required (not on macOS)"@)
    &&& (os is MacOS ==> {
        &&& (brew_path matches Some(p) ==> r is Pass && r.spec_message() == "Installed at "@ + p)
        &&& (brew_path is None ==> r is Error && r.spec_message() == "Not installed"@)
    })
}

/// Validates that Homebrew is installed (required on macOS only).
pub fn check_homebrew(os: OS, brew_path: &Option<String>) -> (r: CheckResult)
    ensures
        is_homebrew_check(r, os, opt_string_view(*brew_path)),
{
    if !matches!(os, OS::MacOS) {
        return CheckResult::pass("Homebrew", "Not required (not on macOS)");
    }
    match brew_path {
        Some(p) => {
            let msg = crate::textfmt::concat2("Installed at ", p.as_str());
            CheckResult::pass("Homebrew", msg.as_str())
        },
        None => CheckResult::error(
            "Homebrew",
            "Not installed",
            Some(
                "Install with: /bin/bash -c \"$(curl -fsSL https://raw.githubusercontent.com/Homebrew/install/HEAD/install.sh)\"",
            ),
        ),
    }
}

/// The check for a version manager's presence. `vm` carries the detected
/// manager and, when known, the path of its executable.
pub open spec fn is_version_manager_check(
    r: CheckResult,
    vm: Option<(VersionManager, Option<Seq<char>>)>,
) -> bool {
    &&& r.spec_name() == "Version Manager"@
    &&& (r is Pass) == (vm is Some)
    &&& (vm matches Some(p) ==> r.spec_message() == p.0.spec_display_name() + " installed at "@
        + (match p.1 {
        Some(path) => path,
        None => "unknown"@,
    }))
    &&& (vm is None ==> r is Warn && r.spec_message()
        == "No version manager detected (ASDF, mise, or rtx)"@)
}

/// The view of an optional manager probe.
pub open spec fn vm_probe_view(vm: Option<(VersionManager, Option<String>)>) -> Option<
    (VersionManager, Option<Seq<char>>),
> {
    match vm {
        Some(p) => Some(
            (
                p.0,
                match p.1 {
                    Some(path) => Some(path@),
                    None => None,
                },
            ),
        ),
        None => None,
    }
}

/// Validates that a version manager is installed.
pub fn check_version_manager(vm: &Option<(VersionManager, Option<String>)>) -> (r: CheckResult)
    ensures
        is_version_manager_check(r, vm_probe_view(*vm)),
{
    match vm {
        Some(p) => {
            let mut msg = String::from_str(p.0.display_name());
            msg.append(" installed at ");
            match &p.1 {
                Some(path) => msg.append(path.as_str()),
                None => msg.append("unknown"),
            }
            CheckResult::pass("Version Manager", msg.as_str())
        },
        None => CheckResult::warn(
            "Version Manager",
            "No version manager detected (ASDF, mise, or rtx)",
            Some("Install mise with: brew install mise"),
        ),
    }
}

/// The check for one tool's presence.
pub open spec fn is_tool_check(r: CheckResult, tool: Seq<char>, path: Option<Seq<char>>) -> bool {
    &&& r.spec_name() == tool
    &&& (r is Pass) == (path is Some)
    &&& (path matches Some(p) ==> r.spec_message() == "Installed at "@ + p)
    &&& (path is None ==> r is Error && r.spec_message() == "Not installed"@
        && r.spec_suggestion() == Some("Install with: "@ + spec_tool_suggestion(tool)))
}

/// Validates that a specific tool is installed; `path` carries where, when
/// it is.
pub fn check_tool(tool: &str, path: &Option<String>) -> (r: CheckResult)
    ensures
        is_tool_check(r, tool@, opt_string_view(*path)),
{
    match path {
        Some(p) => {
            let msg = crate::textfmt::concat2("Installed at ", p.as_str());
            CheckResult::pass(tool, msg.as_str())
        },
        None => {
            let cmd = if str_eq(tool, "stow") {
                "brew install stow"
            } else if str_eq(tool, "git") {
                "brew install git"
            } else if str_eq(tool, "fzf") {
                "brew install fzf"
            } else if str_eq(tool, "bat") {
                "brew install bat"
            } else if str_eq(tool, "fd") {
                "brew install fd"
            } else if str_eq(tool, "tree") {
                "brew install tree"
            } else if str_eq(tool, "nvim") {
                "brew install nvim"
            } else if str_eq(tool, "tmux") {
                "brew install tmux"
            } else if str_eq(tool, "ripgrep") {
                "brew install ripgrep"
            } else {
                "brew install <package>"
            };
            let sugg = crate::textfmt::concat2("Install with: ", cmd);
            CheckResult::error(tool, "Not installed", Some(sugg.as_str()))
        },
    }
}

/// The probe for the essential tool at position `i`: the path of its
/// executable, when installed. A missing probe counts as not installed.
pub open spec fn tool_probe_at(paths: Seq<Option<String>>, i: int) -> Option<Seq<char>> {
    if 0 <= i < paths.len() {
        opt_string_view(paths[i])
    } else {
        None
    }
}

/// Validates all dependencies: Homebrew, a version manager, and each
/// essential tool. `tool_paths` pairs up with `essential_packages()`.
pub fn validate_all(
    os: OS,
    brew_path: &Option<String>,
    vm: &Option<(VersionManager, Option<String>)>,
    tool_paths: &Vec<Option<String>>,
) -> (r: CheckReport)
    ensures
        r.checks@.len() == 2 + crate::packages::spec_essential_packages().len(),
        is_homebrew_check(r.checks@[0], os, opt_string_view(*brew_path)),
        is_version_manager_check(r.checks@[1], vm_probe_view(*vm)),
        forall|i: int|
            0 <= i < crate::packages::spec_essential_packages().len() ==> is_tool_check(
                #[trigger] r.checks@[2 + i],
                crate::packages::spec_essential_packages()[i],
                tool_probe_at(tool_paths@, i),
            ),
{
    let mut report = CheckReport::new();
    report.add(check_homebrew(os, brew_path));
    report.add(check_version_manager(vm));
    let tools = crate::packages::essential_packages();
    let n = tools.len();
    let mut i: usize = 0;
    while i < n
        invariant
            n == tools@.len(),
            strs_view(tools@) == crate::packages::spec_essential_packages(),
            0 <= i <= n,
            report.checks@.len() == 2 + i,
            is_homebrew_check(report.checks@[0], os, opt_string_view(*brew_path)),
            is_version_manager_check(report.checks@[1], vm_probe_view(*vm)),
            forall|k: int|
                0 <= k < i ==> is_tool_check(
                    #[trigger] report.checks@[2 + k],
                    crate::packages::spec_essential_packages()[k],
                    tool_probe_at(tool_paths@, k),
                ),
        decreases n - i,
    {
        let nothing: Option<String> = None;
        let path = if i < tool_paths.len() {
            &tool_paths[i]
        } else {
            &nothing
        };
        report.add(check_tool(tools[i].as_str(), path));
        i += 1;
    }
    report
}

/// Validates only the critical dependencies: Homebrew and stow.
pub fn validate_critical(os: OS, brew_path: &Option<String>, stow_path: &Option<String>) -> (r:
    CheckReport)
    ensures
        r.checks@.len() == 2,
        is_homebrew_check(r.checks@[0], os, opt_string_view(*brew_path)),
        is_tool_check(r.checks@[1], "stow"@, opt_string_view(*stow_path)),
{
    let mut report = CheckReport::new();
    report.add(check_homebrew(os, brew_path));
    report.add(check_tool("stow", stow_path));
    report
}

/// The conventional places of the iTerm preferences file within the
/// dotfiles repository.
pub open spec fn spec_iterm_locations(dotfiles_dir: Seq<char>) -> Seq<Seq<char>> {
    seq![
        dotfiles_dir + "/.config/iterm2/com.googlecode.iterm2.plist"@,
        dotfiles_dir + "/iterm/com.googlecode.iterm2.plist"@,
        dotfiles_dir + "/iterm2/com.googlecode.iterm2.plist"@,
    ]
}

/// The conventional places of the iTerm preferences file within the dotfiles
/// repository.
pub fn iterm_plist_locations(dotfiles_dir: &str) -> (r: Vec<String>)
    ensures
        strs_view(r@) == spec_iterm_locations(dotfiles_dir@),
{
    let mut v: Vec<String> = Vec::new();
    let mut a = String::from_str(dotfiles_dir);
    a.append("/.config/iterm2/com.googlecode.iterm2.plist");
    v.push(a);
    let mut b = String::from_str(dotfiles_dir);
    b.append("/iterm/com.googlecode.iterm2.plist");
    v.push(b);
    let mut c = String::from_str(dotfiles_dir);
    c.append("/iterm2/com.googlecode.iterm2.plist");
    v.push(c);
    proof {
        assert(strs_view(v@) =~= spec_iterm_locations(dotfiles_dir@));
    }
    v
}

/// The first location reported found, if any.
pub open spec fn first_found(found: Seq<bool>, n: int) -> Option<int>
    decreases n,
{
    if n <= 0 {
        None
    } else {
        match first_found(found, n - 1) {
            Some(i) => Some(i),
            None => if n - 1 < found.len() && found[n - 1] {
                Some(n - 1)
            } else {
                None
            },
        }
    }
}

/// The check for the iTerm preferences file within the dotfiles repository.
pub open spec fn is_iterm_plist_check(
    r: CheckResult,
    locations: Seq<Seq<char>>,
    found: Seq<bool>,
) -> bool {
    &&& r.spec_name() == "iTerm Plist"@
    &&& (match first_found(found, locations.len() as int) {
        Some(i) => r is Pass && r.spec_message() == "iTerm config found: "@ + locations[i],
        None => r is Warn && r.spec_message() == "iTerm configuration not found in dotfiles"@,
    })
}

/// Checks whether the iTerm preferences file is tracked in the dotfiles
/// repository. `found` pairs up with `iterm_plist_locations`.
pub fn check_iterm_plist_in_dotfiles(dotfiles_dir: &str, found: &Vec<bool>) -> (r: CheckResult)
    ensures
        is_iterm_plist_check(r, spec_iterm_locations(dotfiles_dir@), found@),
{
    let locations = iterm_plist_locations(dotfiles_dir);
    let n = locations.len();
    let ghost locs = strs_view(locations@);
    proof {
        assert(locs.len() == 3);
        assert(locations@.len() == 3);
    }
    let mut i: usize = 0;
    while i < n
        invariant
            n == 3,
            n == locations@.len(),
            locs == strs_view(locations@),
            locs == spec_iterm_locations(dotfiles_dir@),
            0 <= i <= n,
            first_found(found@, i as int) is None,
        decreases n - i,
    {
        if i < found.len() && found[i] {
            let msg = crate::textfmt::concat2("iTerm config found: ", locations[i].as_str());
            proof {
                let j = i as int;
                assert(first_found(found@, j + 1) == Some(j));
                if j == 0 {
                    assert(first_found(found@, 2) == Some(j));
                    assert(first_found(found@, 3) == Some(j));
                } else if j == 1 {
                    assert(first_found(found@, 3) == Some(j));
                }
                let slit = spec_iterm_locations(dotfiles_dir@);
                assert(slit.len() == 3);
                assert(slit[j] == locs[j]);
                assert(first_found(found@, slit.len() as int) == Some(j));
            }
            return CheckResult::pass("iTerm Plist", msg.as_str());
        }
        proof {
            assert(first_found(found@, i + 1) is None);
        }
        i += 1;
    }
    CheckResult::warn(
        "iTerm Plist",
        "iTerm configuration not found in dotfiles",
        Some("Export iTerm preferences to dotfiles directory"),
    )
}

/// The check for iTerm's custom preferences folder.
pub open spec fn is_iterm_prefs_check(r: CheckResult, prefs: Option<Seq<char>>) -> bool {
    &&& r.spec_name() == "iTerm Custom Folder"@
    &&& (r is Pass) == (prefs is Some)
    &&& (prefs matches Some(p) ==> r.spec_message() == "Custom preferences folder: "@ + p)
    &&& (prefs is None ==> r is Warn && r.spec_message()
        == "iTerm not using custom preferences folder"@)
}

/// Checks whether iTerm loads its preferences from a custom folder; `prefs`
/// carries the configured folder, when the probe found one.
pub fn check_iterm_custom_prefs(prefs: &Option<String>) -> (r: CheckResult)
    ensures
        is_iterm_prefs_check(r, opt_string_view(*prefs)),
{
    match prefs {
        Some(p) => {
            let msg = crate::textfmt::concat2("Custom preferences folder: ", p.as_str());
            CheckResult::pass("iTerm Custom Folder", msg.as_str())
        },
        None => CheckResult::warn(
            "iTerm Custom Folder",
            "iTerm not using custom preferences folder",
            Some(
                "Configure in iTerm2: Preferences \u{2192} General \u{2192} Preferences \u{2192} Load preferences from folder",
            ),
        ),
    }
}

/// Validates the iTerm configuration: the tracked preferences file and the
/// custom preferences folder.
pub fn validate_iterm_config(dotfiles_dir: &str, found: &Vec<bool>, prefs: &Option<String>) -> (r:
    CheckReport)
    ensures
        r.checks@.len() == 2,
        is_iterm_plist_check(r.checks@[0], spec_iterm_locations(dotfiles_dir@), found@),
        is_iterm_prefs_check(r.checks@[1], opt_string_view(*prefs)),
{
    let mut report = CheckReport::new();
    report.add(check_iterm_plist_in_dotfiles(dotfiles_dir, found));
    report.add(check_iterm_custom_prefs(prefs));
    report
}

/// The check for the sourced sync script.
pub open spec fn is_script_sourced_check(
    r: CheckResult,
    script_exists: bool,
    content: Option<Seq<char>>,
    script_path: Seq<char>,
    script_name: Seq<char>,
) -> bool {
    if !script_exists {
        r is Warn && r.spec_name() == "Sync Script"@ && r.spec_message() == script_name
            + " not found in dotfiles"@
    } else {
        match content {
            Some(text) => {
                let sourced = crate::shell::spec_is_script_sourced(text, script_path)
                    || crate::textfmt::contains_seq(text, script_name);
                &&& r.spec_name() == "Sync Script"@
                &&& (r is Pass) == sourced
                &&& (sourced ==> r.spec_message() == script_name + " is sourced"@)
                &&& (!sourced ==> r is Error && r.spec_message() == script_name
                    + " not sourced in .zshrc"@)
            },
            None => r is Error && r.spec_name() == "Shell RC"@ && r.spec_message()
                == "Failed to read .zshrc"@,
        }
    }
}

/// Checks whether the sync script is sourced in the shell configuration:
/// `content` carries the configuration text, or nothing when it could not
/// be read.
pub fn check_script_sourced(
    script_exists: bool,
    content: &Option<String>,
    script_path: &str,
    script_name: &str,
) -> (r: CheckResult)
    ensures
        is_script_sourced_check(
            r,
            script_exists,
            opt_string_view(*content),
            script_path@,
            script_name@,
        ),
{
    if !script_exists {
        let msg = crate::textfmt::concat2(script_name, " not found in dotfiles");
        return CheckResult::warn(
            "Sync Script",
            msg.as_str(),
            Some("Ensure script exists in dotfiles/scripts/"),
        );
    }
    match content {
        Some(text) => {
            let sourced = crate::shell::is_script_sourced(text.as_str(), script_path)
                || crate::textfmt::contains_str(text.as_str(), script_name);
            if sourced {
                let msg = crate::textfmt::concat2(script_name, " is sourced");
                CheckResult::pass("Sync Script", msg.as_str())
            } else {
                let msg = crate::textfmt::concat2(script_name, " not sourced in .zshrc");
                CheckResult::error(
                    "Sync Script",
                    msg.as_str(),
                    Some("Run: dotfiles setup to add source line"),
                )
            }
        },
        None => CheckResult::error("Shell RC", "Failed to read .zshrc", None),
    }
}

/// Validates the shell integration: when the shell configuration file
/// exists, whether the sync script is sourced in it; a warning otherwise.
pub fn validate_shell_integration(
    dotfiles_dir: &str,
    zshrc_exists: bool,
    zshrc_content: &Option<String>,
    script_exists: bool,
) -> (r: CheckReport)
    ensures
        r.checks@.len() == 1,
        zshrc_exists ==> is_script_sourced_check(
            r.checks@[0],
            script_exists,
            opt_string_view(*zshrc_content),
            dotfiles_dir@ + "/scripts/check-agent-changes.sh"@,
            "check-agent-changes.sh"@,
        ),
        !zshrc_exists ==> r.checks@[0] is Warn && r.checks@[0].spec_name() == "Shell RC"@
            && r.checks@[0].spec_message() == "~/.zshrc not found"@,
{
    let mut report = CheckReport::new();
    if zshrc_exists {
        let mut script = String::from_str(dotfiles_dir);
        script.append("/scripts/check-agent-changes.sh");
        report.add(check_script_sourced(
            script_exists,
            zshrc_content,
            script.as_str(),
            "check-agent-changes.sh",
        ));
    } else {
        report.add(CheckResult::warn(
            "Shell RC",
            "~/.zshrc not found",
            Some("Create .zshrc or use different shell"),
        ));
    }
    report
}

} // verus!
