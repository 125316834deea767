//! The GNU Stow strategy: builds the argument list for a `stow` invocation
//! and interprets its output. Running the executable itself is left to an
//! unverified caller.

use vstd::prelude::*;

use crate::error::DotfilesError;
use crate::secrets::spec_lines;
use crate::symlink::{pairs_view, paths_view, SymlinkReport, SymlinkStatus};
use crate::textfmt::{
    base_name, base_name_of, contains_seq, contains_str, parent_dir, parent_of, strs_view,
};

verus! {

/// GNU Stow symlink manager.
pub struct StowSymlinker {
    /// Whether to run in dry-run mode (no actual changes).
    pub dry_run: bool,
    /// Whether to show verbose output.
    pub verbose: bool,
}

impl StowSymlinker {
    /// Creates a new StowSymlinker with default settings.
    pub fn new() -> (r: Self)
        ensures
            !r.dry_run,
            !r.verbose,
    {
        StowSymlinker { dry_run: false, verbose: false }
    }

    /// Creates a new StowSymlinker with dry-run mode enabled.
    pub fn dry_run() -> (r: Self)
        ensures
            r.dry_run,
            !r.verbose,
    {
        StowSymlinker { dry_run: true, verbose: false }
    }

    /// Returns the name of this strategy.
    pub fn name(&self) -> (r: &str)
        ensures
            r@ == "GNU Stow"@,
    {
        "GNU Stow"
    }
}

/// The fixed part of a stow argument list: the stow directory, the target
/// directory, and one `--ignore` per excluded entry name.
pub open spec fn spec_stow_args_head(source: Seq<char>, target: Seq<char>) -> Seq<Seq<char>> {
    seq![
        "-d"@,
        parent_of(source),
        "-t"@,
        target,
        "--ignore"@,
        ".git"@,
        "--ignore"@,
        ".DS_Store"@,
        "--ignore"@,
        ".agent"@,
        "--ignore"@,
        "README.md"@,
        "--ignore"@,
        "LICENSE"@,
    ]
}

/// The whole argument list of a stow invocation: the fixed part, the mode
/// flags, an optional `-D` to unstow, and the package name last.
pub open spec fn spec_stow_args(
    source: Seq<char>,
    target: Seq<char>,
    unstow: bool,
    dry_run: bool,
    verbose: bool,
) -> Seq<Seq<char>> {
    spec_stow_args_head(source, target) + (if unstow {
        seq!["-D"@]
    } else {
        Seq::empty()
    }) + (if dry_run {
        seq!["-n"@]
    } else {
        Seq::empty()
    }) + (if verbose {
        seq!["-v"@]
    } else {
        Seq::empty()
    }) + seq![base_name_of(source)]
}

/// The lines of a stow error output that report a conflict.
pub open spec fn stow_conflict_lines(ls: Seq<Seq<char>>) -> Seq<Seq<char>>
    decreases ls.len(),
{
    if ls.len() == 0 {
        Seq::empty()
    } else {
        stow_conflict_lines(ls.drop_last()) + if contains_seq(ls.last(), "existing target"@)
            || contains_seq(ls.last(), "conflict"@) {
            seq![ls.last()]
        } else {
            Seq::empty()
        }
    }
}

impl StowSymlinker {
    /// Builds the argument list for a stow invocation over the package at
    /// `source`, linking into `target`; with `unstow`, the links are removed
    /// instead. Fails when the source path has no final component to use as
    /// the package name.
    pub fn stow_args(&self, source: &str, target: &str, unstow: bool) -> (r: crate::error::Result<
        Vec<String>,
    >)
        ensures
            (r is Ok) == (base_name_of(source@).len() > 0),
            r matches Ok(v) ==> strs_view(v@) == spec_stow_args(
                source@,
                target@,
                unstow,
                self.dry_run,
                self.verbose,
            ),
            r matches Err(e) ==> e matches DotfilesError::SymlinkFailed(m) && m@
                == "Invalid source path"@,
    {
        let package = base_name(source);
        if package.unicode_len() == 0 {
            return Err(DotfilesError::SymlinkFailed(String::from_str("Invalid source path")));
        }
        let mut v: Vec<String> = Vec::new();
        v.push(String::from_str("-d"));
        v.push(parent_dir(source));
        v.push(String::from_str("-t"));
        v.push(target.to_owned());
        v.push(String::from_str("--ignore"));
        v.push(String::from_str(".git"));
        v.push(String::from_str("--ignore"));
        v.push(String::from_str(".DS_Store"));
        v.push(String::from_str("--ignore"));
        v.push(String::from_str(".agent"));
        v.push(String::from_str("--ignore"));
        v.push(String::from_str("README.md"));
        v.push(String::from_str("--ignore"));
        v.push(String::from_str("LICENSE"));
        if unstow {
            v.push(String::from_str("-D"));
        }
        if self.dry_run {
            v.push(String::from_str("-n"));
        }
        if self.verbose {
            v.push(String::from_str("-v"));
        }
        v.push(package);
        proof {
            assert(strs_view(v@) =~= spec_stow_args(
                source@,
                target@,
                unstow,
                self.dry_run,
                self.verbose,
            ));
        }
        Ok(v)
    }

    /// Interprets the outcome of a stow invocation: on success one `Created`
    /// outcome for the whole package; on failure one `Conflict` per output
    /// line that reports a conflict, or a single `Conflict` carrying the
    /// whole output when no line does.
    pub fn parse_stow_output(
        &self,
        source: &str,
        target: &str,
        success: bool,
        stderr: &str,
    ) -> (r: SymlinkReport)
        ensures
            success ==> paths_view(r.created@) == seq![target@] && r.conflicts@.len() == 0,
            !success && (contains_seq(stderr@, "existing target"@) || contains_seq(
                stderr@,
                "conflict"@,
            )) ==> r.created@.len() == 0 && pairs_view(r.conflicts@) == stow_conflict_lines(
                spec_lines(stderr@),
            ).map_values(|line: Seq<char>| (target@, line)),
            !success && !(contains_seq(stderr@, "existing target"@) || contains_seq(
                stderr@,
                "conflict"@,
            )) ==> r.created@.len() == 0 && pairs_view(r.conflicts@) == seq![(target@, stderr@)],
            r.already_exists@.len() == 0,
            r.skipped@.len() == 0,
    {
        let mut report = SymlinkReport::new();
        if !success {
            if contains_str(stderr, "existing target") || contains_str(stderr, "conflict") {
                let lines = crate::secrets::split_lines(stderr);
                let n = lines.len();
                let ghost lv = strs_view(lines@);
                let ghost mapper = |line: Seq<char>| (target@, line);
                let mut i: usize = 0;
                proof {
                    assert(lv.take(0) =~= Seq::<Seq<char>>::empty());
                    assert(pairs_view(report.conflicts@) =~= stow_conflict_lines(
                        lv.take(0),
                    ).map_values(mapper));
                }
                while i < n
                    invariant
                        n == lines@.len(),
                        lv == strs_view(lines@),
                        mapper == (|line: Seq<char>| (target@, line)),
                        0 <= i <= n,
                        report.created@.len() == 0,
                        report.already_exists@.len() == 0,
                        report.skipped@.len() == 0,
                        pairs_view(report.conflicts@) == stow_conflict_lines(
                            lv.take(i as int),
                        ).map_values(mapper),
                    decreases n - i,
                {
                    let ghost prev = report.conflicts@;
                    let line = &lines[i];
                    if contains_str(line.as_str(), "existing target") || contains_str(
                        line.as_str(),
                        "conflict",
                    ) {
                        report.add(SymlinkStatus::Conflict {
                            target: target.to_owned(),
                            reason: line.clone(),
                        });
                    }
                    proof {
                        let t1 = lv.take(i + 1);
                        assert(t1.drop_last() =~= lv.take(i as int));
                        assert(t1.last() == lv[i as int]);
                        assert(lv[i as int] == lines@[i as int]@);
                        if contains_seq(lines@[i as int]@, "existing target"@) || contains_seq(
                            lines@[i as int]@,
                            "conflict"@,
                        ) {
                            assert(pairs_view(report.conflicts@) =~= pairs_view(prev) + seq![
                                (target@, lines@[i as int]@),
                            ]);
                            assert(stow_conflict_lines(t1).map_values(mapper)
                                =~= stow_conflict_lines(lv.take(i as int)).map_values(mapper)
                                + seq![(target@, lines@[i as int]@)]);
                        }
                        assert(pairs_view(report.conflicts@) =~= stow_conflict_lines(
                            t1,
                        ).map_values(mapper));
                    }
                    i += 1;
                }
                proof {
                    assert(lv.take(n as int) =~= lv);
                }
            } else {
                report.add(SymlinkStatus::Conflict {
                    target: target.to_owned(),
                    reason: stderr.to_owned(),
                });
                proof {
                    assert(pairs_view(report.conflicts@) =~= seq![(target@, stderr@)]);
                }
            }
        } else {
            report.add(SymlinkStatus::Created {
                source: source.to_owned(),
                target: target.to_owned(),
            });
            proof {
                assert(paths_view(report.created@) =~= seq![target@]);
            }
        }
        report
    }
}

impl Default for StowSymlinker {
    /// A symlinker with dry-run and verbose mode off.
    fn default() -> (r: Self)
        ensures
            !r.dry_run,
            !r.verbose,
    {
        StowSymlinker::new()
    }
}

} // verus!
