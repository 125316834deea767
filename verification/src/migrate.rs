//! The migration workflow's decision core: given a snapshot of the source
//! and target directories and the number of secrets found, it decides the
//! conflicts, whether the links are made, and with which planned actions.
//! The surrounding backup, scanning and execution steps are outside work.

use vstd::prelude::*;

use crate::error::DotfilesError;
use crate::symlink::manual::{
    apply_actions, apply_already_targets, apply_conflict_pairs, apply_created_targets,
    ManualSymlinker,
};
use crate::symlink::{acts_view, conflicts_of, pairs_view, paths_view, DirScan, FsAction,
    SymlinkReport, Symlinker};
use crate::textfmt::concat3;

verus! {

/// Migration options.
#[derive(Debug, Clone)]
pub struct MigrationOptions {
    /// Source dotfiles directory (existing setup).
    pub source: String,
    /// Target dotfiles directory (new setup).
    pub target: String,
    /// Whether to extract secrets.
    pub extract_secrets: bool,
    /// Whether to create a backup before migration.
    pub create_backup: bool,
    /// Dry run mode (no actual changes).
    pub dry_run: bool,
}

impl MigrationOptions {
    /// Options with secret extraction and backup on, and dry-run off.
    pub fn new(source: String, target: String) -> (r: Self)
        ensures
            r.source == source,
            r.target == target,
            r.extract_secrets,
            r.create_backup,
            !r.dry_run,
    {
        MigrationOptions {
            source,
            target,
            extract_secrets: true,
            create_backup: true,
            dry_run: false,
        }
    }
}

/// Result of a migration operation.
#[derive(Debug)]
pub struct MigrationResult {
    /// Where the pre-migration backup was put, if one was made.
    pub backup_path: Option<String>,
    /// How many secrets were found and extracted.
    pub secrets_extracted: usize,
    /// The symlink outcomes, when the link step ran.
    pub symlink_report: Option<SymlinkReport>,
    /// The conflicts that were detected.
    pub conflicts: Vec<(String, String)>,
}

/// Decides a migration over a directory snapshot: detects the conflicts,
/// and plans the links (without force) when there are no conflicts or this
/// is a dry run. The caller performs the planned actions; a dry run plans
/// none. `secrets_found` is recorded when extraction is on; `backup_path`
/// is recorded as handed in.
pub fn migrate_plan(
    options: &MigrationOptions,
    scan: &DirScan,
    secrets_found: usize,
    backup_path: Option<String>,
) -> (r: crate::error::Result<(MigrationResult, Vec<FsAction>)>)
    ensures
        (r is Ok) == scan.source_exists,
        !scan.source_exists ==> (r matches Err(DotfilesError::Config(m)) && m@
            == "Source directory does not exist: \""@ + options.source@ + "\""@),
        r matches Ok(p) ==> {
            &&& pairs_view(p.0.conflicts@) == conflicts_of(scan.entries@)
            &&& p.0.secrets_extracted == (if options.extract_secrets {
                secrets_found as int
            } else {
                0
            })
            &&& p.0.backup_path == backup_path
            &&& (conflicts_of(scan.entries@).len() == 0 || options.dry_run) ==> {
                &&& p.0.symlink_report matches Some(rep)
                &&& paths_view(rep.created@) == apply_created_targets(scan.entries@, false)
                &&& paths_view(rep.already_exists@) == apply_already_targets(scan.entries@)
                &&& pairs_view(rep.conflicts@) == apply_conflict_pairs(scan.entries@, false)
                &&& acts_view(p.1@) == apply_actions(scan.entries@, false, options.dry_run)
            }
            &&& (conflicts_of(scan.entries@).len() > 0 && !options.dry_run) ==> {
                &&& p.0.symlink_report is None
                &&& p.1@.len() == 0
            }
            &&& (options.dry_run ==> p.1@.len() == 0)
        },
{
    if !scan.source_exists {
        return Err(DotfilesError::Config(concat3(
            "Source directory does not exist: \"",
            options.source.as_str(),
            "\"",
        )));
    }
    let conflicts = crate::symlink::detect_conflicts(scan);
    let secrets_extracted = if options.extract_secrets {
        secrets_found
    } else {
        0
    };
    if conflicts.len() == 0 || options.dry_run {
        let symlinker = ManualSymlinker { dry_run: options.dry_run, force: false };
        match symlinker.symlink(scan) {
            Ok((report, actions)) => {
                let result = MigrationResult {
                    backup_path,
                    secrets_extracted,
                    symlink_report: Some(report),
                    conflicts,
                };
                Ok((result, actions))
            },
            Err(e) => {
                proof {
                    assert(false);
                }
                Err(e)
            },
        }
    } else {
        let result = MigrationResult {
            backup_path,
            secrets_extracted,
            symlink_report: None,
            conflicts,
        };
        Ok((result, Vec::new()))
    }
}

} // verus!
