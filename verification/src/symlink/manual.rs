//! The native-link strategy: decides one outcome per directory entry and
//! plans the link creations and removals that an unverified executor
//! performs. Used as the fallback when GNU Stow is not available.

use vstd::prelude::*;

use crate::error::DotfilesError;
use crate::symlink::{
    acts_view, entry_ok, pairs_view, paths_view, DirScan, EntryProbe, FsAction, SpecAction,
    SymlinkReport, SymlinkStatus, Symlinker, TargetState,
};
use crate::textfmt::concat3;

verus! {

/// `apply` makes a link for this entry: its target is absent, or a wrong or
/// unreadable link is overridden by force. Force never overrides a plain
/// file or directory.
pub open spec fn apply_is_created(e: EntryProbe, force: bool) -> bool {
    e.target is Absent || (force && !entry_ok(e) && (e.target is LinkTo
        || e.target is LinkUnreadable))
}

/// `apply` reports this entry as a conflict: the target path is occupied and
/// neither already correct nor overridden.
pub open spec fn apply_is_conflict(e: EntryProbe, force: bool) -> bool {
    !entry_ok(e) && !apply_is_created(e, force)
}

/// Manual symlink creator (fallback when GNU Stow is not available).
pub struct ManualSymlinker {
    /// Whether to run in dry-run mode (no actual changes).
    pub dry_run: bool,
    /// Whether to force overwrite existing symlinks.
    pub force: bool,
}

/// The reason reported when an entry conflicts under `apply`.
pub open spec fn apply_conflict_reason(e: EntryProbe) -> Seq<char> {
    match e.target {
        TargetState::LinkTo { dest } => "Symlink exists and points to \""@ + dest@ + "\""@,
        TargetState::LinkUnreadable => "Symlink exists but could not be read"@,
        TargetState::IsDirectory => "Directory exists"@,
        TargetState::IsFile => "File exists"@,
        TargetState::Absent => Seq::empty(),
    }
}

/// The actions planned for one entry under `apply`: nothing in a dry run or
/// when no link is to be made; a link creation where the target is absent; a
/// removal followed by a link creation where a wrong link is overridden.
pub open spec fn entry_apply_actions(e: EntryProbe, force: bool, dry_run: bool) -> Seq<
    SpecAction,
> {
    if dry_run || !apply_is_created(e, force) {
        Seq::empty()
    } else if e.target is Absent {
        seq![SpecAction::CreateLink { source: e.source_path@, target: e.target_path@ }]
    } else {
        seq![
            SpecAction::RemoveFile { path: e.target_path@ },
            SpecAction::CreateLink { source: e.source_path@, target: e.target_path@ },
        ]
    }
}

/// Target paths of the entries that `apply` links, in entry order.
pub open spec fn apply_created_targets(s: Seq<EntryProbe>, force: bool) -> Seq<Seq<char>>
    decreases s.len(),
{
    if s.len() == 0 {
        Seq::empty()
    } else {
        apply_created_targets(s.drop_last(), force) + if apply_is_created(s.last(), force) {
            seq![s.last().target_path@]
        } else {
            Seq::empty()
        }
    }
}

/// Target paths of the entries whose links are already correct.
pub open spec fn apply_already_targets(s: Seq<EntryProbe>) -> Seq<Seq<char>>
    decreases s.len(),
{
    if s.len() == 0 {
        Seq::empty()
    } else {
        apply_already_targets(s.drop_last()) + if entry_ok(s.last()) {
            seq![s.last().target_path@]
        } else {
            Seq::empty()
        }
    }
}

/// Target paths and reasons of the entries that conflict under `apply`.
pub open spec fn apply_conflict_pairs(s: Seq<EntryProbe>, force: bool) -> Seq<
    (Seq<char>, Seq<char>),
>
    decreases s.len(),
{
    if s.len() == 0 {
        Seq::empty()
    } else {
        apply_conflict_pairs(s.drop_last(), force) + if apply_is_conflict(s.last(), force) {
            seq![(s.last().target_path@, apply_conflict_reason(s.last()))]
        } else {
            Seq::empty()
        }
    }
}

/// The actions `apply` plans over a sequence of entries, in entry order.
pub open spec fn apply_actions(s: Seq<EntryProbe>, force: bool, dry_run: bool) -> Seq<SpecAction>
    decreases s.len(),
{
    if s.len() == 0 {
        Seq::empty()
    } else {
        apply_actions(s.drop_last(), force, dry_run) + entry_apply_actions(
            s.last(),
            force,
            dry_run,
        )
    }
}

/// The action planned for one entry under `remove`: the removal of its link,
/// where a link exists and this is not a dry run.
pub open spec fn entry_remove_actions(e: EntryProbe, dry_run: bool) -> Seq<SpecAction> {
    if !dry_run && (e.target is LinkTo || e.target is LinkUnreadable) {
        seq![SpecAction::RemoveFile { path: e.target_path@ }]
    } else {
        Seq::empty()
    }
}

/// Target paths of the links that `remove` removes, in entry order.
pub open spec fn remove_removed_targets(s: Seq<EntryProbe>) -> Seq<Seq<char>>
    decreases s.len(),
{
    if s.len() == 0 {
        Seq::empty()
    } else {
        remove_removed_targets(s.drop_last()) + if s.last().target is LinkTo
            || s.last().target is LinkUnreadable {
            seq![s.last().target_path@]
        } else {
            Seq::empty()
        }
    }
}

/// Target paths and reasons of the entries that `remove` refuses to touch.
pub open spec fn remove_conflict_pairs(s: Seq<EntryProbe>) -> Seq<(Seq<char>, Seq<char>)>
    decreases s.len(),
{
    if s.len() == 0 {
        Seq::empty()
    } else {
        remove_conflict_pairs(s.drop_last()) + if s.last().target is IsFile
            || s.last().target is IsDirectory {
            seq![(s.last().target_path@, "Not a symlink, will not remove"@)]
        } else {
            Seq::empty()
        }
    }
}

/// Target paths and reasons of the entries that `remove` skips.
pub open spec fn remove_skipped_pairs(s: Seq<EntryProbe>) -> Seq<(Seq<char>, Seq<char>)>
    decreases s.len(),
{
    if s.len() == 0 {
        Seq::empty()
    } else {
        remove_skipped_pairs(s.drop_last()) + if s.last().target is Absent {
            seq![(s.last().target_path@, "Symlink does not exist"@)]
        } else {
            Seq::empty()
        }
    }
}

/// The actions `remove` plans over a sequence of entries, in entry order.
pub open spec fn remove_actions(s: Seq<EntryProbe>, dry_run: bool) -> Seq<SpecAction>
    decreases s.len(),
{
    if s.len() == 0 {
        Seq::empty()
    } else {
        remove_actions(s.drop_last(), dry_run) + entry_remove_actions(s.last(), dry_run)
    }
}

impl ManualSymlinker {
    /// Creates a new ManualSymlinker with default settings.
    pub fn new() -> (r: Self)
        ensures
            !r.dry_run,
            !r.force,
    {
        ManualSymlinker { dry_run: false, force: false }
    }

    /// Creates a new ManualSymlinker with dry-run mode enabled.
    pub fn dry_run() -> (r: Self)
        ensures
            r.dry_run,
            !r.force,
    {
        ManualSymlinker { dry_run: true, force: false }
    }

    /// Decides the outcome for one entry and plans the actions that realise
    /// it.
    fn create_symlink(&self, e: &EntryProbe, actions: &mut Vec<FsAction>) -> (st: SymlinkStatus)
        ensures
            acts_view(final(actions)@) == acts_view(old(actions)@) + entry_apply_actions(
                *e,
                self.force,
                self.dry_run,
            ),
            entry_ok(*e) ==> (st matches SymlinkStatus::AlreadyExists { target } && target@
                == e.target_path@),
            apply_is_created(*e, self.force) ==> (st matches SymlinkStatus::Created {
                source,
                target,
            } && source@ == e.source_path@ && target@ == e.target_path@),
            apply_is_conflict(*e, self.force) ==> (st matches SymlinkStatus::Conflict {
                target,
                reason,
            } && target@ == e.target_path@ && reason@ == apply_conflict_reason(*e)),
    {
        let ghost prev = actions@;
        match &e.target {
            TargetState::Absent => {
                if !self.dry_run {
                    actions.push(FsAction::CreateLink {
                        source: e.source_path.clone(),
                        target: e.target_path.clone(),
                    });
                }
                proof {
                    assert(acts_view(actions@) =~= acts_view(prev) + entry_apply_actions(
                        *e,
                        self.force,
                        self.dry_run,
                    ));
                }
                SymlinkStatus::Created {
                    source: e.source_path.clone(),
                    target: e.target_path.clone(),
                }
            },
            TargetState::LinkTo { dest } => {
                if crate::textfmt::str_eq(dest.as_str(), e.source_path.as_str()) {
                    proof {
                        assert(acts_view(actions@) =~= acts_view(prev));
                    }
                    SymlinkStatus::AlreadyExists { target: e.target_path.clone() }
                } else if self.force {
                    if !self.dry_run {
                        actions.push(FsAction::RemoveFile { path: e.target_path.clone() });
                        actions.push(FsAction::CreateLink {
                            source: e.source_path.clone(),
                            target: e.target_path.clone(),
                        });
                    }
                    proof {
                        assert(acts_view(actions@) =~= acts_view(prev) + entry_apply_actions(
                            *e,
                            self.force,
                            self.dry_run,
                        ));
                    }
                    SymlinkStatus::Created {
                        source: e.source_path.clone(),
                        target: e.target_path.clone(),
                    }
                } else {
                    proof {
                        assert(acts_view(actions@) =~= acts_view(prev));
                    }
                    SymlinkStatus::Conflict {
                        target: e.target_path.clone(),
                        reason: concat3(
                            "Symlink exists and points to \"",
                            dest.as_str(),
                            "\"",
                        ),
                    }
                }
            },
            TargetState::LinkUnreadable => {
                if self.force {
                    if !self.dry_run {
                        actions.push(FsAction::RemoveFile { path: e.target_path.clone() });
                        actions.push(FsAction::CreateLink {
                            source: e.source_path.clone(),
                            target: e.target_path.clone(),
                        });
                    }
                    proof {
                        assert(acts_view(actions@) =~= acts_view(prev) + entry_apply_actions(
                            *e,
                            self.force,
                            self.dry_run,
                        ));
                    }
                    SymlinkStatus::Created {
                        source: e.source_path.clone(),
                        target: e.target_path.clone(),
                    }
                } else {
                    proof {
                        assert(acts_view(actions@) =~= acts_view(prev));
                    }
                    SymlinkStatus::Conflict {
                        target: e.target_path.clone(),
                        reason: String::from_str("Symlink exists but could not be read"),
                    }
                }
            },
            TargetState::IsDirectory => {
                proof {
                    assert(acts_view(actions@) =~= acts_view(prev));
                }
                SymlinkStatus::Conflict {
                    target: e.target_path.clone(),
                    reason: String::from_str("Directory exists"),
                }
            },
            TargetState::IsFile => {
                proof {
                    assert(acts_view(actions@) =~= acts_view(prev));
                }
                SymlinkStatus::Conflict {
                    target: e.target_path.clone(),
                    reason: String::from_str("File exists"),
                }
            },
        }
    }

    /// Decides the removal outcome for one entry and plans the removal.
    fn remove_symlink(&self, e: &EntryProbe, actions: &mut Vec<FsAction>) -> (st: SymlinkStatus)
        ensures
            acts_view(final(actions)@) == acts_view(old(actions)@) + entry_remove_actions(
                *e,
                self.dry_run,
            ),
            e.target is Absent ==> (st matches SymlinkStatus::Skipped { target, reason }
                && target@ == e.target_path@ && reason@ == "Symlink does not exist"@),
            (e.target is IsFile || e.target is IsDirectory) ==> (st
                matches SymlinkStatus::Conflict { target, reason } && target@ == e.target_path@
                && reason@ == "Not a symlink, will not remove"@),
            (e.target is LinkTo || e.target is LinkUnreadable) ==> (st
                matches SymlinkStatus::Created { source, target } && source@ == Seq::<
                char,
            >::empty() && target@ == e.target_path@),
    {
        let ghost prev = actions@;
        match &e.target {
            TargetState::Absent => {
                proof {
                    assert(acts_view(actions@) =~= acts_view(prev));
                }
                SymlinkStatus::Skipped {
                    target: e.target_path.clone(),
                    reason: String::from_str("Symlink does not exist"),
                }
            },
            TargetState::IsFile => {
                proof {
                    assert(acts_view(actions@) =~= acts_view(prev));
                }
                SymlinkStatus::Conflict {
                    target: e.target_path.clone(),
                    reason: String::from_str("Not a symlink, will not remove"),
                }
            },
            TargetState::IsDirectory => {
                proof {
                    assert(acts_view(actions@) =~= acts_view(prev));
                }
                SymlinkStatus::Conflict {
                    target: e.target_path.clone(),
                    reason: String::from_str("Not a symlink, will not remove"),
                }
            },
            _ => {
                if !self.dry_run {
                    actions.push(FsAction::RemoveFile { path: e.target_path.clone() });
                }
                proof {
                    assert(acts_view(actions@) =~= acts_view(prev) + entry_remove_actions(
                        *e,
                        self.dry_run,
                    ));
                }
                SymlinkStatus::Created {
                    source: String::new(),
                    target: e.target_path.clone(),
                }
            },
        }
    }
}

impl Default for ManualSymlinker {
    /// A symlinker with dry-run and force mode off.
    fn default() -> (r: Self)
        ensures
            !r.dry_run,
            !r.force,
    {
        ManualSymlinker::new()
    }
}

impl Symlinker for ManualSymlinker {
    open spec fn spec_dry_run(&self) -> bool {
        self.dry_run
    }

    /// Reconciles the snapshot: each entry becomes `Created` where the
    /// target is absent (or a wrong link is overridden by force),
    /// `AlreadyExists` where the link is already correct, and `Conflict`
    /// otherwise. The planned actions realise exactly the `Created`
    /// outcomes; a dry run plans none.
    fn symlink(&self, scan: &DirScan) -> (r: crate::error::Result<
        (SymlinkReport, Vec<FsAction>),
    >)
        ensures
            r is Ok <==> scan.source_exists,
            r matches Ok(p) ==> {
                &&& paths_view(p.0.created@) == apply_created_targets(scan.entries@, self.force)
                &&& paths_view(p.0.already_exists@) == apply_already_targets(scan.entries@)
                &&& pairs_view(p.0.conflicts@) == apply_conflict_pairs(scan.entries@, self.force)
                &&& p.0.skipped@.len() == 0
                &&& acts_view(p.1@) == apply_actions(scan.entries@, self.force, self.dry_run)
            },
            !scan.source_exists ==> (r matches Err(DotfilesError::SymlinkFailed(m)) && m@
                == "Source directory does not exist: \""@ + scan.source_path@ + "\""@),
    {
        if !scan.source_exists {
            return Err(DotfilesError::SymlinkFailed(concat3(
                "Source directory does not exist: \"",
                scan.source_path.as_str(),
                "\"",
            )));
        }
        let mut report = SymlinkReport::new();
        let mut actions: Vec<FsAction> = Vec::new();
        let n = scan.entries.len();
        let mut i: usize = 0;
        while i < n
            invariant
                n == scan.entries@.len(),
                0 <= i <= n,
                paths_view(report.created@) == apply_created_targets(
                    scan.entries@.take(i as int),
                    self.force,
                ),
                paths_view(report.already_exists@) == apply_already_targets(
                    scan.entries@.take(i as int),
                ),
                pairs_view(report.conflicts@) == apply_conflict_pairs(
                    scan.entries@.take(i as int),
                    self.force,
                ),
                report.skipped@.len() == 0,
                acts_view(actions@) == apply_actions(
                    scan.entries@.take(i as int),
                    self.force,
                    self.dry_run,
                ),
            decreases n - i,
        {
            let e = &scan.entries[i];
            let ghost prev_created = report.created@;
            let ghost prev_already = report.already_exists@;
            let ghost prev_conflicts = report.conflicts@;
            let st = self.create_symlink(e, &mut actions);
            report.add(st);
            proof {
                let t1 = scan.entries@.take(i + 1);
                assert(t1.drop_last() =~= scan.entries@.take(i as int));
                assert(t1.last() == scan.entries@[i as int]);
                let le = scan.entries@[i as int];
                if entry_ok(le) {
                    assert(paths_view(report.already_exists@) =~= paths_view(prev_already)
                        + seq![le.target_path@]);
                    assert(paths_view(report.created@) =~= paths_view(prev_created));
                    assert(pairs_view(report.conflicts@) =~= pairs_view(prev_conflicts));
                } else if apply_is_created(le, self.force) {
                    assert(paths_view(report.created@) =~= paths_view(prev_created)
                        + seq![le.target_path@]);
                    assert(paths_view(report.already_exists@) =~= paths_view(prev_already));
                    assert(pairs_view(report.conflicts@) =~= pairs_view(prev_conflicts));
                } else {
                    assert(apply_is_conflict(le, self.force));
                    assert(pairs_view(report.conflicts@) =~= pairs_view(prev_conflicts)
                        + seq![(le.target_path@, apply_conflict_reason(le))]);
                    assert(paths_view(report.created@) =~= paths_view(prev_created));
                    assert(paths_view(report.already_exists@) =~= paths_view(prev_already));
                }
                assert(apply_created_targets(t1, self.force) == apply_created_targets(
                    t1.drop_last(),
                    self.force,
                ) + if apply_is_created(t1.last(), self.force) {
                    seq![t1.last().target_path@]
                } else {
                    Seq::empty()
                });
                assert(paths_view(report.created@) =~= apply_created_targets(t1, self.force));
                assert(paths_view(report.already_exists@) =~= apply_already_targets(t1));
                assert(pairs_view(report.conflicts@) =~= apply_conflict_pairs(t1, self.force));
                assert(acts_view(actions@) =~= apply_actions(t1, self.force, self.dry_run));
            }
            i += 1;
        }
        proof {
            assert(scan.entries@.take(n as int) =~= scan.entries@);
            if self.dry_run {
                lemma_dry_run_plans_nothing(scan.entries@, self.force);
            }
        }
        Ok((report, actions))
    }

    /// Native symlinks are assumed available on the Unix platforms this
    /// library targets.
    fn is_available(&self) -> (r: bool)
        ensures
            r,
    {
        true
    }

    fn name(&self) -> (r: &str)
        ensures
            r@ == "Manual Symlinks"@,
    {
        "Manual Symlinks"
    }

    /// Undoes the snapshot's links: an absent target is `Skipped`, a plain
    /// file or directory is a `Conflict` that is not touched, and a link is
    /// removed (reported, as callers expect, in the created bucket with an
    /// empty source). A dry run plans no removals.
    fn remove(&self, scan: &DirScan) -> (r: crate::error::Result<
        (SymlinkReport, Vec<FsAction>),
    >)
        ensures
            r is Ok <==> scan.source_exists,
            r matches Ok(p) ==> {
                &&& paths_view(p.0.created@) == remove_removed_targets(scan.entries@)
                &&& p.0.already_exists@.len() == 0
                &&& pairs_view(p.0.conflicts@) == remove_conflict_pairs(scan.entries@)
                &&& pairs_view(p.0.skipped@) == remove_skipped_pairs(scan.entries@)
                &&& acts_view(p.1@) == remove_actions(scan.entries@, self.dry_run)
            },
            !scan.source_exists ==> (r matches Err(DotfilesError::SymlinkFailed(m)) && m@
                == "Source directory does not exist: \""@ + scan.source_path@ + "\""@),
    {
        if !scan.source_exists {
            return Err(DotfilesError::SymlinkFailed(concat3(
                "Source directory does not exist: \"",
                scan.source_path.as_str(),
                "\"",
            )));
        }
        let mut report = SymlinkReport::new();
        let mut actions: Vec<FsAction> = Vec::new();
        let n = scan.entries.len();
        let mut i: usize = 0;
        while i < n
            invariant
                n == scan.entries@.len(),
                0 <= i <= n,
                paths_view(report.created@) == remove_removed_targets(
                    scan.entries@.take(i as int),
                ),
                report.already_exists@.len() == 0,
                pairs_view(report.conflicts@) == remove_conflict_pairs(
                    scan.entries@.take(i as int),
                ),
                pairs_view(report.skipped@) == remove_skipped_pairs(scan.entries@.take(i as int)),
                acts_view(actions@) == remove_actions(scan.entries@.take(i as int), self.dry_run),
            decreases n - i,
        {
            let e = &scan.entries[i];
            let ghost prev_created = report.created@;
            let ghost prev_conflicts = report.conflicts@;
            let ghost prev_skipped = report.skipped@;
            let st = self.remove_symlink(e, &mut actions);
            report.add(st);
            proof {
                let t1 = scan.entries@.take(i + 1);
                assert(t1.drop_last() =~= scan.entries@.take(i as int));
                assert(t1.last() == scan.entries@[i as int]);
                let le = scan.entries@[i as int];
                if le.target is Absent {
                    assert(pairs_view(report.skipped@) =~= pairs_view(prev_skipped)
                        + seq![(le.target_path@, "Symlink does not exist"@)]);
                    assert(paths_view(report.created@) =~= paths_view(prev_created));
                    assert(pairs_view(report.conflicts@) =~= pairs_view(prev_conflicts));
                } else if le.target is IsFile || le.target is IsDirectory {
                    assert(pairs_view(report.conflicts@) =~= pairs_view(prev_conflicts)
                        + seq![(le.target_path@, "Not a symlink, will not remove"@)]);
                    assert(paths_view(report.created@) =~= paths_view(prev_created));
                    assert(pairs_view(report.skipped@) =~= pairs_view(prev_skipped));
                } else {
                    assert(paths_view(report.created@) =~= paths_view(prev_created)
                        + seq![le.target_path@]);
                    assert(pairs_view(report.conflicts@) =~= pairs_view(prev_conflicts));
                    assert(pairs_view(report.skipped@) =~= pairs_view(prev_skipped));
                }
                assert(paths_view(report.created@) =~= remove_removed_targets(t1));
                assert(pairs_view(report.conflicts@) =~= remove_conflict_pairs(t1));
                assert(pairs_view(report.skipped@) =~= remove_skipped_pairs(t1));
                assert(acts_view(actions@) =~= remove_actions(t1, self.dry_run));
            }
            i += 1;
        }
        proof {
            assert(scan.entries@.take(n as int) =~= scan.entries@);
            if self.dry_run {
                lemma_dry_run_plans_nothing(scan.entries@, false);
            }
        }
        Ok((report, actions))
    }
}

/// The state of an entry's target path after the planned `apply` actions are
/// performed: a freshly linked entry now carries a link to its source, and
/// every other entry is untouched.
pub open spec fn entry_after_apply(e: EntryProbe, force: bool) -> EntryProbe {
    if apply_is_created(e, force) {
        EntryProbe {
            name: e.name,
            source_path: e.source_path,
            target_path: e.target_path,
            target: TargetState::LinkTo { dest: e.source_path },
        }
    } else {
        e
    }
}

/// A dry run plans no filesystem actions, under `apply` and under `remove`.
pub proof fn lemma_dry_run_plans_nothing(s: Seq<EntryProbe>, force: bool)
    ensures
        apply_actions(s, force, true).len() == 0,
        remove_actions(s, true).len() == 0,
    decreases s.len(),
{
    if s.len() > 0 {
        lemma_dry_run_plans_nothing(s.drop_last(), force);
    }
}

/// In a sequence of entries whose links are all already correct, `apply`
/// creates nothing, conflicts on nothing, and reports every entry as already
/// correct.
proof fn lemma_all_ok_buckets(s: Seq<EntryProbe>, force: bool)
    requires
        forall|i: int| 0 <= i < s.len() ==> entry_ok(#[trigger] s[i]),
    ensures
        apply_already_targets(s) == s.map_values(|e: EntryProbe| e.target_path@),
        apply_created_targets(s, force).len() == 0,
        apply_conflict_pairs(s, force).len() == 0,
    decreases s.len(),
{
    if s.len() == 0 {
        assert(apply_already_targets(s) =~= s.map_values(|e: EntryProbe| e.target_path@));
    } else {
        let head = s.drop_last();
        assert(forall|i: int| 0 <= i < head.len() ==> entry_ok(#[trigger] head[i]));
        lemma_all_ok_buckets(head, force);
        assert(entry_ok(s.last()));
        assert(apply_already_targets(s) =~= s.map_values(|e: EntryProbe| e.target_path@));
    }
}

/// An empty conflict bucket means no entry conflicts.
proof fn lemma_no_conflicts_pointwise(s: Seq<EntryProbe>, force: bool)
    requires
        apply_conflict_pairs(s, force).len() == 0,
    ensures
        forall|i: int| 0 <= i < s.len() ==> !apply_is_conflict(#[trigger] s[i], force),
    decreases s.len(),
{
    if s.len() > 0 {
        let head = s.drop_last();
        assert(apply_conflict_pairs(head, force).len() == 0);
        lemma_no_conflicts_pointwise(head, force);
        assert(forall|i: int|
            0 <= i < s.len() - 1 ==> s[i] == head[i] && !apply_is_conflict(#[trigger] s[i], force));
        assert(!apply_is_conflict(s.last(), force));
    }
}

/// Idempotence of `apply`: when a non-dry run reports no conflicts, running
/// `apply` again on the resulting state reports every entry as already
/// correct, creates nothing and conflicts on nothing.
pub proof fn lemma_apply_idempotent(entries: Seq<EntryProbe>, force: bool)
    requires
        apply_conflict_pairs(entries, force).len() == 0,
    ensures
        ({
            let after = entries.map_values(|e: EntryProbe| entry_after_apply(e, force));
            &&& apply_already_targets(after) == after.map_values(|e: EntryProbe| e.target_path@)
            &&& apply_created_targets(after, force).len() == 0
            &&& apply_conflict_pairs(after, force).len() == 0
        }),
{
    lemma_no_conflicts_pointwise(entries, force);
    let after = entries.map_values(|e: EntryProbe| entry_after_apply(e, force));
    assert forall|i: int| 0 <= i < after.len() implies entry_ok(#[trigger] after[i]) by {
        let e = entries[i];
        assert(!apply_is_conflict(e, force));
        if apply_is_created(e, force) {
            assert(after[i] == entry_after_apply(e, force));
            assert(after[i].target matches TargetState::LinkTo { dest } && dest@
                == after[i].source_path@);
        } else {
            assert(entry_ok(e));
            assert(after[i] == e);
        }
    }
    lemma_all_ok_buckets(after, force);
}

} // verus!
