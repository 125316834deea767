//! The symlink reconciler: given a snapshot of a source directory's entries
//! and of what occupies each corresponding target path, it decides per entry
//! whether a link can be created, already exists correctly, or conflicts,
//! and plans the filesystem actions that an unverified executor performs.

pub mod manual;
pub mod stow;

use vstd::prelude::*;

use crate::error::DotfilesError;
use crate::textfmt::concat3;

verus! {

/// What occupies a target path, as probed by the caller.
#[derive(Debug, Clone, PartialEq, Eq)]
pub enum TargetState {
    /// Nothing exists at the path.
    Absent,
    /// A plain file exists at the path.
    IsFile,
    /// A directory exists at the path.
    IsDirectory,
    /// A symlink exists and resolves to `dest`.
    LinkTo { dest: String },
    /// A symlink exists but its destination could not be read.
    LinkUnreadable,
}

/// One direct child of the source directory, with the probed state of the
/// corresponding target path.
#[derive(Debug, Clone)]
pub struct EntryProbe {
    /// The entry's file name.
    pub name: String,
    /// The full path of the entry under the source directory.
    pub source_path: String,
    /// The full path the link would occupy under the target directory.
    pub target_path: String,
    /// What currently occupies the target path.
    pub target: TargetState,
}

/// A snapshot of one directory comparison: the source directory's direct
/// children and the probed state of each target path.
#[derive(Debug, Clone)]
pub struct DirScan {
    /// The source directory.
    pub source_path: String,
    /// The target directory.
    pub target_path: String,
    /// Whether the source directory exists.
    pub source_exists: bool,
    /// One probe per direct child of the source directory.
    pub entries: Vec<EntryProbe>,
}

/// A filesystem mutation planned by the reconciler, to be performed by an
/// unverified executor.
#[derive(Debug, Clone)]
pub enum FsAction {
    /// Remove the link at `path`.
    RemoveFile { path: String },
    /// Create a symlink at `target` resolving to `source`, creating parent
    /// directories as needed.
    CreateLink { source: String, target: String },
}

/// The mathematical shape of a planned action.
pub enum SpecAction {
    /// Remove the link at `path`.
    RemoveFile { path: Seq<char> },
    /// Create a symlink at `target` resolving to `source`.
    CreateLink { source: Seq<char>, target: Seq<char> },
}

/// The mathematical shape of an executable action.
pub open spec fn act_view(a: FsAction) -> SpecAction {
    match a {
        FsAction::RemoveFile { path } => SpecAction::RemoveFile { path: path@ },
        FsAction::CreateLink { source, target } => SpecAction::CreateLink {
            source: source@,
            target: target@,
        },
    }
}

/// The views of a sequence of planned actions.
pub open spec fn acts_view(s: Seq<FsAction>) -> Seq<SpecAction> {
    s.map_values(|a: FsAction| act_view(a))
}

/// The views of a sequence of (path, reason) pairs.
pub open spec fn pairs_view(s: Seq<(String, String)>) -> Seq<(Seq<char>, Seq<char>)> {
    s.map_values(|p: (String, String)| (p.0@, p.1@))
}

/// The views of a sequence of paths.
pub open spec fn paths_view(s: Seq<String>) -> Seq<Seq<char>> {
    s.map_values(|p: String| p@)
}

/// The target path is already a link that resolves to the entry's source.
pub open spec fn entry_ok(e: EntryProbe) -> bool {
    e.target matches TargetState::LinkTo { dest } && dest@ == e.source_path@
}

/// The target path is occupied by something other than a correct link.
pub open spec fn entry_conflicting(e: EntryProbe) -> bool {
    !(e.target is Absent) && !entry_ok(e)
}

/// The reason reported for a conflicting entry.
pub open spec fn detect_reason(e: EntryProbe) -> Seq<char> {
    match e.target {
        TargetState::LinkTo { .. } => "Symlink exists but points to wrong location"@,
        TargetState::LinkUnreadable => "Symlink exists but points to wrong location"@,
        TargetState::IsDirectory => "Directory already exists"@,
        TargetState::IsFile => "File already exists"@,
        TargetState::Absent => Seq::empty(),
    }
}

/// The conflicts among a sequence of entries, in entry order.
pub open spec fn conflicts_of(s: Seq<EntryProbe>) -> Seq<(Seq<char>, Seq<char>)>
    decreases s.len(),
{
    if s.len() == 0 {
        Seq::empty()
    } else {
        conflicts_of(s.drop_last()) + if entry_conflicting(s.last()) {
            seq![(s.last().target_path@, detect_reason(s.last()))]
        } else {
            Seq::empty()
        }
    }
}

/// Detects conflicts before creating symlinks. A missing source directory is
/// reported as a single synthetic conflict entry, as callers expect.
pub fn detect_conflicts(scan: &DirScan) -> (r: Vec<(String, String)>)
    ensures
        !scan.source_exists ==> pairs_view(r@) == seq![
            (scan.source_path@, "Source directory does not exist"@),
        ],
        scan.source_exists ==> pairs_view(r@) == conflicts_of(scan.entries@),
{
    let mut r: Vec<(String, String)> = Vec::new();
    if !scan.source_exists {
        r.push((scan.source_path.clone(), String::from_str("Source directory does not exist")));
        proof {
            assert(pairs_view(r@) =~= seq![
                (scan.source_path@, "Source directory does not exist"@),
            ]);
        }
        return r;
    }
    let n = scan.entries.len();
    let mut i: usize = 0;
    while i < n
        invariant
            n == scan.entries@.len(),
            0 <= i <= n,
            pairs_view(r@) == conflicts_of(scan.entries@.take(i as int)),
        decreases n - i,
    {
        let e = &scan.entries[i];
        let ghost prev = r@;
        match &e.target {
            TargetState::Absent => {},
            TargetState::LinkTo { dest } => {
                if !crate::textfmt::str_eq(dest.as_str(), e.source_path.as_str()) {
                    r.push((
                        e.target_path.clone(),
                        String::from_str("Symlink exists but points to wrong location"),
                    ));
                }
            },
            TargetState::LinkUnreadable => {
                r.push((
                    e.target_path.clone(),
                    String::from_str("Symlink exists but points to wrong location"),
                ));
            },
            TargetState::IsDirectory => {
                r.push((
                    e.target_path.clone(),
                    String::from_str("Directory already exists"),
                ));
            },
            TargetState::IsFile => {
                r.push((
                    e.target_path.clone(),
                    String::from_str("File already exists"),
                ));
            },
        }
        proof {
            let t1 = scan.entries@.take(i + 1);
            assert(t1.drop_last() =~= scan.entries@.take(i as int));
            assert(t1.last() == scan.entries@[i as int]);
            if entry_conflicting(scan.entries@[i as int]) {
                assert(pairs_view(r@) =~= pairs_view(prev) + seq![
                    (scan.entries@[i as int].target_path@, detect_reason(scan.entries@[i as int])),
                ]);
            } else {
                assert(pairs_view(r@) =~= pairs_view(prev));
            }
            assert(pairs_view(r@) =~= conflicts_of(t1));
        }
        i += 1;
    }
    proof {
        assert(scan.entries@.take(n as int) =~= scan.entries@);
    }
    r
}

/// Precision of conflict detection: an entry's target path appears in the
/// conflict list exactly when the target path is occupied by something other
/// than a correct link. Holds for any scan whose entries carry pairwise
/// distinct target paths, as the children of one directory do.
pub proof fn lemma_conflict_detection_precise(s: Seq<EntryProbe>, i: int)
    requires
        0 <= i < s.len(),
        forall|p: int, q: int|
            0 <= p < q < s.len() ==> s[p].target_path@ != s[q].target_path@,
    ensures
        (exists|j: int| 0 <= j < conflicts_of(s).len() && conflicts_of(s)[j].0 == s[i].target_path@)
            <==> entry_conflicting(s[i]),
{
    lemma_conflicts_membership(s, s[i].target_path@);
    if entry_conflicting(s[i]) {
        assert(exists|k: int|
            0 <= k < s.len() && s[k].target_path@ == s[i].target_path@ && entry_conflicting(s[k]));
    }
    if exists|j: int|
        0 <= j < conflicts_of(s).len() && conflicts_of(s)[j].0 == s[i].target_path@ {
        let k = choose|k: int|
            0 <= k < s.len() && s[k].target_path@ == s[i].target_path@ && entry_conflicting(s[k]);
        assert(k == i);
    }
}

/// A path appears in the conflict list exactly when some conflicting entry
/// has that target path.
proof fn lemma_conflicts_membership(s: Seq<EntryProbe>, p: Seq<char>)
    ensures
        (exists|j: int| 0 <= j < conflicts_of(s).len() && conflicts_of(s)[j].0 == p)
            <==> (exists|k: int| 0 <= k < s.len() && s[k].target_path@ == p && entry_conflicting(s[k])),
    decreases s.len(),
{
    if s.len() == 0 {
    } else {
        let head = s.drop_last();
        lemma_conflicts_membership(head, p);
        let cs = conflicts_of(s);
        let ch = conflicts_of(head);
        if exists|j: int| 0 <= j < cs.len() && cs[j].0 == p {
            let j = choose|j: int| 0 <= j < cs.len() && cs[j].0 == p;
            if j < ch.len() {
                assert(ch[j].0 == p);
                let k = choose|k: int|
                    0 <= k < head.len() && head[k].target_path@ == p && entry_conflicting(head[k]);
                assert(s[k] == head[k]);
            } else {
                assert(entry_conflicting(s.last()) && s.last().target_path@ == p);
                assert(s[s.len() - 1].target_path@ == p && entry_conflicting(s[s.len() - 1]));
            }
        }
        if exists|k: int| 0 <= k < s.len() && s[k].target_path@ == p && entry_conflicting(s[k]) {
            let k = choose|k: int|
                0 <= k < s.len() && s[k].target_path@ == p && entry_conflicting(s[k]);
            if k < s.len() - 1 {
                assert(head[k].target_path@ == p && entry_conflicting(head[k]));
                let j = choose|j: int| 0 <= j < ch.len() && ch[j].0 == p;
                assert(cs[j].0 == p);
            } else {
                assert(cs[cs.len() - 1].0 == p);
            }
        }
    }
}

/// The issue a validation pass reports for one entry, if any.
pub open spec fn issue_of(e: EntryProbe) -> Option<Seq<char>> {
    match e.target {
        TargetState::Absent => Some("Symlink does not exist"@),
        TargetState::IsFile => Some("Not a symlink"@),
        TargetState::IsDirectory => Some("Not a symlink"@),
        TargetState::LinkTo { dest } => if dest@ == e.source_path@ {
            None
        } else {
            Some(
                "Points to \""@ + dest@ + "\" instead of \""@ + e.source_path@ + "\""@,
            )
        },
        TargetState::LinkUnreadable => Some("Failed to read symlink"@),
    }
}

/// The issues a validation pass reports, in entry order.
pub open spec fn issues_of(s: Seq<EntryProbe>) -> Seq<(Seq<char>, Seq<char>)>
    decreases s.len(),
{
    if s.len() == 0 {
        Seq::empty()
    } else {
        issues_of(s.drop_last()) + match issue_of(s.last()) {
            Some(m) => seq![(s.last().target_path@, m)],
            None => Seq::empty(),
        }
    }
}

/// Validates that every entry's target path is a link resolving to the
/// entry's source, reporting one issue per entry that is not.
pub fn validate_symlinks(scan: &DirScan) -> (r: crate::error::Result<Vec<(String, String)>>)
    ensures
        r matches Ok(v) && (if scan.source_exists {
            pairs_view(v@) == issues_of(scan.entries@)
        } else {
            pairs_view(v@) == seq![(scan.source_path@, "Source directory does not exist"@)]
        }),
{
    let mut v: Vec<(String, String)> = Vec::new();
    if !scan.source_exists {
        v.push((scan.source_path.clone(), String::from_str("Source directory does not exist")));
        proof {
            assert(pairs_view(v@) =~= seq![
                (scan.source_path@, "Source directory does not exist"@),
            ]);
        }
        return Ok(v);
    }
    let n = scan.entries.len();
    let mut i: usize = 0;
    while i < n
        invariant
            n == scan.entries@.len(),
            0 <= i <= n,
            pairs_view(v@) == issues_of(scan.entries@.take(i as int)),
        decreases n - i,
    {
        let e = &scan.entries[i];
        let ghost prev = v@;
        match &e.target {
            TargetState::Absent => {
                v.push((e.target_path.clone(), String::from_str("Symlink does not exist")));
            },
            TargetState::IsFile => {
                v.push((e.target_path.clone(), String::from_str("Not a symlink")));
            },
            TargetState::IsDirectory => {
                v.push((e.target_path.clone(), String::from_str("Not a symlink")));
            },
            TargetState::LinkTo { dest } => {
                if !crate::textfmt::str_eq(dest.as_str(), e.source_path.as_str()) {
                    let msg = concat3(
                        "Points to \"",
                        dest.as_str(),
                        "\" instead of \"",
                    );
                    let msg = concat3(msg.as_str(), e.source_path.as_str(), "\"");
                    v.push((e.target_path.clone(), msg));
                }
            },
            TargetState::LinkUnreadable => {
                v.push((e.target_path.clone(), String::from_str("Failed to read symlink")));
            },
        }
        proof {
            let t1 = scan.entries@.take(i + 1);
            assert(t1.drop_last() =~= scan.entries@.take(i as int));
            assert(t1.last() == scan.entries@[i as int]);
            match issue_of(scan.entries@[i as int]) {
                Some(m) => {
                    assert(pairs_view(v@) =~= pairs_view(prev) + seq![
                        (scan.entries@[i as int].target_path@, m),
                    ]);
                },
                None => {
                    assert(pairs_view(v@) =~= pairs_view(prev));
                },
            }
            assert(pairs_view(v@) =~= issues_of(t1));
        }
        i += 1;
    }
    proof {
        assert(scan.entries@.take(n as int) =~= scan.entries@);
    }
    Ok(v)
}

/// Entry names that are never linked into the home directory: repository
/// bookkeeping and other non-portable files.
pub fn exclusions() -> (r: Vec<String>)
    ensures
        r@.len() == 5,
        r@[0]@ == ".git"@,
        r@[1]@ == ".DS_Store"@,
        r@[2]@ == ".agent"@,
        r@[3]@ == "README.md"@,
        r@[4]@ == "LICENSE"@,
{
    let mut v: Vec<String> = Vec::new();
    v.push(String::from_str(".git"));
    v.push(String::from_str(".DS_Store"));
    v.push(String::from_str(".agent"));
    v.push(String::from_str("README.md"));
    v.push(String::from_str("LICENSE"));
    v
}

/// Directories whose contents are linked file by file rather than as one
/// directory link, because they mix tracked configuration with runtime data.
pub fn individual_file_symlink_dirs() -> (r: Vec<String>)
    ensures
        r@.len() == 1,
        r@[0]@ == ".agent"@,
{
    let mut v: Vec<String> = Vec::new();
    v.push(String::from_str(".agent"));
    v
}

/// The result of one symlink operation.
#[derive(Debug, Clone, PartialEq, Eq)]
pub enum SymlinkStatus {
    /// A link was created (or planned, in a dry run).
    Created { source: String, target: String },
    /// A link already exists and resolves to the correct source.
    AlreadyExists { target: String },
    /// Conflicting content occupies the target path.
    Conflict { target: String, reason: String },
    /// The operation was intentionally not performed.
    Skipped { target: String, reason: String },
}

impl SymlinkStatus {
    /// The operation succeeded: a link was created or already existed.
    pub open spec fn spec_is_success(&self) -> bool {
        self is Created || self is AlreadyExists
    }

    /// Returns true if the symlink operation was successful.
    pub fn is_success(&self) -> (r: bool)
        ensures
            r == self.spec_is_success(),
    {
        matches!(self, SymlinkStatus::Created { .. } | SymlinkStatus::AlreadyExists { .. })
    }

    /// Returns true if there was a conflict.
    pub fn is_conflict(&self) -> (r: bool)
        ensures
            r == (self is Conflict),
    {
        matches!(self, SymlinkStatus::Conflict { .. })
    }

    /// The target path this status is about.
    pub open spec fn spec_target(&self) -> Seq<char> {
        match self {
            SymlinkStatus::Created { target, .. } => target@,
            SymlinkStatus::AlreadyExists { target } => target@,
            SymlinkStatus::Conflict { target, .. } => target@,
            SymlinkStatus::Skipped { target, .. } => target@,
        }
    }

    /// Returns the target path for this status.
    pub fn target(&self) -> (r: &str)
        ensures
            r@ == self.spec_target(),
    {
        match self {
            SymlinkStatus::Created { target, .. } => target.as_str(),
            SymlinkStatus::AlreadyExists { target } => target.as_str(),
            SymlinkStatus::Conflict { target, .. } => target.as_str(),
            SymlinkStatus::Skipped { target, .. } => target.as_str(),
        }
    }
}

/// Report summarizing symlink operations, partitioned into four buckets.
#[derive(Debug, Clone)]
pub struct SymlinkReport {
    /// Target paths of links newly created (or planned, in a dry run).
    pub created: Vec<String>,
    /// Target paths of links that already resolved correctly.
    pub already_exists: Vec<String>,
    /// Target paths that conflict, each with the reason.
    pub conflicts: Vec<(String, String)>,
    /// Target paths that were skipped, each with the reason.
    pub skipped: Vec<(String, String)>,
}

impl SymlinkReport {
    /// Creates a new empty report.
    pub fn new() -> (r: Self)
        ensures
            r.created@.len() == 0,
            r.already_exists@.len() == 0,
            r.conflicts@.len() == 0,
            r.skipped@.len() == 0,
    {
        SymlinkReport {
            created: Vec::new(),
            already_exists: Vec::new(),
            conflicts: Vec::new(),
            skipped: Vec::new(),
        }
    }

    /// Adds a status to the report, into the bucket of its variant.
    pub fn add(&mut self, status: SymlinkStatus)
        ensures
            status matches SymlinkStatus::Created { target, .. } ==> {
                &&& final(self).created@ == old(self).created@.push(target)
                &&& final(self).already_exists@ == old(self).already_exists@
                &&& final(self).conflicts@ == old(self).conflicts@
                &&& final(self).skipped@ == old(self).skipped@
            },
            status matches SymlinkStatus::AlreadyExists { target } ==> {
                &&& final(self).created@ == old(self).created@
                &&& final(self).already_exists@ == old(self).already_exists@.push(target)
                &&& final(self).conflicts@ == old(self).conflicts@
                &&& final(self).skipped@ == old(self).skipped@
            },
            status matches SymlinkStatus::Conflict { target, reason } ==> {
                &&& final(self).created@ == old(self).created@
                &&& final(self).already_exists@ == old(self).already_exists@
                &&& final(self).conflicts@ == old(self).conflicts@.push((target, reason))
                &&& final(self).skipped@ == old(self).skipped@
            },
            status matches SymlinkStatus::Skipped { target, reason } ==> {
                &&& final(self).created@ == old(self).created@
                &&& final(self).already_exists@ == old(self).already_exists@
                &&& final(self).conflicts@ == old(self).conflicts@
                &&& final(self).skipped@ == old(self).skipped@.push((target, reason))
            },
    {
        match status {
            SymlinkStatus::Created { source: _, target } => {
                self.created.push(target);
            },
            SymlinkStatus::AlreadyExists { target } => {
                self.already_exists.push(target);
            },
            SymlinkStatus::Conflict { target, reason } => {
                self.conflicts.push((target, reason));
            },
            SymlinkStatus::Skipped { target, reason } => {
                self.skipped.push((target, reason));
            },
        }
    }

    /// Returns true if all operations were successful: no conflicts.
    pub fn is_success(&self) -> (r: bool)
        ensures
            r == (self.conflicts@.len() == 0),
    {
        self.conflicts.len() == 0
    }

    /// Returns the total number of operations recorded.
    pub fn total(&self) -> (r: usize)
        requires
            self.created@.len() + self.already_exists@.len() + self.conflicts@.len()
                + self.skipped@.len() <= usize::MAX,
        ensures
            r == self.created@.len() + self.already_exists@.len() + self.conflicts@.len()
                + self.skipped@.len(),
    {
        self.created.len() + self.already_exists.len() + self.conflicts.len()
            + self.skipped.len()
    }

    /// Returns a summary line with the size of each bucket.
    pub fn summary(&self) -> (r: String)
        ensures
            r@ == "Created: "@ + crate::textfmt::dec_rep(self.created@.len())
                + ", Already exists: "@ + crate::textfmt::dec_rep(self.already_exists@.len())
                + ", Conflicts: "@ + crate::textfmt::dec_rep(self.conflicts@.len())
                + ", Skipped: "@ + crate::textfmt::dec_rep(self.skipped@.len()),
    {
        let mut s = String::from_str("Created: ");
        s.append(crate::textfmt::usize_to_string(self.created.len()).as_str());
        s.append(", Already exists: ");
        s.append(crate::textfmt::usize_to_string(self.already_exists.len()).as_str());
        s.append(", Conflicts: ");
        s.append(crate::textfmt::usize_to_string(self.conflicts.len()).as_str());
        s.append(", Skipped: ");
        s.append(crate::textfmt::usize_to_string(self.skipped.len()).as_str());
        s
    }

    /// Moves every outcome of `other` into this report, keeping order.
    pub fn merge(&mut self, other: SymlinkReport)
        ensures
            final(self).created@ == old(self).created@ + other.created@,
            final(self).already_exists@ == old(self).already_exists@ + other.already_exists@,
            final(self).conflicts@ == old(self).conflicts@ + other.conflicts@,
            final(self).skipped@ == old(self).skipped@ + other.skipped@,
    {
        let mut other = other;
        self.created.append(&mut other.created);
        self.already_exists.append(&mut other.already_exists);
        self.conflicts.append(&mut other.conflicts);
        self.skipped.append(&mut other.skipped);
    }
}

impl Default for SymlinkReport {
    /// An empty report.
    fn default() -> (r: Self)
        ensures
            r.created@.len() == 0,
            r.already_exists@.len() == 0,
            r.conflicts@.len() == 0,
            r.skipped@.len() == 0,
    {
        SymlinkReport::new()
    }
}

/// Common interface for symlink reconciliation strategies. A strategy takes
/// a directory snapshot and returns the per-entry outcomes together with the
/// filesystem actions an executor must perform; in dry-run mode it plans no
/// actions.
pub trait Symlinker {
    /// Whether this strategy is in dry-run mode.
    spec fn spec_dry_run(&self) -> bool;

    /// Reconciles the snapshot: decides one outcome per entry and plans the
    /// actions that create the missing links.
    fn symlink(&self, scan: &DirScan) -> (r: crate::error::Result<
        (SymlinkReport, Vec<FsAction>),
    >)
        ensures
            r matches Ok(p) ==> (self.spec_dry_run() ==> p.1@.len() == 0),
    ;

    /// Checks if this strategy is available on the system.
    fn is_available(&self) -> bool;

    /// Returns the name of this strategy.
    fn name(&self) -> &str;

    /// Undoes the links of the snapshot's entries, planning one removal per
    /// existing link.
    fn remove(&self, scan: &DirScan) -> (r: crate::error::Result<
        (SymlinkReport, Vec<FsAction>),
    >)
        ensures
            r matches Ok(p) ==> (self.spec_dry_run() ==> p.1@.len() == 0),
    ;
}

} // verus!
