//! Backup bookkeeping: the timestamped directory-name convention, parsing it
//! back into backup metadata, and picking the most recent backup. Copying
//! directories is outside work.

use vstd::prelude::*;

use crate::textfmt::{base_name, base_name_of, starts_with_seq, starts_with_str};

verus! {

/// Backup metadata.
#[derive(Debug, Clone)]
pub struct BackupInfo {
    /// The backup directory.
    pub path: String,
    /// The timestamp encoded in the directory name.
    pub timestamp: String,
    /// The directory the backup was taken of.
    pub source: String,
}

/// The prefix of every backup directory name.
pub open spec fn backup_prefix() -> Seq<char> {
    ".dotfiles-backup-"@
}

/// A path whose final component names a backup.
pub open spec fn is_backup_path(path: Seq<char>) -> bool {
    starts_with_seq(base_name_of(path), backup_prefix())
}

/// The timestamp encoded in a backup path's final component.
pub open spec fn timestamp_of(path: Seq<char>) -> Seq<char> {
    base_name_of(path).skip(backup_prefix().len() as int)
}

/// Returns the backup directory name for a timestamp.
pub fn backup_dir_name(timestamp: &str) -> (r: String)
    ensures
        r@ == backup_prefix() + timestamp@,
{
    let mut s = String::from_str(".dotfiles-backup-");
    s.append(timestamp);
    s
}

impl BackupInfo {
    /// Parses a backup directory path: the path names a backup exactly when
    /// its final component starts with the backup prefix, and the timestamp
    /// is what follows the prefix.
    pub fn from_path(path: String, source: String) -> (r: Option<Self>)
        ensures
            (r is Some) == is_backup_path(path@),
            r matches Some(b) ==> b.path@ == path@ && b.source@ == source@ && b.timestamp@
                == timestamp_of(path@),
    {
        let name = base_name(path.as_str());
        if starts_with_str(name.as_str(), ".dotfiles-backup-") {
            let plen = ".dotfiles-backup-".unicode_len();
            let nlen = name.unicode_len();
            let ts = name.substring_char(plen, nlen).to_owned();
            proof {
                assert(name@.subrange(plen as int, nlen as int) =~= name@.skip(plen as int));
            }
            Some(BackupInfo { path, timestamp: ts, source })
        } else {
            None
        }
    }
}

/// `a` is lexicographically before `b`, by character code points: at the
/// first difference `a` holds the smaller character, or `a` is a proper
/// prefix of `b`.
pub open spec fn lex_lt(a: Seq<char>, b: Seq<char>) -> bool
    decreases a.len(),
{
    if b.len() == 0 {
        false
    } else if a.len() == 0 {
        true
    } else if (a[0] as u32) < (b[0] as u32) {
        true
    } else if (a[0] as u32) > (b[0] as u32) {
        false
    } else {
        lex_lt(a.drop_first(), b.drop_first())
    }
}

/// Characters with equal code points are equal.
proof fn lemma_char_inj(x: char, y: char)
    requires
        x as u32 == y as u32,
    ensures
        x == y,
{
}

/// Two texts are lexicographically ordered one way or the other, or equal.
pub proof fn lemma_lex_total(a: Seq<char>, b: Seq<char>)
    ensures
        lex_lt(a, b) || lex_lt(b, a) || a == b,
    decreases a.len(),
{
    if b.len() == 0 || a.len() == 0 {
        if a.len() == b.len() {
            assert(a =~= b);
        }
    } else if (a[0] as u32) == (b[0] as u32) {
        lemma_lex_total(a.drop_first(), b.drop_first());
        if a.drop_first() == b.drop_first() {
            lemma_char_inj(a[0], b[0]);
            assert(a.drop_first().len() == a.len() - 1);
            assert(b.drop_first().len() == b.len() - 1);
            assert(a.len() == b.len());
            assert forall|q: int| 0 <= q < a.len() implies a[q] == b[q] by {
                if q >= 1 {
                    assert(a[q] == a.drop_first()[q - 1]);
                    assert(b[q] == b.drop_first()[q - 1]);
                }
            }
            assert(a =~= b);
        }
    }
}

/// No text is lexicographically before itself.
pub proof fn lemma_lex_irrefl(a: Seq<char>)
    ensures
        !lex_lt(a, a),
    decreases a.len(),
{
    if a.len() > 0 {
        lemma_lex_irrefl(a.drop_first());
    }
}

/// Lexicographic order is transitive.
pub proof fn lemma_lex_trans(a: Seq<char>, b: Seq<char>, c: Seq<char>)
    requires
        lex_lt(a, b),
        lex_lt(b, c),
    ensures
        lex_lt(a, c),
    decreases a.len(),
{
    if a.len() == 0 {
    } else {
        if (a[0] as u32) == (b[0] as u32) && (b[0] as u32) == (c[0] as u32) {
            lemma_lex_trans(a.drop_first(), b.drop_first(), c.drop_first());
        }
    }
}

/// Compares two texts lexicographically by character code points.
pub fn str_lex_lt(a: &str, b: &str) -> (r: bool)
    ensures
        r == lex_lt(a@, b@),
{
    let la = a.unicode_len();
    let lb = b.unicode_len();
    let min = if la < lb {
        la
    } else {
        lb
    };
    let mut i: usize = 0;
    proof {
        assert(a@.skip(0) =~= a@);
        assert(b@.skip(0) =~= b@);
    }
    while i < min
        invariant
            la == a@.len(),
            lb == b@.len(),
            min == if la < lb {
                la
            } else {
                lb
            },
            0 <= i <= min,
            lex_lt(a@, b@) == lex_lt(a@.skip(i as int), b@.skip(i as int)),
        decreases min - i,
    {
        let ca = a.get_char(i);
        let cb = b.get_char(i);
        let ghost sa = a@.skip(i as int);
        let ghost sb = b@.skip(i as int);
        proof {
            assert(sa[0] == a@[i as int]);
            assert(sb[0] == b@[i as int]);
            assert(sa.drop_first() =~= a@.skip(i + 1));
            assert(sb.drop_first() =~= b@.skip(i + 1));
        }
        if (ca as u32) < (cb as u32) {
            return true;
        }
        if (ca as u32) > (cb as u32) {
            return false;
        }
        i += 1;
    }
    proof {
        let sa = a@.skip(min as int);
        let sb = b@.skip(min as int);
        if la < lb {
            assert(sa.len() == 0 && sb.len() > 0);
        } else {
            assert(sb.len() == 0);
        }
    }
    la < lb
}

/// The candidate at `i` parses as a backup.
pub open spec fn candidate_is_backup(paths: Seq<String>, i: int) -> bool {
    is_backup_path(paths[i]@)
}

/// Gets the most recent backup among the candidate directory paths: the
/// first candidate carrying the lexicographically greatest timestamp. The
/// source field of the result is left empty, as the listing does not know
/// it.
pub fn get_latest_backup(candidates: &Vec<String>) -> (r: Option<BackupInfo>)
    ensures
        (r is Some) == (exists|i: int|
            0 <= i < candidates@.len() && candidate_is_backup(candidates@, i)),
        r matches Some(b) ==> exists|i: int|
            {
                &&& 0 <= i < candidates@.len()
                &&& #[trigger] candidate_is_backup(candidates@, i)
                &&& b.path@ == candidates@[i]@
                &&& b.timestamp@ == timestamp_of(candidates@[i]@)
                &&& b.source@ == Seq::<char>::empty()
                &&& forall|j: int|
                    0 <= j < candidates@.len() && #[trigger] candidate_is_backup(candidates@, j)
                        ==> !lex_lt(b.timestamp@, timestamp_of(candidates@[j]@)) && (j < i
                        ==> lex_lt(timestamp_of(candidates@[j]@), b.timestamp@))
            },
{
    let n = candidates.len();
    let mut best: Option<BackupInfo> = None;
    let ghost mut best_at: int = 0;
    let mut i: usize = 0;
    while i < n
        invariant
            n == candidates@.len(),
            0 <= i <= n,
            (best is Some) == (exists|k: int| 0 <= k < i && candidate_is_backup(candidates@, k)),
            best matches Some(b) ==> {
                &&& 0 <= best_at < i
                &&& candidate_is_backup(candidates@, best_at)
                &&& b.path@ == candidates@[best_at]@
                &&& b.timestamp@ == timestamp_of(candidates@[best_at]@)
                &&& b.source@ == Seq::<char>::empty()
                &&& forall|j: int|
                    0 <= j < i && #[trigger] candidate_is_backup(candidates@, j) ==> !lex_lt(
                        b.timestamp@,
                        timestamp_of(candidates@[j]@),
                    ) && (j < best_at ==> lex_lt(timestamp_of(candidates@[j]@), b.timestamp@))
            },
        decreases n - i,
    {
        let ghost old_best = best;
        let ghost old_best_at = best_at;
        match BackupInfo::from_path(candidates[i].clone(), String::new()) {
            Some(cand) => {
                proof {
                    assert(candidate_is_backup(candidates@, i as int));
                    assert(cand.timestamp@ == timestamp_of(candidates@[i as int]@));
                }
                let take_it = match &best {
                    Some(b) => str_lex_lt(b.timestamp.as_str(), cand.timestamp.as_str()),
                    None => true,
                };
                if take_it {
                    let ghost candv = cand;
                    best = Some(cand);
                    proof {
                        best_at = i as int;
                        lemma_lex_irrefl(candv.timestamp@);
                        assert forall|j: int|
                            0 <= j < i + 1 && #[trigger] candidate_is_backup(candidates@, j)
                                implies !lex_lt(
                                candv.timestamp@,
                                timestamp_of(candidates@[j]@),
                            ) && (j < i ==> lex_lt(
                                timestamp_of(candidates@[j]@),
                                candv.timestamp@,
                            )) by {
                            if j < i {
                                let ob = old_best.unwrap();
                                let tsj = timestamp_of(candidates@[j]@);
                                lemma_lex_total(tsj, ob.timestamp@);
                                if lex_lt(tsj, ob.timestamp@) {
                                    lemma_lex_trans(tsj, ob.timestamp@, candv.timestamp@);
                                }
                                if lex_lt(candv.timestamp@, tsj) {
                                    lemma_lex_trans(candv.timestamp@, tsj, candv.timestamp@);
                                }
                            }
                        }
                    }
                } else {
                    proof {
                        assert forall|j: int|
                            0 <= j < i + 1 && #[trigger] candidate_is_backup(candidates@, j)
                                implies !lex_lt(
                                old_best.unwrap().timestamp@,
                                timestamp_of(candidates@[j]@),
                            ) && (j < old_best_at ==> lex_lt(
                                timestamp_of(candidates@[j]@),
                                old_best.unwrap().timestamp@,
                            )) by {}
                    }
                }
            },
            None => {},
        }
        i += 1;
    }
    best
}

} // verus!
