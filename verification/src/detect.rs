//! Host detection data: the operating-system kind, and the home-directory
//! conflict scan over the fixed list of tracked configuration files.

use vstd::prelude::*;

use crate::textfmt::strs_view;

verus! {

/// The kind of operating system the tool runs on.
#[derive(Debug, Clone, Copy, PartialEq, Eq, Structural)]
pub enum OS {
    MacOS,
    Linux,
    Unknown,
}

/// The home-directory files the conflict scan looks at.
pub open spec fn spec_tracked_files() -> Seq<Seq<char>> {
    seq![".zshrc"@, ".tmux.conf"@, ".config/nvim"@, ".gitconfig"@]
}

/// The home-directory files the conflict scan looks at.
pub fn tracked_files() -> (r: Vec<String>)
    ensures
        strs_view(r@) == spec_tracked_files(),
{
    let mut v: Vec<String> = Vec::new();
    v.push(String::from_str(".zshrc"));
    v.push(String::from_str(".tmux.conf"));
    v.push(String::from_str(".config/nvim"));
    v.push(String::from_str(".gitconfig"));
    proof {
        assert(strs_view(v@) =~= spec_tracked_files());
    }
    v
}

/// The probe for the file at position `i`: whether it exists, and whether it
/// is a symlink. A missing probe counts as not existing.
pub open spec fn probe_at(probes: Seq<(bool, bool)>, i: int) -> (bool, bool) {
    if 0 <= i < probes.len() {
        probes[i]
    } else {
        (false, false)
    }
}

/// The paths under `home` whose tracked file exists and is not a symlink,
/// in list order.
pub open spec fn home_conflicts(
    home: Seq<char>,
    files: Seq<Seq<char>>,
    probes: Seq<(bool, bool)>,
) -> Seq<Seq<char>>
    decreases files.len(),
{
    if files.len() == 0 {
        Seq::empty()
    } else {
        home_conflicts(home, files.drop_last(), probes) + {
            let pr = probe_at(probes, files.len() - 1);
            if pr.0 && !pr.1 {
                seq![home + "/"@ + files.last()]
            } else {
                Seq::empty()
            }
        }
    }
}

/// Detects which tracked home-directory files are plain files or directories
/// rather than symlinks. `probes` pairs up with `tracked_files()`: per file,
/// whether it exists and whether it is a symlink.
pub fn detect_conflicts(home: &str, probes: &Vec<(bool, bool)>) -> (r: crate::error::Result<
    Vec<String>,
>)
    ensures
        r matches Ok(v) && strs_view(v@) == home_conflicts(home@, spec_tracked_files(), probes@),
{
    let files = tracked_files();
    let n = files.len();
    let mut v: Vec<String> = Vec::new();
    let mut i: usize = 0;
    proof {
        assert(strs_view(files@).take(0) =~= Seq::empty());
        assert(strs_view(v@) =~= home_conflicts(home@, strs_view(files@).take(0), probes@));
    }
    while i < n
        invariant
            n == files@.len(),
            strs_view(files@) == spec_tracked_files(),
            0 <= i <= n,
            strs_view(v@) == home_conflicts(home@, strs_view(files@).take(i as int), probes@),
        decreases n - i,
    {
        let ghost prev = v@;
        let (exists_here, is_link) = if i < probes.len() {
            probes[i]
        } else {
            (false, false)
        };
        if exists_here && !is_link {
            let mut p = String::from_str(home);
            p.append("/");
            p.append(files[i].as_str());
            v.push(p);
        }
        proof {
            let t1 = strs_view(files@).take(i + 1);
            assert(t1.drop_last() =~= strs_view(files@).take(i as int));
            assert(t1.last() == strs_view(files@)[i as int]);
            let pr = probe_at(probes@, i as int);
            assert(pr == (exists_here, is_link));
            if exists_here && !is_link {
                assert(strs_view(v@) =~= strs_view(prev) + seq![
                    home@ + "/"@ + files@[i as int]@,
                ]);
            }
            assert(strs_view(v@) =~= home_conflicts(home@, t1, probes@));
        }
        i += 1;
    }
    proof {
        assert(strs_view(files@).take(n as int) =~= strs_view(files@));
    }
    Ok(v)
}

} // verus!
