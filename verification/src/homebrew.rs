//! Homebrew detection decisions: which of the two conventional installation
//! paths is used, given which of them the system reports existing.

use vstd::prelude::*;

use crate::textfmt::strs_view;

verus! {

/// The conventional Homebrew installation paths: the ARM location first,
/// then the Intel location.
pub open spec fn spec_homebrew_paths() -> Seq<Seq<char>> {
    seq!["/opt/homebrew/bin/brew"@, "/usr/local/bin/brew"@]
}

/// Possible Homebrew installation paths, in probe order.
pub fn homebrew_paths() -> (r: Vec<String>)
    ensures
        strs_view(r@) == spec_homebrew_paths(),
{
    let mut v: Vec<String> = Vec::new();
    v.push(String::from_str("/opt/homebrew/bin/brew"));
    v.push(String::from_str("/usr/local/bin/brew"));
    proof {
        assert(strs_view(v@) =~= spec_homebrew_paths());
    }
    v
}

/// The Homebrew path picked: the first of the conventional paths that
/// exists.
pub open spec fn spec_detect_homebrew(arm_exists: bool, intel_exists: bool) -> Option<Seq<char>> {
    if arm_exists {
        Some("/opt/homebrew/bin/brew"@)
    } else if intel_exists {
        Some("/usr/local/bin/brew"@)
    } else {
        None
    }
}

/// Detects the Homebrew installation path, given which of the conventional
/// paths the system reports existing.
pub fn detect_homebrew(arm_exists: bool, intel_exists: bool) -> (r: Option<String>)
    ensures
        match r {
            Some(p) => spec_detect_homebrew(arm_exists, intel_exists) == Some(p@),
            None => spec_detect_homebrew(arm_exists, intel_exists) is None,
        },
{
    if arm_exists {
        Some(String::from_str("/opt/homebrew/bin/brew"))
    } else if intel_exists {
        Some(String::from_str("/usr/local/bin/brew"))
    } else {
        None
    }
}

/// Checks if Homebrew is installed at either conventional path.
pub fn is_installed(arm_exists: bool, intel_exists: bool) -> (r: bool)
    ensures
        r == (arm_exists || intel_exists),
        r == (spec_detect_homebrew(arm_exists, intel_exists) is Some),
{
    arm_exists || intel_exists
}

/// Gets the path to the brew executable, if one exists.
pub fn get_brew_path(arm_exists: bool, intel_exists: bool) -> (r: Option<String>)
    ensures
        match r {
            Some(p) => spec_detect_homebrew(arm_exists, intel_exists) == Some(p@),
            None => spec_detect_homebrew(arm_exists, intel_exists) is None,
        },
{
    detect_homebrew(arm_exists, intel_exists)
}

} // verus!
