//! Repository cloning configuration. The cloning itself is outside work; the
//! library only carries the configuration and derives the marker path by
//! which a directory counts as a git repository.

use vstd::prelude::*;

verus! {

/// Repository configuration for cloning.
#[derive(Debug, Clone)]
pub struct RepoConfig {
    /// The URL to clone from.
    pub url: String,
    /// The directory to clone into.
    pub target_path: String,
    /// A short human name for messages.
    pub name: String,
}

/// Returns the path whose existence marks `repo_path` as a git repository.
pub fn git_marker_path(repo_path: &str) -> (r: String)
    ensures
        r@ == repo_path@ + "/.git"@,
{
    let mut r = String::from_str(repo_path);
    r.append("/.git");
    r
}

} // verus!
