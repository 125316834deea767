//! The supported language-version managers and the preference order in which
//! one is picked, given which of them the system reports installed.

use vstd::prelude::*;

verus! {

/// Supported version managers.
#[derive(Debug, Clone, Copy, PartialEq, Eq, Structural)]
pub enum VersionManager {
    Asdf,
    Mise,
    Rtx,
}

impl VersionManager {
    /// The command name for this version manager.
    pub open spec fn spec_command(&self) -> Seq<char> {
        match self {
            VersionManager::Asdf => "asdf"@,
            VersionManager::Mise => "mise"@,
            VersionManager::Rtx => "rtx"@,
        }
    }

    /// Returns the command name for this version manager.
    pub fn command(&self) -> (r: &str)
        ensures
            r@ == self.spec_command(),
    {
        match self {
            VersionManager::Asdf => "asdf",
            VersionManager::Mise => "mise",
            VersionManager::Rtx => "rtx",
        }
    }

    /// The display name for this version manager.
    pub open spec fn spec_display_name(&self) -> Seq<char> {
        match self {
            VersionManager::Asdf => "ASDF"@,
            VersionManager::Mise => "mise"@,
            VersionManager::Rtx => "rtx"@,
        }
    }

    /// Returns the display name for this version manager.
    pub fn display_name(&self) -> (r: &str)
        ensures
            r@ == self.spec_display_name(),
    {
        match self {
            VersionManager::Asdf => "ASDF",
            VersionManager::Mise => "mise",
            VersionManager::Rtx => "rtx",
        }
    }

    /// The Homebrew package name for this version manager.
    pub open spec fn spec_homebrew_package(&self) -> Seq<char> {
        match self {
            VersionManager::Asdf => "asdf"@,
            VersionManager::Mise => "mise"@,
            VersionManager::Rtx => "rtx"@,
        }
    }

    /// Returns the Homebrew package name.
    pub fn homebrew_package(&self) -> (r: &str)
        ensures
            r@ == self.spec_homebrew_package(),
    {
        match self {
            VersionManager::Asdf => "asdf",
            VersionManager::Mise => "mise",
            VersionManager::Rtx => "rtx",
        }
    }
}

/// The version manager picked among the installed ones, in order of
/// preference: mise, then asdf, then rtx.
pub open spec fn spec_detect(mise: bool, asdf: bool, rtx: bool) -> Option<VersionManager> {
    if mise {
        Some(VersionManager::Mise)
    } else if asdf {
        Some(VersionManager::Asdf)
    } else if rtx {
        Some(VersionManager::Rtx)
    } else {
        None
    }
}

/// Detects which version manager to use, given which of them the system
/// reports installed, in order of preference: mise, asdf, rtx.
pub fn detect(mise_installed: bool, asdf_installed: bool, rtx_installed: bool) -> (r: Option<
    VersionManager,
>)
    ensures
        r == spec_detect(mise_installed, asdf_installed, rtx_installed),
{
    if mise_installed {
        Some(VersionManager::Mise)
    } else if asdf_installed {
        Some(VersionManager::Asdf)
    } else if rtx_installed {
        Some(VersionManager::Rtx)
    } else {
        None
    }
}

} // verus!
