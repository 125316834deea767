//! The error type shared by the fallible operations of the library.

use vstd::prelude::*;

verus! {

/// Failure kinds surfaced by the tool. Structural outcomes (a conflicting
/// target entry, a failing health check) are returned as data, never as an
/// error; these variants cover environmental failures only.
#[derive(Debug, Clone)]
pub enum DotfilesError {
    /// An input/output failure, with a description.
    Io(String),
    /// A required executable could not be found.
    ToolNotFound(String),
    /// A symlink target is occupied by conflicting content.
    SymlinkConflict(String),
    /// A configuration value is missing or unusable.
    Config(String),
    /// An installation step failed.
    InstallFailed(String),
    /// An installation step failed (kept distinct for compatibility).
    InstallationFailed(String),
    /// A dependency the operation needs is not installed.
    DependencyMissing(String),
    /// A symlink operation could not be performed.
    SymlinkFailed(String),
    /// A document could not be parsed as TOML.
    Toml(String),
    /// A value could not be serialized as TOML.
    TomlSer(String),
}

impl DotfilesError {
    /// The detail string carried by this error.
    pub open spec fn spec_detail(&self) -> Seq<char> {
        match self {
            DotfilesError::Io(s) => s@,
            DotfilesError::ToolNotFound(s) => s@,
            DotfilesError::SymlinkConflict(s) => s@,
            DotfilesError::Config(s) => s@,
            DotfilesError::InstallFailed(s) => s@,
            DotfilesError::InstallationFailed(s) => s@,
            DotfilesError::DependencyMissing(s) => s@,
            DotfilesError::SymlinkFailed(s) => s@,
            DotfilesError::Toml(s) => s@,
            DotfilesError::TomlSer(s) => s@,
        }
    }

    /// Returns the detail string carried by this error.
    pub fn detail(&self) -> (r: &String)
        ensures
            r@ == self.spec_detail(),
    {
        match self {
            DotfilesError::Io(s) => s,
            DotfilesError::ToolNotFound(s) => s,
            DotfilesError::SymlinkConflict(s) => s,
            DotfilesError::Config(s) => s,
            DotfilesError::InstallFailed(s) => s,
            DotfilesError::InstallationFailed(s) => s,
            DotfilesError::DependencyMissing(s) => s,
            DotfilesError::SymlinkFailed(s) => s,
            DotfilesError::Toml(s) => s,
            DotfilesError::TomlSer(s) => s,
        }
    }
}

/// The result type shared by the fallible operations of the library.
pub type Result<T> = core::result::Result<T, DotfilesError>;

} // verus!
