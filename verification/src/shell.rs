//! Shell integration decisions: whether a script is already sourced in a
//! shell configuration text, and the source line that is appended when it is
//! not. Reading and writing the configuration file is outside work.

use vstd::prelude::*;

use crate::textfmt::{contains_seq, contains_str};

verus! {

/// The shell text sources the script: it holds `source <path>` or
/// `. <path>`.
pub open spec fn spec_is_script_sourced(content: Seq<char>, script_path: Seq<char>) -> bool {
    contains_seq(content, "source "@ + script_path) || contains_seq(content, ". "@ + script_path)
}

/// Checks if a script is already sourced in the given shell configuration
/// text.
pub fn is_script_sourced(content: &str, script_path: &str) -> (r: bool)
    ensures
        r == spec_is_script_sourced(content@, script_path@),
{
    let mut n1 = String::from_str("source ");
    n1.append(script_path);
    let mut n2 = String::from_str(". ");
    n2.append(script_path);
    contains_str(content, n1.as_str()) || contains_str(content, n2.as_str())
}

/// Returns the block appended to a shell configuration file to source the
/// script: a comment naming the script, then the `source` line.
pub fn source_line(script_name: &str, script_path: &str) -> (r: String)
    ensures
        r@ == "\n# Source "@ + script_name@ + " (added by dotfiles-tool)\nsource "@ + script_path@
            + "\n"@,
{
    let mut s = String::from_str("\n# Source ");
    s.append(script_name);
    s.append(" (added by dotfiles-tool)\nsource ");
    s.append(script_path);
    s.append("\n");
    s
}

} // verus!
