//! The tool's persisted configuration. Reading and writing the configuration
//! file is outside work; the library carries the value itself.

use vstd::prelude::*;

verus! {

/// Which manager installs language runtimes.
#[derive(Debug, Clone, Copy, PartialEq, Eq, Structural)]
pub enum LanguageManager {
    Asdf,
    Mise,
    Rtx,
    /// No language manager is used.
    NoManager,
}

/// Which strategy creates the symlinks.
#[derive(Debug, Clone, Copy, PartialEq, Eq, Structural)]
pub enum SymlinkMethod {
    Stow,
    Manual,
}

/// The tool's configuration.
#[derive(Debug, Clone)]
pub struct Config {
    /// Where the dotfiles repository lives.
    pub dotfiles_dir: String,
    /// The XDG configuration directory.
    pub xdg_config_home: String,
    /// Which manager installs language runtimes.
    pub language_manager: LanguageManager,
    /// Which strategy creates the symlinks.
    pub symlink_method: SymlinkMethod,
    /// Whether the oh-my-zsh framework is installed during setup.
    pub install_oh_my_zsh: bool,
}

} // verus!
