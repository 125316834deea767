//! A verified core for a dotfiles bootstrap and configuration-management tool.
//!
//! Two components carry the logic: a symlink reconciler, which compares the
//! entries of a source directory against a target directory and decides per
//! entry whether a link can be created, already exists correctly, or
//! conflicts; and a secret scanner, which finds credential-shaped key/value
//! assignments in configuration text. Around them stand the pure decision
//! parts of the tool's health checks, package bookkeeping and backup naming.
//!
//! All filesystem probing, process spawning and terminal interaction live
//! outside this crate; the functions here take the probed state as plain
//! values and return decisions, reports and planned actions.

pub mod backup;
pub mod checks;
pub mod config;
pub mod configs;
pub mod detect;
pub mod error;
pub mod homebrew;
pub mod language;
pub mod migrate;
pub mod packages;
pub mod repos;
pub mod secrets;
pub mod shell;
pub mod symlink;
pub mod textfmt;
pub mod validate;
pub mod version_manager;

pub use config::Config;
pub use config::LanguageManager;
pub use config::SymlinkMethod;
pub use error::DotfilesError;
pub use error::Result;
