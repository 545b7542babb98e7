//! Select files under a directory, classify them against a name/extension
//! filter, reconcile the result with a keep list of numeric identifiers, and
//! plan the requested action (copy, move or delete) on the surviving files.
//!
//! The filtering pipeline is: a [`file_source::SelectedFiles`] collection is
//! narrowed by the configuration filter, then by the keep-list filter chosen
//! for the action, and the survivors are turned into a list of planned
//! filesystem operations. All filesystem effects are left to the caller.

use vstd::prelude::*;

pub mod action;
pub mod config;
pub mod executor;
pub mod file_source;
pub mod keepfile;
pub mod paths;
pub mod pattern;

use crate::action::Action;
use crate::config::{ConfigFile, ConfigFileError};
use crate::keepfile::{KeepFile, KeepFileError};

verus! {

/// Selected source directory to seek files from.
///
/// The caller is expected to hand in the canonical path of an existing
/// directory; this crate only carries the path around.
#[derive(Debug, Clone)]
pub struct SelectedDirectory(pub String);

impl SelectedDirectory {
    /// Wrap an already-validated directory path.
    pub fn new(path: String) -> (r: SelectedDirectory)
        ensures
            r.0@ == path@,
    {
        SelectedDirectory(path)
    }

    /// The directory path.
    pub fn as_str(&self) -> (r: &str)
        ensures
            r@ == self.0@,
    {
        self.0.as_str()
    }
}

/// Options for executing the action.
#[derive(Debug, Clone)]
pub struct ExecutionOptions {
    /// Should the action be performed in dry-run mode?
    pub dry_run: bool,
    /// Should detailed information be printed?
    pub verbose: bool,
    /// Should the parsed configuration be printed?
    pub print: bool,
}

/// Parsed configuration.
///
/// This struct contains the data needed to execute one run of the
/// selection pipeline, resolved from the request signals by the caller.
#[derive(Debug)]
pub struct AppConfig {
    /// Directory the run selects files from.
    pub path: SelectedDirectory,
    /// Configuration describing what files to look up under `path`.
    pub config_file: ConfigFile,
    /// A parsed keep file.
    pub keepfile: KeepFile,
    /// Action to perform once the files are filtered.
    pub action: Action,
    /// Additional options.
    pub options: ExecutionOptions,
}

/// An error that occurs when resolving the request signals.
#[derive(Debug)]
pub enum AppConfigError {
    /// An I/O error, carried as its message.
    Io(String),
    /// The configuration could not be loaded.
    Config(ConfigFileError),
    /// The keep file could not be loaded.
    KeepFile(KeepFileError),
}

/// Command line request signals, already parsed and validated by the caller.
///
/// The three action signals (`copy_to`, `move_to`, `delete`) are mutually
/// exclusive at the input-validation layer; action resolution applies a fixed
/// priority order regardless.
#[derive(Debug, Clone)]
pub struct Args {
    /// The directory to search for files.
    pub path: Option<String>,
    /// The file to use as the keep file.
    pub keep: Option<String>,
    /// The configuration file to use.
    pub config: Option<String>,
    /// Move matching files to the specified directory.
    pub move_to: Option<String>,
    /// Copy matching files to the specified directory.
    pub copy_to: Option<String>,
    /// Delete non-matching files.
    pub delete: bool,
    /// Only print what would be done, don't actually do anything.
    pub dry_run: bool,
    /// Print detailed information about what's happening.
    pub verbose: bool,
    /// Print parsed configuration and exit.
    pub print_config: bool,
}

} // verus!
