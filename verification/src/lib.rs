//! cliup keeps a whitelist of developer command line tools (global npm
//! packages, Homebrew formulae and casks, and tools that update themselves)
//! and updates those that are installed, on demand or daily under launchd.
//!
//! This crate holds the decisions: the configuration and its validation,
//! the file layout, the texts written for launchd and into the log, the
//! search path of external commands, and the run itself as a state machine
//! whose caller performs the commands.
pub mod commands;
pub mod config;
pub mod launchd;
pub mod logging;
pub mod paths;
pub mod runner;
pub mod text;
pub mod update;
