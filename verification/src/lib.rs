//! Running one command line in every crate below a root directory.
//!
//! The library holds the decisions of such a run. [`resolver`] says which
//! directories are visited and in which order: the members that the
//! workspace manifest declares, or else the crates that a scan of the root
//! found. [`command`] binds the command line to one directory. [`dispatch`]
//! works through the directories and keeps what each left behind, and
//! [`aggregate`] gives the exit code of the whole run.
//!
//! Reading the file system and starting processes is left to the caller,
//! who reports what it found as plain values.

pub mod aggregate;
pub mod command;
pub mod dispatch;
pub mod distinct;
pub mod error;
pub mod manifest;
pub mod order;
pub mod paths;
pub mod report;
pub mod resolver;
pub mod scan;
pub mod status;
