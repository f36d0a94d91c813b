//! The decisions of the `wassel` command line: which command runs on which
//! paths, and what building and installing a plugin does to the file tree.

pub mod common;
pub mod plugin;
pub mod stack;
