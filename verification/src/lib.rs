//! Organizes markdown files into a knowledge-base directory tree and keeps a
//! date-partitioned, append-only journal of every relocation.
//!
//! The crate holds the decision logic: collision-free destination naming, the
//! copy-verify-delete move protocol, journal line formatting and the
//! newline-normalizing append payload. Filesystem effects are performed by the
//! surrounding application, which drives the step functions defined here.

pub mod config;
pub mod file_discovery;
pub mod file_operations;
pub mod journal_management;
pub mod lines;
pub mod paths;
pub mod text;
