//! A uniform abstraction for Linux host operations -- filesystem manipulation,
//! process execution, and limited network port forwarding -- whose operations
//! can be carried out locally or tunneled through an SSH session (SFTP for
//! filesystem work, exec channels for processes).
//!
//! This crate holds the verified core: the value types callers build requests
//! from, the translation of those requests into SFTP flags and shell-safe
//! command lines, the event-driven state of a running remote process, and a
//! mathematical model of the filesystem semantics the backends promise.
//! The asynchronous transport itself (SSH channels, SFTP round trips) lives
//! outside this crate.

pub mod bytes;
pub mod command;
pub mod executor;
pub mod filesystem;
pub mod fs_model;
pub mod pairs;
pub mod process;
