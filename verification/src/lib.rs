//! Deleting and moving files on Windows: what to ask of the file system, when
//! to try again, when to give up, and what to report.
//!
//! Nothing here touches the disk. An operation that alternates between the file
//! system and a decision is a value that names its next request and is resumed
//! with the reply; the program around the library performs the requests.

pub mod attributes;
pub mod batch;
pub mod cli;
pub mod config;
pub mod copy;
pub mod delete;
pub mod fault;
pub mod link;
pub mod path;
pub mod platform;
pub mod removal;
pub mod rename;
pub mod repair;
pub mod run;
pub mod symlink;
pub mod text;
pub mod transfer;
pub mod walk;
