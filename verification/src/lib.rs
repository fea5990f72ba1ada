//! Scheduled backups: the names of archives, retention, the decisions of
//! the scheduler and of a build, and the rules on a configuration, each
//! with a proved contract.
//!
//! Nothing here reads a file, opens a connection or waits. What only the
//! world outside can tell is handed in as plain values, and what is to be
//! done there is handed back.

pub mod archive;
pub mod archive_build;
pub mod arcvec;
pub mod backup_config;
pub mod compress;
pub mod encrypt;
pub mod error;
pub mod file_ext;
pub mod finish;
pub mod notifications;
pub mod redacted;
pub mod retention;
pub mod retention_laws;
pub mod schedule;
pub mod text;
pub mod timestamp;
pub mod validate;
