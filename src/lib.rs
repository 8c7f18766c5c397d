//! Filesystem mediation for a document editor: durable saves, directory
//! snapshots for a file browser, and polling watchers for open files.

pub mod entry;
pub mod path;
pub mod order;
pub mod scan;
pub mod watch;
pub mod persist;
pub mod facade;
