//! What is remembered between runs, and the watcher that acts on it.

pub mod daemon;
pub mod reconcile;
pub mod resolver;
pub mod status;
pub mod tracked_files;
pub mod watch;
