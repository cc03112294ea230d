//! Keeps sync-client ignore markers on files consistent with a declared
//! set of paths, version-control ignore rules or glob patterns.

pub mod command;
pub mod engine;
pub mod lists;
pub mod platforms;
pub mod text;
pub mod traits;
pub mod utils;

pub use crate::command::{is_glob_pattern, Action, Config};
pub use crate::engine::status;
pub use crate::engine::status::show_status;
pub use crate::engine::tracked_files;
