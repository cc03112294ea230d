//! The rules that the commands and the watcher share.

pub mod git_utils;
pub mod gitignore_manager;
pub mod json_utils;
pub mod pattern_matcher;
pub mod platform_utils;
