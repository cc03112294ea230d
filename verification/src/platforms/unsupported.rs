//! The handler for a platform without marker attributes.

use crate::traits::{AttributeError, PlatformHandler};
use vstd::prelude::*;

verus! {

/// A platform on which nothing can be marked.
#[derive(Debug, Clone, Copy, PartialEq, Eq, Structural)]
pub struct UnsupportedHandler;

impl PlatformHandler for UnsupportedHandler {
    open spec fn target_attributes(&self) -> Seq<Seq<char>> {
        Seq::empty()
    }

    open spec fn name(&self) -> Seq<char> {
        "Unsupported Platform"@
    }

    open spec fn supported(&self) -> bool {
        false
    }

    open spec fn settled_check(&self, path: Seq<char>, attr: Seq<char>) -> Option<bool> {
        Some(false)
    }

    open spec fn settled_add(&self, path: Seq<char>, attr: Seq<char>) -> Option<bool> {
        Some(false)
    }

    open spec fn settled_remove(&self, path: Seq<char>, attr: Seq<char>) -> Option<bool> {
        Some(false)
    }

    fn get_target_attributes(&self) -> (attrs: Vec<&'static str>) {
        Vec::new()
    }

    /// No path carries a marker here.
    fn has_attribute(&self, path: &str, attr: &str) -> (r: Result<bool, AttributeError>)
        ensures
            r == Ok::<bool, AttributeError>(false),
    {
        Ok(false)
    }

    /// Always fails with `NotSupported`.
    fn add_attribute(&self, path: &str, attr: &str) -> (r: Result<(), AttributeError>)
        ensures
            r == Err::<(), AttributeError>(AttributeError::NotSupported),
    {
        Err(AttributeError::NotSupported)
    }

    /// Always fails with `NotSupported`.
    fn remove_attribute(&self, path: &str, attr: &str) -> (r: Result<(), AttributeError>)
        ensures
            r == Err::<(), AttributeError>(AttributeError::NotSupported),
    {
        Err(AttributeError::NotSupported)
    }

    fn platform_name(&self) -> (n: &'static str) {
        "Unsupported Platform"
    }

    fn is_supported(&self) -> (b: bool) {
        false
    }
}

} // verus!
