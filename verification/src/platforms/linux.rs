//! Markers on Linux: extended attributes in the `user` namespace.

use crate::platforms::store::{
    add_outcome,
    check_outcome,
    marker_value,
    remove_outcome,
    xattr_get,
    xattr_remove,
    xattr_set,
};
use crate::traits::{AttributeError, PlatformHandler};
use vstd::prelude::*;

verus! {

/// The handler for Linux.
#[derive(Debug, Clone, Copy, PartialEq, Eq, Structural)]
pub struct LinuxHandler;

impl PlatformHandler for LinuxHandler {
    open spec fn target_attributes(&self) -> Seq<Seq<char>> {
        seq!["user.com.dropbox.ignored"@, "user.com.apple.fileprovider.ignore#P"@]
    }

    open spec fn name(&self) -> Seq<char> {
        "Linux"@
    }

    open spec fn supported(&self) -> bool {
        true
    }

    /// An attribute without a name is set on no path.
    open spec fn settled_check(&self, path: Seq<char>, attr: Seq<char>) -> Option<bool> {
        if attr.len() == 0 {
            Some(false)
        } else {
            None
        }
    }

    fn get_target_attributes(&self) -> (attrs: Vec<&'static str>) {
        let mut attrs: Vec<&'static str> = Vec::new();
        attrs.push("user.com.dropbox.ignored");
        attrs.push("user.com.apple.fileprovider.ignore#P");
        attrs
    }

    /// An attribute without a name is set on no path. For any other the
    /// system is asked, and only a failure that is not benign is an error.
    fn has_attribute(&self, path: &str, attr: &str) -> (r: Result<bool, AttributeError>)
        ensures
            attr@.len() == 0 ==> r == Ok::<bool, AttributeError>(false),
            r matches Err(AttributeError::CheckFailed { attr: _, kind }) ==> (kind is InvalidInput
                || kind is Other),
    {
        if attr.unicode_len() == 0 {
            return Ok(false);
        }
        check_outcome(xattr_get(path, attr), attr)
    }

    /// Sets the attribute to the marker value. Only a failure that is not
    /// benign is an error.
    fn add_attribute(&self, path: &str, attr: &str) -> (r: Result<(), AttributeError>)
        ensures
            r matches Err(e) ==> (e matches AttributeError::AddFailed { attr: _, path: _, kind }
                && (kind is InvalidInput || kind is Other)),
    {
        let value = marker_value();
        add_outcome(xattr_set(path, attr, &value), path, attr)
    }

    /// Removes the attribute. Only a failure that is not benign is an
    /// error.
    fn remove_attribute(&self, path: &str, attr: &str) -> (r: Result<(), AttributeError>)
        ensures
            r matches Err(e) ==> (e matches AttributeError::RemoveFailed { attr: _, path: _, kind }
                && (kind is InvalidInput || kind is Other)),
    {
        remove_outcome(xattr_remove(path, attr), path, attr)
    }

    fn platform_name(&self) -> (n: &'static str) {
        "Linux"
    }

    fn is_supported(&self) -> (b: bool) {
        true
    }
}

} // verus!
