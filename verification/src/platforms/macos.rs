//! Markers on macOS: one of two extended attributes, depending on how the
//! sync client is installed.

use crate::platforms::store::{
    add_outcome,
    check_outcome,
    marker_value,
    remove_outcome,
    xattr_get,
    xattr_remove,
    xattr_set,
};
use crate::text::str_eq;
use crate::traits::{AttributeError, PlatformHandler};
use vstd::prelude::*;

verus! {

/// The handler for macOS. The sync client reads `com.dropbox.ignored`
/// unless it runs on the File Provider interface, where it reads
/// `com.apple.fileprovider.ignore#P`; which of the two holds is found out
/// once, by the caller, and kept here.
#[derive(Debug, Clone, Copy, PartialEq, Eq, Structural)]
pub struct MacOSHandler {
    /// Whether the sync client runs on the File Provider interface.
    pub file_provider: bool,
}

/// The folders whose presence shows that the sync client runs on the File
/// Provider interface, for a user whose home directory is `home`.
pub open spec fn provider_folders(home: Seq<char>) -> Seq<Seq<char>> {
    seq![
        home + "/Library/CloudStorage"@ + "/Dropbox"@,
        home + "/Library/CloudStorage"@ + "/Dropbox (Personal)"@,
        home + "/Library/CloudStorage"@ + "/Dropbox (Business)"@,
    ]
}

impl MacOSHandler {
    /// A handler for a system on which the sync client does
    /// (`file_provider`) or does not run on the File Provider interface.
    pub fn new(file_provider: bool) -> (h: MacOSHandler)
        ensures
            h.file_provider == file_provider,
    {
        MacOSHandler { file_provider }
    }

    /// The folders to look for under `home`: the sync client runs on the
    /// File Provider interface where one of them exists.
    pub fn file_provider_folders(home: &str) -> (folders: Vec<String>)
        ensures
            folders@.len() == 3,
            forall|i: int| 0 <= i < 3 ==> folders@[i]@ == provider_folders(home@)[i],
    {
        let base = home.to_owned().concat("/Library/CloudStorage");
        let mut folders: Vec<String> = Vec::new();
        folders.push(base.clone().concat("/Dropbox"));
        folders.push(base.clone().concat("/Dropbox (Personal)"));
        folders.push(base.concat("/Dropbox (Business)"));
        folders
    }

    /// Whether `attr` is the attribute that the sync client reads on this
    /// system.
    pub open spec fn applies(&self, attr: Seq<char>) -> bool {
        if self.file_provider {
            attr == "com.apple.fileprovider.ignore#P"@
        } else {
            attr == "com.dropbox.ignored"@
        }
    }

    /// Whether `attr` is the attribute that the sync client reads on this
    /// system.
    pub fn is_applicable(&self, attr: &str) -> (r: bool)
        ensures
            r == self.applies(attr@),
    {
        if self.file_provider {
            str_eq(attr, "com.apple.fileprovider.ignore#P")
        } else {
            str_eq(attr, "com.dropbox.ignored")
        }
    }
}

impl PlatformHandler for MacOSHandler {
    open spec fn target_attributes(&self) -> Seq<Seq<char>> {
        seq!["com.dropbox.ignored"@, "com.apple.fileprovider.ignore#P"@]
    }

    open spec fn name(&self) -> Seq<char> {
        "macOS"@
    }

    open spec fn supported(&self) -> bool {
        true
    }

    /// An attribute that the sync client does not read here counts as not
    /// set.
    open spec fn settled_check(&self, path: Seq<char>, attr: Seq<char>) -> Option<bool> {
        if self.applies(attr) {
            None
        } else {
            Some(false)
        }
    }

    /// An attribute that the sync client does not read here is not set,
    /// and that is no failure.
    open spec fn settled_add(&self, path: Seq<char>, attr: Seq<char>) -> Option<bool> {
        if self.applies(attr) {
            None
        } else {
            Some(true)
        }
    }

    /// An attribute that the sync client does not read here is left
    /// alone, and that is no failure.
    open spec fn settled_remove(&self, path: Seq<char>, attr: Seq<char>) -> Option<bool> {
        if self.applies(attr) {
            None
        } else {
            Some(true)
        }
    }

    fn get_target_attributes(&self) -> (attrs: Vec<&'static str>) {
        let mut attrs: Vec<&'static str> = Vec::new();
        attrs.push("com.dropbox.ignored");
        attrs.push("com.apple.fileprovider.ignore#P");
        attrs
    }

    /// An attribute that the sync client does not read here counts as not
    /// set, whatever the file system holds. For the one that it reads the
    /// system is asked, and only a failure that is not benign is an error.
    fn has_attribute(&self, path: &str, attr: &str) -> (r: Result<bool, AttributeError>)
        ensures
            !self.applies(attr@) ==> r == Ok::<bool, AttributeError>(false),
            r matches Err(AttributeError::CheckFailed { attr: _, kind }) ==> (kind is InvalidInput
                || kind is Other),
    {
        if !self.is_applicable(attr) {
            return Ok(false);
        }
        check_outcome(xattr_get(path, attr), attr)
    }

    /// An attribute that the sync client does not read here is not set,
    /// and that is no failure.
    fn add_attribute(&self, path: &str, attr: &str) -> (r: Result<(), AttributeError>)
        ensures
            !self.applies(attr@) ==> r == Ok::<(), AttributeError>(()),
            r matches Err(e) ==> (e matches AttributeError::AddFailed { attr: _, path: _, kind }
                && (kind is InvalidInput || kind is Other)),
    {
        if !self.is_applicable(attr) {
            return Ok(());
        }
        let value = marker_value();
        add_outcome(xattr_set(path, attr, &value), path, attr)
    }

    /// An attribute that the sync client does not read here is left
    /// alone, and that is no failure.
    fn remove_attribute(&self, path: &str, attr: &str) -> (r: Result<(), AttributeError>)
        ensures
            !self.applies(attr@) ==> r == Ok::<(), AttributeError>(()),
            r matches Err(e) ==> (e matches AttributeError::RemoveFailed { attr: _, path: _, kind }
                && (kind is InvalidInput || kind is Other)),
    {
        if !self.is_applicable(attr) {
            return Ok(());
        }
        remove_outcome(xattr_remove(path, attr), path, attr)
    }

    fn platform_name(&self) -> (n: &'static str) {
        "macOS"
    }

    fn is_supported(&self) -> (b: bool) {
        true
    }
}

} // verus!
