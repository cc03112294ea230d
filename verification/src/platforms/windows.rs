//! Markers on Windows: alternate data streams of the marked file.

use crate::platforms::store::{add_outcome, check_outcome, marker_value, remove_outcome};
use crate::traits::{AttributeError, FailureKind, PlatformHandler};
use vstd::prelude::*;

verus! {

/// The handler for Windows where no stream can be reached. A marker is an
/// alternate data stream, which is reached through the file API under the
/// name `stream_path` gives. This crate opens no files, so this handler
/// answers as a system without streams does; `StreamHandler` is the
/// handler for a caller that can open them.
#[derive(Debug, Clone, Copy, PartialEq, Eq, Structural)]
pub struct WindowsHandler;

impl WindowsHandler {
    /// The name under which the stream `attr` of `path` is opened.
    pub fn stream_path(path: &str, attr: &str) -> (r: String)
        ensures
            r@ == path@ + seq![':'] + attr@,
    {
        proof {
            reveal_strlit(":");
            assert(":"@ =~= seq![':']);
        }
        path.to_owned().concat(":").concat(attr)
    }
}

impl PlatformHandler for WindowsHandler {
    open spec fn target_attributes(&self) -> Seq<Seq<char>> {
        seq!["com.dropbox.ignored"@, "com.apple.fileprovider.ignore#P"@]
    }

    open spec fn name(&self) -> Seq<char> {
        "Windows"@
    }

    open spec fn supported(&self) -> bool {
        true
    }

    open spec fn settled_check(&self, path: Seq<char>, attr: Seq<char>) -> Option<bool> {
        Some(false)
    }

    open spec fn settled_add(&self, path: Seq<char>, attr: Seq<char>) -> Option<bool> {
        Some(false)
    }

    open spec fn settled_remove(&self, path: Seq<char>, attr: Seq<char>) -> Option<bool> {
        Some(false)
    }

    fn get_target_attributes(&self) -> (attrs: Vec<&'static str>) {
        let mut attrs: Vec<&'static str> = Vec::new();
        attrs.push("com.dropbox.ignored");
        attrs.push("com.apple.fileprovider.ignore#P");
        attrs
    }

    /// No stream is seen from here.
    fn has_attribute(&self, path: &str, attr: &str) -> (r: Result<bool, AttributeError>)
        ensures
            r == Ok::<bool, AttributeError>(false),
    {
        Ok(false)
    }

    /// No stream can be written from here.
    fn add_attribute(&self, path: &str, attr: &str) -> (r: Result<(), AttributeError>)
        ensures
            r == Err::<(), AttributeError>(AttributeError::NotSupported),
    {
        Err(AttributeError::NotSupported)
    }

    /// No stream can be deleted from here.
    fn remove_attribute(&self, path: &str, attr: &str) -> (r: Result<(), AttributeError>)
        ensures
            r == Err::<(), AttributeError>(AttributeError::NotSupported),
    {
        Err(AttributeError::NotSupported)
    }

    fn platform_name(&self) -> (n: &'static str) {
        "Windows"
    }

    fn is_supported(&self) -> (b: bool) {
        true
    }
}

/// The file operations by which alternate data streams are reached. The
/// caller that can open files supplies them; what they answer is the file
/// system's to say.
pub trait StreamAccess {
    /// Whether there is a stream of this name.
    fn find(&self, stream: &str) -> Result<bool, FailureKind>;

    /// Writes `value` to the stream of this name, which is made where it
    /// is missing.
    fn put(&self, stream: &str, value: &Vec<u8>) -> Result<(), FailureKind>;

    /// Deletes the stream of this name.
    fn delete(&self, stream: &str) -> Result<(), FailureKind>;
}

/// The handler for Windows, on top of the file operations `streams`.
pub struct StreamHandler<S: StreamAccess> {
    /// The file operations.
    pub streams: S,
}

impl<S: StreamAccess> PlatformHandler for StreamHandler<S> {
    open spec fn target_attributes(&self) -> Seq<Seq<char>> {
        seq!["com.dropbox.ignored"@, "com.apple.fileprovider.ignore#P"@]
    }

    open spec fn name(&self) -> Seq<char> {
        "Windows"@
    }

    open spec fn supported(&self) -> bool {
        true
    }

    fn get_target_attributes(&self) -> (attrs: Vec<&'static str>) {
        let mut attrs: Vec<&'static str> = Vec::new();
        attrs.push("com.dropbox.ignored");
        attrs.push("com.apple.fileprovider.ignore#P");
        attrs
    }

    /// Whether the stream `attr` of `path` exists. Only a failure that is
    /// not benign is an error.
    fn has_attribute(&self, path: &str, attr: &str) -> (r: Result<bool, AttributeError>)
        ensures
            r matches Err(AttributeError::CheckFailed { attr: _, kind }) ==> (kind is InvalidInput
                || kind is Other),
    {
        let stream = WindowsHandler::stream_path(path, attr);
        check_outcome(self.streams.find(stream.as_str()), attr)
    }

    /// Writes the marker value to the stream `attr` of `path`. Only a
    /// failure that is not benign is an error.
    fn add_attribute(&self, path: &str, attr: &str) -> (r: Result<(), AttributeError>)
        ensures
            r matches Err(e) ==> (e matches AttributeError::AddFailed { attr: _, path: _, kind }
                && (kind is InvalidInput || kind is Other)),
    {
        let stream = WindowsHandler::stream_path(path, attr);
        let value = marker_value();
        add_outcome(self.streams.put(stream.as_str(), &value), path, attr)
    }

    /// Deletes the stream `attr` of `path`. Only a failure that is not
    /// benign is an error.
    fn remove_attribute(&self, path: &str, attr: &str) -> (r: Result<(), AttributeError>)
        ensures
            r matches Err(e) ==> (e matches AttributeError::RemoveFailed { attr: _, path: _, kind }
                && (kind is InvalidInput || kind is Other)),
    {
        let stream = WindowsHandler::stream_path(path, attr);
        remove_outcome(self.streams.delete(stream.as_str()), path, attr)
    }

    fn platform_name(&self) -> (n: &'static str) {
        "Windows"
    }

    fn is_supported(&self) -> (b: bool) {
        true
    }
}

} // verus!
