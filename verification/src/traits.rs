//! The interface through which the rest of the crate reaches the marker
//! that a sync client reads: an attribute per path, kept by the platform.

use vstd::prelude::*;

verus! {

/// How a call into the platform's attribute store failed, as far as the
/// callers here tell failures apart.
#[derive(Debug, Clone, Copy, PartialEq, Eq, Structural)]
pub enum FailureKind {
    /// The path, or the attribute on it, does not exist.
    NotFound,
    /// The caller may not read or change the attribute.
    PermissionDenied,
    /// The file system or the platform keeps no such attributes.
    Unsupported,
    /// The path or the attribute name is malformed.
    InvalidInput,
    /// Any other failure.
    Other,
}

/// A failed operation on a marker attribute.
#[derive(Debug, Clone, PartialEq, Eq)]
pub enum AttributeError {
    /// Looking for `attr` failed.
    CheckFailed { attr: String, kind: FailureKind },
    /// Setting `attr` on `path` failed.
    AddFailed { attr: String, path: String, kind: FailureKind },
    /// Removing `attr` from `path` failed.
    RemoveFailed { attr: String, path: String, kind: FailureKind },
    /// The platform has no way to do what was asked.
    NotSupported,
}

/// Whether a failure only says that there is nothing to find or to do: the
/// attribute store then answers "absent" instead of failing.
pub open spec fn benign(kind: FailureKind) -> bool {
    kind is NotFound || kind is Unsupported || kind is PermissionDenied
}

/// Whether `kind` is benign.
pub fn is_benign(kind: FailureKind) -> (r: bool)
    ensures
        r == benign(kind),
{
    match kind {
        FailureKind::NotFound | FailureKind::Unsupported | FailureKind::PermissionDenied => true,
        _ => false,
    }
}

/// The outcome of a change that the handler decides without asking the
/// system: success, or the failure `NotSupported`.
pub open spec fn settled_outcome(done: bool) -> Result<(), AttributeError> {
    if done {
        Ok(())
    } else {
        Err(AttributeError::NotSupported)
    }
}

/// A platform's way of marking a path as ignored.
pub trait PlatformHandler {
    /// The names of the attributes that mark a path on this platform.
    spec fn target_attributes(&self) -> Seq<Seq<char>>;

    /// The platform's name.
    spec fn name(&self) -> Seq<char>;

    /// Whether the platform can mark paths at all. It can, unless the
    /// handler says otherwise.
    open spec fn supported(&self) -> bool {
        true
    }

    /// What a look-up of `attr` on `path` answers, where the handler
    /// answers without asking the system: whether the attribute counts as
    /// set. `None` where the system decides.
    open spec fn settled_check(&self, path: Seq<char>, attr: Seq<char>) -> Option<bool> {
        None
    }

    /// What comes of setting `attr` on `path`, where the handler decides
    /// without asking the system: `true` for success, `false` for the
    /// failure `NotSupported`. `None` where the system decides.
    open spec fn settled_add(&self, path: Seq<char>, attr: Seq<char>) -> Option<bool> {
        None
    }

    /// What comes of removing `attr` from `path`, where the handler
    /// decides without asking the system: `true` for success, `false` for
    /// the failure `NotSupported`. `None` where the system decides.
    open spec fn settled_remove(&self, path: Seq<char>, attr: Seq<char>) -> Option<bool> {
        None
    }

    /// The names of the attributes that mark a path on this platform.
    fn get_target_attributes(&self) -> (attrs: Vec<&'static str>)
        ensures
            attrs@.len() == self.target_attributes().len(),
            forall|i: int| 0 <= i < attrs@.len() ==> attrs@[i]@ == self.target_attributes()[i],
    ;

    /// Whether `path` carries the attribute `attr`. Where the answer is
    /// settled it is that answer. A failure is always a `CheckFailed` that
    /// names `attr`.
    fn has_attribute(&self, path: &str, attr: &str) -> (r: Result<bool, AttributeError>)
        ensures
            self.settled_check(path@, attr@) matches Some(b) ==> r == Ok::<bool, AttributeError>(b),
            r matches Err(e) ==> (e matches AttributeError::CheckFailed { attr: a, kind: _ } && a@
                == attr@),
    ;

    /// Marks `path` with the attribute `attr`. Where the outcome is
    /// settled it is that outcome. A failure is `NotSupported` or an
    /// `AddFailed` that names `attr` and `path`.
    fn add_attribute(&self, path: &str, attr: &str) -> (r: Result<(), AttributeError>)
        ensures
            self.settled_add(path@, attr@) matches Some(done) ==> r == settled_outcome(done),
            r matches Err(e) ==> (e is NotSupported || (e matches AttributeError::AddFailed {
                attr: a,
                path: p,
                kind: _,
            } && a@ == attr@ && p@ == path@)),
    ;

    /// Takes the attribute `attr` off `path`. Where the outcome is
    /// settled it is that outcome. A failure is `NotSupported` or a
    /// `RemoveFailed` that names `attr` and `path`.
    fn remove_attribute(&self, path: &str, attr: &str) -> (r: Result<(), AttributeError>)
        ensures
            self.settled_remove(path@, attr@) matches Some(done) ==> r == settled_outcome(done),
            r matches Err(e) ==> (e is NotSupported || (e matches AttributeError::RemoveFailed {
                attr: a,
                path: p,
                kind: _,
            } && a@ == attr@ && p@ == path@)),
    ;

    /// The platform's name, for display.
    fn platform_name(&self) -> (n: &'static str)
        ensures
            n@ == self.name(),
    ;

    /// Whether the platform can mark paths at all.
    fn is_supported(&self) -> (b: bool)
        ensures
            b == self.supported(),
    ;
}

} // verus!
