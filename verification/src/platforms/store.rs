//! The calls into the operating system's extended attributes.

use crate::traits::{benign, is_benign, AttributeError, FailureKind};
use crate::utils::platform_utils::{handle_attribute_check_error, handle_attribute_remove_error};
use vstd::prelude::*;

verus! {

/// Calls `xattr::get`. `Ok(true)` where the attribute `name` is set on
/// `path`, `Ok(false)` where the call reports that it is not, and the kind
/// of the failure otherwise. What comes back depends on the file system at
/// the time of the call, so nothing is claimed of it.
#[verifier::external_body]
pub(crate) fn xattr_get(path: &str, name: &str) -> (r: Result<bool, FailureKind>) {
    match xattr::get(path, name) {
        Ok(value) => Ok(value.is_some()),
        Err(e) => Err(
            match e.kind() {
                std::io::ErrorKind::NotFound => FailureKind::NotFound,
                std::io::ErrorKind::PermissionDenied => FailureKind::PermissionDenied,
                std::io::ErrorKind::Unsupported => FailureKind::Unsupported,
                std::io::ErrorKind::InvalidInput => FailureKind::InvalidInput,
                _ => FailureKind::Other,
            },
        ),
    }
}

/// Calls `xattr::set` to give the attribute `name` on `path` the value
/// `value`. Whether it succeeds depends on the file system, so nothing is
/// claimed of the result.
#[verifier::external_body]
pub(crate) fn xattr_set(path: &str, name: &str, value: &Vec<u8>) -> (r: Result<(), FailureKind>) {
    match xattr::set(path, name, value) {
        Ok(()) => Ok(()),
        Err(e) => Err(
            match e.kind() {
                std::io::ErrorKind::NotFound => FailureKind::NotFound,
                std::io::ErrorKind::PermissionDenied => FailureKind::PermissionDenied,
                std::io::ErrorKind::Unsupported => FailureKind::Unsupported,
                std::io::ErrorKind::InvalidInput => FailureKind::InvalidInput,
                _ => FailureKind::Other,
            },
        ),
    }
}

/// Calls `xattr::remove` to take the attribute `name` off `path`. Whether
/// it succeeds depends on the file system, so nothing is claimed of the
/// result.
#[verifier::external_body]
pub(crate) fn xattr_remove(path: &str, name: &str) -> (r: Result<(), FailureKind>) {
    match xattr::remove(path, name) {
        Ok(()) => Ok(()),
        Err(e) => Err(
            match e.kind() {
                std::io::ErrorKind::NotFound => FailureKind::NotFound,
                std::io::ErrorKind::PermissionDenied => FailureKind::PermissionDenied,
                std::io::ErrorKind::Unsupported => FailureKind::Unsupported,
                std::io::ErrorKind::InvalidInput => FailureKind::InvalidInput,
                _ => FailureKind::Other,
            },
        ),
    }
}

/// The value that a marker attribute is given: the one byte `1`.
pub fn marker_value() -> (v: Vec<u8>)
    ensures
        v@ == seq![0x31u8],
{
    let mut v: Vec<u8> = Vec::new();
    v.push(0x31u8);
    assert(v@ =~= seq![0x31u8]);
    v
}

/// Turns what came of looking for `attr` into a handler's answer: a value
/// found or not found is the answer, a benign failure means "not set", and
/// any other failure is an error.
pub fn check_outcome(outcome: Result<bool, FailureKind>, attr: &str) -> (r: Result<
    bool,
    AttributeError,
>)
    ensures
        outcome matches Ok(found) ==> r == Ok::<bool, AttributeError>(found),
        (outcome matches Err(kind) && benign(kind)) ==> r == Ok::<bool, AttributeError>(false),
        (outcome matches Err(kind) && !benign(kind)) ==> (r matches Err(
            AttributeError::CheckFailed { attr: a, kind: k },
        ) && a@ == attr@ && outcome == Err::<bool, FailureKind>(k)),
{
    match outcome {
        Ok(found) => Ok(found),
        Err(kind) => {
            if is_benign(kind) {
                Ok(false)
            } else {
                handle_attribute_check_error(kind, attr)
            }
        },
    }
}

/// Turns what came of setting `attr` on `path` into a handler's answer:
/// a benign failure leaves nothing to do, any other is an error.
pub fn add_outcome(outcome: Result<(), FailureKind>, path: &str, attr: &str) -> (r: Result<
    (),
    AttributeError,
>)
    ensures
        (outcome is Ok || benign(outcome->Err_0)) ==> r == Ok::<(), AttributeError>(()),
        (outcome matches Err(kind) && !benign(kind)) ==> (r matches Err(
            AttributeError::AddFailed { attr: a, path: p, kind: k },
        ) && a@ == attr@ && p@ == path@ && outcome == Err::<(), FailureKind>(k)),
{
    match outcome {
        Ok(()) => Ok(()),
        Err(kind) => {
            if is_benign(kind) {
                Ok(())
            } else {
                Err(
                    AttributeError::AddFailed { attr: attr.to_owned(), path: path.to_owned(), kind },
                )
            }
        },
    }
}

/// Turns what came of removing `attr` from `path` into a handler's
/// answer: a benign failure leaves nothing to do, any other is an error.
pub fn remove_outcome(outcome: Result<(), FailureKind>, path: &str, attr: &str) -> (r: Result<
    (),
    AttributeError,
>)
    ensures
        (outcome is Ok || benign(outcome->Err_0)) ==> r == Ok::<(), AttributeError>(()),
        (outcome matches Err(kind) && !benign(kind)) ==> (r matches Err(
            AttributeError::RemoveFailed { attr: a, path: p, kind: k },
        ) && a@ == attr@ && p@ == path@ && outcome == Err::<(), FailureKind>(k)),
{
    match outcome {
        Ok(()) => Ok(()),
        Err(kind) => {
            if is_benign(kind) {
                Ok(())
            } else {
                handle_attribute_remove_error(kind, attr, path)
            }
        },
    }
}

} // verus!
