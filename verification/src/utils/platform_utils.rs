//! Marker attributes on one path: whether any is set, setting all of
//! them, removing all of them.

use crate::traits::{AttributeError, FailureKind, PlatformHandler};
use vstd::prelude::*;

verus! {

/// Whether an error came of an operation on one of `attrs`, or says that
/// the platform cannot do the operation.
pub open spec fn error_among(e: AttributeError, attrs: Seq<Seq<char>>) -> bool {
    match e {
        AttributeError::CheckFailed { attr, kind } => attrs.contains(attr@),
        AttributeError::AddFailed { attr, path, kind } => attrs.contains(attr@),
        AttributeError::RemoveFailed { attr, path, kind } => attrs.contains(attr@),
        AttributeError::NotSupported => true,
    }
}

/// Whether `path` carries any of the attributes `attrs` from the `i`-th
/// on, where the handler's answers are settled: the attributes are asked
/// for in their order, up to the first that is set. `None` where an answer
/// that is needed is the system's to give.
pub open spec fn settled_any<P: PlatformHandler>(
    h: P,
    path: Seq<char>,
    attrs: Seq<Seq<char>>,
    i: int,
) -> Option<bool>
    decreases attrs.len() - i,
{
    if i < 0 || i >= attrs.len() {
        Some(false)
    } else {
        match h.settled_check(path, attrs[i]) {
            Some(true) => Some(true),
            Some(false) => settled_any(h, path, attrs, i + 1),
            None => None,
        }
    }
}

/// What comes of setting the attributes `attrs` from the `i`-th on, with
/// `count` set so far, where the handler's answers are settled: the count
/// of the attributes set, or nothing where one of them fails. With
/// `skip_existing` an attribute that is set already is passed over. `None`
/// where an answer that is needed is the system's to give.
pub open spec fn settled_addition<P: PlatformHandler>(
    h: P,
    path: Seq<char>,
    attrs: Seq<Seq<char>>,
    skip_existing: bool,
    i: int,
    count: nat,
) -> Option<Option<nat>>
    decreases attrs.len() - i,
{
    if i < 0 || i >= attrs.len() {
        Some(Some(count))
    } else {
        let present = if skip_existing {
            h.settled_check(path, attrs[i])
        } else {
            Some(false)
        };
        match present {
            None => None,
            Some(true) => settled_addition(h, path, attrs, skip_existing, i + 1, count),
            Some(false) => match h.settled_add(path, attrs[i]) {
                None => None,
                Some(false) => Some(None),
                Some(true) => settled_addition(h, path, attrs, skip_existing, i + 1, count + 1),
            },
        }
    }
}

/// What comes of removing the attributes `attrs` from the `i`-th on, with
/// `count` removed so far, where the handler's answers are settled: the
/// count of the attributes that were set and are removed, or nothing where
/// a removal fails. `None` where an answer that is needed is the system's
/// to give.
pub open spec fn settled_removal<P: PlatformHandler>(
    h: P,
    path: Seq<char>,
    attrs: Seq<Seq<char>>,
    i: int,
    count: nat,
) -> Option<Option<nat>>
    decreases attrs.len() - i,
{
    if i < 0 || i >= attrs.len() {
        Some(Some(count))
    } else {
        match h.settled_check(path, attrs[i]) {
            None => None,
            Some(false) => settled_removal(h, path, attrs, i + 1, count),
            Some(true) => match h.settled_remove(path, attrs[i]) {
                None => None,
                Some(false) => Some(None),
                Some(true) => settled_removal(h, path, attrs, i + 1, count + 1),
            },
        }
    }
}

/// Whether `r` is the result that stands for the settled tally `t`: the
/// count, or the failure `NotSupported`.
pub open spec fn is_tally(r: Result<usize, AttributeError>, t: Option<nat>) -> bool {
    match t {
        Some(n) => r matches Ok(m) && m == n,
        None => r == Err::<usize, AttributeError>(AttributeError::NotSupported),
    }
}

/// Whether a look-up says that the attribute is set. A look-up that
/// failed counts as one that found nothing.
pub fn counts_as_set(answer: Result<bool, AttributeError>) -> (r: bool)
    ensures
        r == (answer == Ok::<bool, AttributeError>(true)),
{
    match answer {
        Ok(set) => set,
        Err(_) => false,
    }
}

/// Whether an attribute is to be changed, going by the look-up made
/// before: it is where the look-up found it set, for `when_set`, or not
/// set. A look-up that failed ends the work with its error.
pub fn to_change(answer: Result<bool, AttributeError>, when_set: bool) -> (r: Result<
    bool,
    AttributeError,
>)
    ensures
        answer matches Ok(set) ==> r == Ok::<bool, AttributeError>(set == when_set),
        answer matches Err(e) ==> r == Err::<bool, AttributeError>(e),
{
    match answer {
        Ok(set) => Ok(set == when_set),
        Err(e) => Err(e),
    }
}

/// The count after one attribute was to be changed: one more where the
/// change was made. A change that failed ends the work with its error.
pub fn counted_change(count: usize, done: Result<(), AttributeError>) -> (r: Result<
    usize,
    AttributeError,
>)
    requires
        count < usize::MAX,
    ensures
        done is Ok ==> r == Ok::<usize, AttributeError>((count + 1) as usize),
        done matches Err(e) ==> r == Err::<usize, AttributeError>(e),
{
    match done {
        Ok(()) => Ok(count + 1),
        Err(e) => Err(e),
    }
}

/// The count after one attribute was looked up without being changed: one
/// more where the look-up found it set, for `wanted`, or not set. A
/// look-up that failed ends the work with its error.
pub fn counted_answer(count: usize, answer: Result<bool, AttributeError>, wanted: bool) -> (r:
    Result<usize, AttributeError>)
    requires
        count < usize::MAX,
    ensures
        answer matches Ok(set) ==> r == Ok::<usize, AttributeError>(
            if set == wanted {
                (count + 1) as usize
            } else {
                count
            },
        ),
        answer matches Err(e) ==> r == Err::<usize, AttributeError>(e),
{
    match answer {
        Ok(set) => if set == wanted {
            Ok(count + 1)
        } else {
            Ok(count)
        },
        Err(e) => Err(e),
    }
}

/// Whether `path` carries any of the platform's marker attributes. An
/// attribute whose look-up fails counts as not set. The attributes are
/// asked for in the platform's order, up to the first that is set; on a
/// platform without marker attributes the answer is `false`. Where the
/// handler's answers are settled, the result is what follows from them.
pub fn has_any_ignore_attribute<P: PlatformHandler>(platform: &P, path: &str) -> (r: bool)
    ensures
        platform.target_attributes().len() == 0 ==> !r,
        settled_any(*platform, path@, platform.target_attributes(), 0) matches Some(b) ==> r
            == b,
{
    let attrs = platform.get_target_attributes();
    let ghost names = platform.target_attributes();
    let ghost all = settled_any(*platform, path@, names, 0);
    let mut i: usize = 0;
    while i < attrs.len()
        invariant
            i <= attrs.len(),
            names == platform.target_attributes(),
            attrs@.len() == names.len(),
            forall|k: int| 0 <= k < attrs@.len() ==> attrs@[k]@ == names[k],
            all == settled_any(*platform, path@, names, 0),
            all is Some ==> all == settled_any(*platform, path@, names, i as int),
        decreases attrs.len() - i,
    {
        assert(names[i as int] == attrs@[i as int]@);
        if counts_as_set(platform.has_attribute(path, attrs[i])) {
            return true;
        }
        i += 1;
    }
    false
}

/// Sets the platform's marker attributes on `path`, in the platform's
/// order, and returns how many were set. With `skip_existing`, an attribute
/// that is found set is left alone and not counted; without it every
/// attribute is set, so the count is their number. The first look-up or
/// setting that fails ends the work with its error.
pub fn add_ignore_attributes<P: PlatformHandler>(
    platform: &P,
    path: &str,
    skip_existing: bool,
) -> (r: Result<usize, AttributeError>)
    ensures
        r matches Ok(n) ==> n <= platform.target_attributes().len(),
        r matches Ok(n) ==> (!skip_existing ==> n == platform.target_attributes().len()),
        r matches Err(e) ==> error_among(e, platform.target_attributes()),
        r matches Err(e) ==> platform.target_attributes().len() > 0 && ((e is CheckFailed
            && skip_existing) || e is AddFailed || e is NotSupported),
        settled_addition(
            *platform,
            path@,
            platform.target_attributes(),
            skip_existing,
            0,
            0,
        ) matches Some(t) ==> is_tally(r, t),
{
    let attrs = platform.get_target_attributes();
    let ghost names = platform.target_attributes();
    let ghost all = settled_addition(*platform, path@, names, skip_existing, 0, 0);
    let mut count: usize = 0;
    let mut i: usize = 0;
    while i < attrs.len()
        invariant
            i <= attrs.len(),
            count <= i,
            !skip_existing ==> count == i,
            names == platform.target_attributes(),
            attrs@.len() == platform.target_attributes().len(),
            forall|k: int| 0 <= k < attrs@.len() ==> attrs@[k]@ == platform.target_attributes()[k],
            all == settled_addition(*platform, path@, names, skip_existing, 0, 0),
            all is Some ==> all == settled_addition(
                *platform,
                path@,
                names,
                skip_existing,
                i as int,
                count as nat,
            ),
        decreases attrs.len() - i,
    {
        assert(names[i as int] == attrs@[i as int]@);
        let change = if skip_existing {
            match to_change(platform.has_attribute(path, attrs[i]), false) {
                Ok(change) => change,
                Err(e) => {
                    return Err(e);
                },
            }
        } else {
            true
        };
        if change {
            match counted_change(count, platform.add_attribute(path, attrs[i])) {
                Ok(n) => {
                    count = n;
                },
                Err(e) => {
                    return Err(e);
                },
            }
        }
        i += 1;
    }
    Ok(count)
}

/// Takes the platform's marker attributes off `path`, in the platform's
/// order, and returns how many were removed: those that were found set.
/// The first look-up or removal that fails ends the work with its error.
pub fn remove_ignore_attributes<P: PlatformHandler>(platform: &P, path: &str) -> (r: Result<
    usize,
    AttributeError,
>)
    ensures
        r matches Ok(n) ==> n <= platform.target_attributes().len(),
        r matches Err(e) ==> error_among(e, platform.target_attributes()),
        r matches Err(e) ==> platform.target_attributes().len() > 0 && (e is CheckFailed
            || e is RemoveFailed || e is NotSupported),
        settled_removal(*platform, path@, platform.target_attributes(), 0, 0) matches Some(t)
            ==> is_tally(r, t),
{
    let attrs = platform.get_target_attributes();
    let ghost names = platform.target_attributes();
    let ghost all = settled_removal(*platform, path@, names, 0, 0);
    let mut count: usize = 0;
    let mut i: usize = 0;
    while i < attrs.len()
        invariant
            i <= attrs.len(),
            count <= i,
            names == platform.target_attributes(),
            attrs@.len() == platform.target_attributes().len(),
            forall|k: int| 0 <= k < attrs@.len() ==> attrs@[k]@ == platform.target_attributes()[k],
            all == settled_removal(*platform, path@, names, 0, 0),
            all is Some ==> all == settled_removal(
                *platform,
                path@,
                names,
                i as int,
                count as nat,
            ),
        decreases attrs.len() - i,
    {
        assert(names[i as int] == attrs@[i as int]@);
        let change = match to_change(platform.has_attribute(path, attrs[i]), true) {
            Ok(change) => change,
            Err(e) => {
                return Err(e);
            },
        };
        if change {
            match counted_change(count, platform.remove_attribute(path, attrs[i])) {
                Ok(n) => {
                    count = n;
                },
                Err(e) => {
                    return Err(e);
                },
            }
        }
        i += 1;
    }
    Ok(count)
}

/// What a failed look-up of `attr` means: a missing path or attribute is
/// an answer ("not set"), anything else is an error that names `attr`.
pub fn handle_attribute_check_error(kind: FailureKind, attr: &str) -> (r: Result<
    bool,
    AttributeError,
>)
    ensures
        kind is NotFound ==> r == Ok::<bool, AttributeError>(false),
        !(kind is NotFound) ==> (r matches Err(AttributeError::CheckFailed { attr: a, kind: k })
            && a@ == attr@ && k == kind),
{
    match kind {
        FailureKind::NotFound => Ok(false),
        _ => Err(AttributeError::CheckFailed { attr: attr.to_owned(), kind }),
    }
}

/// What a failed removal of `attr` from `path` means: where there was
/// nothing to remove the work is done, anything else is an error that
/// names `attr` and `path`.
pub fn handle_attribute_remove_error(kind: FailureKind, attr: &str, path: &str) -> (r: Result<
    (),
    AttributeError,
>)
    ensures
        kind is NotFound ==> r == Ok::<(), AttributeError>(()),
        !(kind is NotFound) ==> (r matches Err(
            AttributeError::RemoveFailed { attr: a, path: p, kind: k },
        ) && a@ == attr@ && p@ == path@ && k == kind),
{
    match kind {
        FailureKind::NotFound => Ok(()),
        _ => Err(
            AttributeError::RemoveFailed { attr: attr.to_owned(), path: path.to_owned(), kind },
        ),
    }
}

} // verus!
