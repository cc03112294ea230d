//! The check that a text is a JSON document, made before a state file is
//! trusted and before one is written.

use vstd::prelude::*;

verus! {

/// Whether `serde_json` reads `text` as one JSON value.
pub uninterp spec fn json_well_formed(text: Seq<char>) -> bool;

/// Calls `serde_json::from_str` for a `serde_json::Value` and tells
/// whether it succeeded.
#[verifier::external_body]
fn parses_as_json(text: &str) -> (ok: bool)
    ensures
        ok == json_well_formed(text@),
{
    serde_json::from_str::<serde_json::Value>(text).is_ok()
}

/// Why a state file is not taken as it is.
#[derive(Debug, Clone, Copy, PartialEq, Eq, Structural)]
pub enum JsonError {
    /// The file could not be read.
    Unreadable,
    /// The text is no JSON document.
    InvalidJson,
    /// The document is not of the expected shape.
    SchemaMismatch,
}

/// Whether `contents` is a JSON document. A state file is read in two
/// steps: its text is checked here, and only then turned into a value, so
/// that a file that is no JSON at all is told from one of the wrong shape.
pub fn validate_json_text(contents: &str) -> (r: Result<(), JsonError>)
    ensures
        json_well_formed(contents@) ==> r == Ok::<(), JsonError>(()),
        !json_well_formed(contents@) ==> r == Err::<(), JsonError>(JsonError::InvalidJson),
{
    if parses_as_json(contents) {
        Ok(())
    } else {
        Err(JsonError::InvalidJson)
    }
}

/// What the reading of a state file comes to. `contents` is the text of
/// the file, if it could be read; `fits` tells whether the text, where it
/// is a JSON document, could be turned into a value of the expected type.
pub fn read_outcome(contents: Option<&str>, fits: bool) -> (r: Result<(), JsonError>)
    ensures
        r == match contents {
            None => Err::<(), JsonError>(JsonError::Unreadable),
            Some(text) => if !json_well_formed(text@) {
                Err::<(), JsonError>(JsonError::InvalidJson)
            } else if !fits {
                Err::<(), JsonError>(JsonError::SchemaMismatch)
            } else {
                Ok::<(), JsonError>(())
            },
        },
{
    match contents {
        None => Err(JsonError::Unreadable),
        Some(text) => match validate_json_text(text) {
            Err(e) => Err(e),
            Ok(()) => if fits {
                Ok(())
            } else {
                Err(JsonError::SchemaMismatch)
            },
        },
    }
}

} // verus!
