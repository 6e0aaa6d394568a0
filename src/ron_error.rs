use vstd::prelude::*;
use crate::engine;

verus! {

#[verifier::external_type_specification]
#[verifier::external_body]
pub struct ExRonError(ron::error::Error);

/// Whether ron reports the error as a failure to read or write bytes; it
/// depends on the error alone.
pub uninterp spec fn ron_is_io(e: ron::error::Error) -> bool;

/// Relies on the public `code` field of `ron::error::Error`: whether it is
/// `ErrorCode::Io`.
#[verifier::external_body]
fn ron_error_is_io(e: &ron::error::Error) -> (r: bool)
    ensures
        r == ron_is_io(*e),
{
    matches!(e.code, ron::error::ErrorCode::Io(_))
}

/// The error kind that an I/O flag of a ron error is reported as: a failed
/// read or write is an I/O error, anything else ron raises is a syntax error
/// in the source.
pub open spec fn kind_of_ron_error(is_io: bool) -> engine::TranscodeError {
    if is_io {
        engine::TranscodeError::Io
    } else {
        engine::TranscodeError::SourceSyntax
    }
}

/// The error kind of an error that ron raised.
pub fn ron_error_kind(e: &ron::error::Error) -> (r: engine::TranscodeError)
    ensures
        r == kind_of_ron_error(ron_is_io(*e)),
{
    if ron_error_is_io(e) {
        engine::TranscodeError::Io
    } else {
        engine::TranscodeError::SourceSyntax
    }
}

} // verus!
