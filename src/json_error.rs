use vstd::prelude::*;
use crate::engine;

verus! {

#[verifier::external_type_specification]
#[verifier::external_body]
pub struct ExJsonError(serde_json::Error);

/// The categories that serde_json sorts its errors into.
#[derive(Debug, Clone, Copy, PartialEq, Eq, Structural)]
pub enum JsonErrorCategory {
    /// Reading or writing bytes failed.
    Io,
    /// The input is not syntactically valid JSON.
    Syntax,
    /// The data does not fit what was asked of it.
    Data,
    /// The input ended before a value was complete.
    Eof,
}

/// The category that serde_json's `classify` gives an error; it depends on
/// the error alone.
pub uninterp spec fn category_of(e: serde_json::Error) -> JsonErrorCategory;

/// Relies on `serde_json::Error::classify`: the category that the error
/// falls in.
#[verifier::external_body]
fn json_error_category(e: &serde_json::Error) -> (r: JsonErrorCategory)
    ensures
        r == category_of(*e),
{
    match e.classify() {
        serde_json::error::Category::Io => JsonErrorCategory::Io,
        serde_json::error::Category::Syntax => JsonErrorCategory::Syntax,
        serde_json::error::Category::Data => JsonErrorCategory::Data,
        serde_json::error::Category::Eof => JsonErrorCategory::Eof,
    }
}

/// The error kind that a JSON error category is reported as: malformed or
/// cut-off input is a syntax error, data that cannot be carried over is an
/// unsupported value.
pub open spec fn kind_of_category(c: JsonErrorCategory) -> engine::TranscodeError {
    match c {
        JsonErrorCategory::Io => engine::TranscodeError::Io,
        JsonErrorCategory::Syntax => engine::TranscodeError::SourceSyntax,
        JsonErrorCategory::Eof => engine::TranscodeError::SourceSyntax,
        JsonErrorCategory::Data => engine::TranscodeError::UnsupportedValue,
    }
}

/// The error kind that a JSON error category is reported as.
pub fn category_kind(c: JsonErrorCategory) -> (r: engine::TranscodeError)
    ensures
        r == kind_of_category(c),
{
    match c {
        JsonErrorCategory::Io => engine::TranscodeError::Io,
        JsonErrorCategory::Syntax | JsonErrorCategory::Eof => engine::TranscodeError::SourceSyntax,
        JsonErrorCategory::Data => engine::TranscodeError::UnsupportedValue,
    }
}

/// The error kind of an error that serde_json raised.
pub fn json_error_kind(e: &serde_json::Error) -> (r: engine::TranscodeError)
    ensures
        r == kind_of_category(category_of(*e)),
{
    category_kind(json_error_category(e))
}

} // verus!
