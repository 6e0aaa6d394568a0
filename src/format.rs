use vstd::prelude::*;
use crate::engine::TranscodeError;

verus! {

/// The serialization formats that the engine can read and write.
#[derive(Debug, Clone, Copy, PartialEq, Eq, Structural)]
pub enum Format {
    Json,
    Ron,
}

/// The upper-case form of a string, as std's Unicode case mapping gives it.
pub uninterp spec fn upper_of(s: Seq<char>) -> Seq<char>;

/// Relies on `str::to_uppercase`: the upper-case mapping of the characters,
/// which depends on them alone.
#[verifier::external_body]
fn to_upper(s: &str) -> (r: String)
    ensures
        r@ == upper_of(s@),
{
    s.to_uppercase()
}

/// The format that an upper-case name stands for.
pub open spec fn format_named(upper: Seq<char>) -> Option<Format> {
    if upper == "JSON"@ {
        Option::Some(Format::Json)
    } else if upper == "RON"@ {
        Option::Some(Format::Ron)
    } else {
        Option::None
    }
}

/// The format that a name stands for, ignoring case.
pub open spec fn format_of_name(name: Seq<char>) -> Option<Format> {
    format_named(upper_of(name))
}

/// Looks up a name that is already in upper case.
pub fn format_of_upper(upper: &str) -> (r: Option<Format>)
    ensures
        r == format_named(upper@),
{
    let name = upper.to_owned();
    let json = "JSON".to_owned();
    let ron = "RON".to_owned();
    if name == json {
        Option::Some(Format::Json)
    } else if name == ron {
        Option::Some(Format::Ron)
    } else {
        Option::None
    }
}

/// Looks up a format by name, ignoring case.
pub fn parse_format(name: &str) -> (r: Option<Format>)
    ensures
        r == format_of_name(name@),
{
    let upper = to_upper(name);
    format_of_upper(upper.as_str())
}

/// Resolves the input and output format names, ignoring case. Either name
/// outside the supported set gives `UnsupportedFormat`.
pub fn select_formats(input: &str, output: &str) -> (r: Result<(Format, Format), TranscodeError>)
    ensures
        match (format_of_name(input@), format_of_name(output@)) {
            (Option::Some(i), Option::Some(o)) => r == Ok::<(Format, Format), TranscodeError>((i, o)),
            _ => r == Err::<(Format, Format), TranscodeError>(TranscodeError::UnsupportedFormat),
        },
{
    match (parse_format(input), parse_format(output)) {
        (Option::Some(i), Option::Some(o)) => Ok((i, o)),
        _ => Err(TranscodeError::UnsupportedFormat),
    }
}

} // verus!
