//! Why the text of a duration was refused.

use vstd::prelude::*;
use vstd::string::StringExecFns;
use vstd::utf8::{decode_utf8, valid_utf8};

verus! {

/// The reason for which a text is no duration, with the text.
#[derive(Debug)]
pub enum DurationParseError {
    /// The text does not have the form of a duration, or an `i64` cannot
    /// count its nanoseconds.
    Invalid { input: String },
    /// A number of the text has no unit.
    MissingUnit { input: String },
    /// A number of the text has a unit that no duration is written with.
    UnknownUnit { input: String, unit: String },
}

/// A `DurationParseError` with its texts as character sequences.
pub enum ParseErrorView {
    Invalid { input: Seq<char> },
    MissingUnit { input: Seq<char> },
    UnknownUnit { input: Seq<char>, unit: Seq<char> },
}

impl View for DurationParseError {
    type V = ParseErrorView;

    open spec fn view(&self) -> ParseErrorView {
        match self {
            DurationParseError::Invalid { input } => ParseErrorView::Invalid { input: input@ },
            DurationParseError::MissingUnit { input } => ParseErrorView::MissingUnit {
                input: input@,
            },
            DurationParseError::UnknownUnit { input, unit } => ParseErrorView::UnknownUnit {
                input: input@,
                unit: unit@,
            },
        }
    }
}

impl ParseErrorView {
    /// The text that was refused.
    pub open spec fn input(self) -> Seq<char> {
        match self {
            ParseErrorView::Invalid { input } => input,
            ParseErrorView::MissingUnit { input } => input,
            ParseErrorView::UnknownUnit { input, .. } => input,
        }
    }

    /// The sentence that reports the error.
    pub open spec fn message(self) -> Seq<char> {
        match self {
            ParseErrorView::Invalid { input } => "invalid duration '"@ + input + "'"@,
            ParseErrorView::MissingUnit { input } => "missing unit in duration '"@ + input + "'"@,
            ParseErrorView::UnknownUnit { input, unit } => "unknown unit '"@ + unit
                + "' in duration '"@ + input + "'"@,
        }
    }
}

/// What `utf8::LossyDecoder` makes of `bytes` when they are fed to it at
/// once and it is then dropped: their characters, with U+FFFD in place of
/// each part that is no UTF-8.
pub uninterp spec fn lossy_utf8(bytes: Seq<u8>) -> Seq<char>;

/// `utf8::LossyDecoder::feed` on a fresh decoder that collects what it is
/// handed: the result is the lossy reading of `bytes`, which for valid
/// UTF-8 is the text that they encode.
#[verifier::external_body]
fn decode_lossy(bytes: &[u8]) -> (text: String)
    ensures
        text@ == lossy_utf8(bytes@),
        valid_utf8(bytes@) ==> text@ == decode_utf8(bytes@),
{
    let mut text = String::new();
    utf8::LossyDecoder::new(|s| text.push_str(s)).feed(bytes);
    text
}

impl DurationParseError {
    /// The text that was refused.
    pub fn input(&self) -> (r: &str)
        ensures
            r@ == self@.input(),
    {
        match self {
            DurationParseError::Invalid { input } => input.as_str(),
            DurationParseError::MissingUnit { input } => input.as_str(),
            DurationParseError::UnknownUnit { input, .. } => input.as_str(),
        }
    }

    /// The error for a text that has not the form of a duration.
    pub fn invalid(input: &str) -> (r: Self)
        ensures
            r@ == (ParseErrorView::Invalid { input: input@ }),
    {
        DurationParseError::Invalid { input: input.to_owned() }
    }

    /// The error for a text in which a number has no unit.
    pub fn missing_unit(input: &str) -> (r: Self)
        ensures
            r@ == (ParseErrorView::MissingUnit { input: input@ }),
    {
        DurationParseError::MissingUnit { input: input.to_owned() }
    }

    /// The error for a text in which `unit` stands where a unit is due. The
    /// unit is reported as text, read lossily.
    pub fn unknown_unit(unit: &[u8], input: &str) -> (r: Self)
        ensures
            r@ == (ParseErrorView::UnknownUnit { input: input@, unit: lossy_utf8(unit@) }),
            valid_utf8(unit@) ==> r@ == (ParseErrorView::UnknownUnit {
                input: input@,
                unit: decode_utf8(unit@),
            }),
    {
        let unit_str = decode_lossy(unit);
        DurationParseError::UnknownUnit { input: input.to_owned(), unit: unit_str }
    }

    /// The sentence that reports the error.
    pub fn to_string(&self) -> (r: String)
        ensures
            r@ == self@.message(),
    {
        match self {
            DurationParseError::Invalid { input } => {
                String::from_str("invalid duration '").concat(input.as_str()).concat("'")
            },
            DurationParseError::MissingUnit { input } => {
                String::from_str("missing unit in duration '").concat(input.as_str()).concat("'")
            },
            DurationParseError::UnknownUnit { input, unit } => {
                String::from_str("unknown unit '").concat(unit.as_str()).concat(
                    "' in duration '",
                ).concat(input.as_str()).concat("'")
            },
        }
    }
}

} // verus!
