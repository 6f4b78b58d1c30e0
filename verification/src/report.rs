//! The words in which a refusal is reported to the user.

use vstd::prelude::*;
use vstd::string::StringExecFns;
use crate::config::{LineError, ParseError};
use crate::number::{decimal_digits, decimal_text};

verus! {

/// `before`, then `after`.
fn followed(before: &str, after: &str) -> (r: String)
    ensures
        r@ == before@ + after@,
{
    let mut r = String::from_str(before);
    r.append(after);
    r
}

/// `before`, then `middle`, then `after`.
fn framed(before: &str, middle: &str, after: &str) -> (r: String)
    ensures
        r@ == before@ + middle@ + after@,
{
    let mut r = String::from_str(before);
    r.append(middle);
    r.append(after);
    r
}

impl LineError {
    /// Whether `text` reports this refusal. Of `ExpectedInt` the end of the
    /// text is what the standard library shows of the failure.
    pub open spec fn reported_as(self, text: Seq<char>) -> bool {
        match self {
            LineError::Malformed => text
                == "Line must be an option, followed by an equals sign, followed by a value."@,
            LineError::UnknownOption(got) => text == "Unknown option `"@ + got@ + "`"@,
            LineError::UnknownModifier(got) => text == "Unknown modifier `"@ + got@ + "`"@,
            LineError::UnknownKey(got) => text == "Unknown key `"@ + got@ + "`"@,
            LineError::ExpectedBool(got) => text
                == "Expected value to be one of `true` or `false`, got "@ + got@,
            LineError::ExpectedInt(e) => exists|detail: String|
                vstd::string::to_string_from_display_ensures::<std::num::ParseIntError>(&e, detail)
                    && text == #[trigger] expected_int_text(detail@),
            LineError::ModifierWithNoKey => text
                == "It doesn't make sense to have an empty key (None) with any modifiers, or other tokens"@,
        }
    }

    /// The refusal in words.
    pub fn message(&self) -> (r: String)
        ensures
            self.reported_as(r@),
    {
        match self {
            LineError::Malformed => String::from_str(
                "Line must be an option, followed by an equals sign, followed by a value.",
            ),
            LineError::UnknownOption(got) => framed("Unknown option `", got.as_str(), "`"),
            LineError::UnknownModifier(got) => framed("Unknown modifier `", got.as_str(), "`"),
            LineError::UnknownKey(got) => framed("Unknown key `", got.as_str(), "`"),
            LineError::ExpectedBool(got) => followed(
                "Expected value to be one of `true` or `false`, got ",
                got.as_str(),
            ),
            LineError::ExpectedInt(e) => {
                let bound = decimal_text(usize::MAX as u128);
                let detail = e.to_string();
                let mut r = framed(
                    "Expected value to be a positive integer less than or equal to ",
                    bound.as_str(),
                    ", but failed to parse: ",
                );
                r.append(detail.as_str());
                assert(r@ == expected_int_text(detail@));
                r
            },
            LineError::ModifierWithNoKey => String::from_str(
                "It doesn't make sense to have an empty key (None) with any modifiers, or other tokens",
            ),
        }
    }
}

/// The report of a value that is no number, ending in `detail`.
pub open spec fn expected_int_text(detail: Seq<char>) -> Seq<char> {
    "Expected value to be a positive integer less than or equal to "@ + decimal_digits(
        usize::MAX as nat,
    ) + ", but failed to parse: "@ + detail
}

/// The report of a failure to read, ending in `detail`.
pub open spec fn io_report(detail: Seq<char>) -> Seq<char> {
    "I/O Error: "@ + detail
}

/// The report of the refusal `inner` of the line with the index `index`:
/// the line's number counts from one.
pub open spec fn line_report(index: nat, inner: Seq<char>) -> Seq<char> {
    "Error at line "@ + decimal_digits(index + 1) + ": "@ + inner
}

impl ParseError {
    /// Whether `text` reports this error. Of `Io` the end of the text is
    /// what the standard library shows of the failure.
    pub open spec fn reported_as(self, text: Seq<char>) -> bool {
        match self {
            ParseError::Io(e) => exists|detail: String|
                vstd::string::to_string_from_display_ensures::<std::io::Error>(&e, detail) && text
                    == #[trigger] io_report(detail@),
            ParseError::Line(e, index) => exists|inner: Seq<char>|
                e.reported_as(inner) && text == #[trigger] line_report(index as nat, inner),
        }
    }

    /// The error in words, with the number of the line, counted from one.
    pub fn message(&self) -> (r: String)
        ensures
            self.reported_as(r@),
    {
        match self {
            ParseError::Io(e) => {
                let detail = e.to_string();
                let r = followed("I/O Error: ", detail.as_str());
                assert(r@ == io_report(detail@));
                r
            },
            ParseError::Line(e, index) => {
                let number = decimal_text(*index as u128 + 1);
                let inner = e.message();
                let mut r = framed("Error at line ", number.as_str(), ": ");
                r.append(inner.as_str());
                assert(r@ == line_report(*index as nat, inner@));
                r
            },
        }
    }
}

} // verus!
