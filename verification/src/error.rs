//! The one error type that every fallible operation of this crate reports.

use std::io;
use std::num::ParseIntError;
use std::str::Utf8Error;
use vstd::prelude::*;
use vstd::std_specs::convert::FromSpecImpl;
use vstd::string::to_string_from_display_ensures;
use vstd::string::StringExecFns;

verus! {

/// `std::io::Error`, carried through as an opaque value.
#[verifier::external_type_specification]
#[verifier::external_body]
pub struct ExIoError(io::Error);

/// `std::str::Utf8Error`, carried through as an opaque value.
#[verifier::external_type_specification]
#[verifier::external_body]
pub struct ExUtf8Error(Utf8Error);

/// `std::num::ParseIntError`, carried through as an opaque value.
#[verifier::external_type_specification]
#[verifier::external_body]
pub struct ExParseIntError(ParseIntError);

/// Why an operation on an image failed.
#[derive(Debug)]
pub enum ISOError {
    /// The block reader reported a failure of the underlying transport.
    Io(io::Error),
    /// The bytes of an identifier are not valid UTF-8.
    Utf8(Utf8Error),
    /// The medium breaks a structural rule of the format; the text names the rule.
    InvalidFs(&'static str),
    /// A numeric text field could not be parsed.
    ParseInt(ParseIntError),
    /// A read of `.0` bytes returned `.1` bytes instead.
    ReadSize(usize, usize),
}

/// Whether `text` is what `std` shows for the I/O error `err`.
pub open spec fn shows_io(err: io::Error, text: Seq<char>) -> bool {
    exists|s: String| #[trigger] to_string_from_display_ensures::<io::Error>(&err, s) && s@ == text
}

/// Whether `text` is what `std` shows for the text-decoding error `err`.
pub open spec fn shows_utf8(err: Utf8Error, text: Seq<char>) -> bool {
    exists|s: String| #[trigger] to_string_from_display_ensures::<Utf8Error>(&err, s) && s@ == text
}

/// Whether `text` is what `std` shows for the number-parsing error `err`.
pub open spec fn shows_parse_int(err: ParseIntError, text: Seq<char>) -> bool {
    exists|s: String|
        #[trigger] to_string_from_display_ensures::<ParseIntError>(&err, s) && s@ == text
}

/// Whether `text` is what `std` shows for the number `n`.
pub open spec fn shows_count(n: usize, text: Seq<char>) -> bool {
    exists|s: String| #[trigger] to_string_from_display_ensures::<usize>(&n, s) && s@ == text
}

impl ISOError {
    /// The text that describes this error to a reader: a fixed prefix that
    /// names the kind, then the detail. For the kinds that wrap an error of
    /// `std`, the detail is what `std` shows for that error.
    pub fn message(&self) -> (text: String)
        ensures
            match self {
                ISOError::Io(err) => exists|detail: Seq<char>| #[trigger]
                    shows_io(*err, detail) && text@ == "IO error: "@ + detail,
                ISOError::Utf8(err) => exists|detail: Seq<char>| #[trigger]
                    shows_utf8(*err, detail) && text@ == "UTF8 error: "@ + detail,
                ISOError::InvalidFs(reason) => text@ == "Invalid ISO9660: "@ + reason@,
                ISOError::ParseInt(err) => exists|detail: Seq<char>| #[trigger]
                    shows_parse_int(*err, detail) && text@ == "Int parse error: "@ + detail,
                ISOError::ReadSize(expected, actual) => exists|
                    wanted: Seq<char>,
                    got: Seq<char>,
                |
                    {
                        &&& #[trigger] shows_count(*expected, wanted)
                        &&& #[trigger] shows_count(*actual, got)
                        &&& text@ == "Short read: "@ + wanted + " bytes requested, "@ + got
                            + " returned"@
                    },
            },
    {
        match self {
            ISOError::Io(err) => {
                let detail = err.to_string();
                assert(shows_io(*err, detail@));
                String::from_str("IO error: ").concat(detail.as_str())
            },
            ISOError::Utf8(err) => {
                let detail = err.to_string();
                assert(shows_utf8(*err, detail@));
                String::from_str("UTF8 error: ").concat(detail.as_str())
            },
            ISOError::InvalidFs(reason) => String::from_str("Invalid ISO9660: ").concat(reason),
            ISOError::ParseInt(err) => {
                let detail = err.to_string();
                assert(shows_parse_int(*err, detail@));
                String::from_str("Int parse error: ").concat(detail.as_str())
            },
            ISOError::ReadSize(expected, actual) => {
                let wanted = expected.to_string();
                let got = actual.to_string();
                assert(shows_count(*expected, wanted@));
                assert(shows_count(*actual, got@));
                String::from_str("Short read: ").concat(wanted.as_str()).concat(
                    " bytes requested, ",
                ).concat(got.as_str()).concat(" returned")
            },
        }
    }
}

impl From<io::Error> for ISOError {
    fn from(err: io::Error) -> (e: ISOError) {
        ISOError::Io(err)
    }
}

impl FromSpecImpl<io::Error> for ISOError {
    open spec fn obeys_from_spec() -> bool {
        true
    }

    open spec fn from_spec(err: io::Error) -> ISOError {
        ISOError::Io(err)
    }
}

impl From<Utf8Error> for ISOError {
    fn from(err: Utf8Error) -> (e: ISOError) {
        ISOError::Utf8(err)
    }
}

impl FromSpecImpl<Utf8Error> for ISOError {
    open spec fn obeys_from_spec() -> bool {
        true
    }

    open spec fn from_spec(err: Utf8Error) -> ISOError {
        ISOError::Utf8(err)
    }
}

impl From<ParseIntError> for ISOError {
    fn from(err: ParseIntError) -> (e: ISOError) {
        ISOError::ParseInt(err)
    }
}

impl FromSpecImpl<ParseIntError> for ISOError {
    open spec fn obeys_from_spec() -> bool {
        true
    }

    open spec fn from_spec(err: ParseIntError) -> ISOError {
        ISOError::ParseInt(err)
    }
}

} // verus!
