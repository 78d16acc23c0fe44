//! The two ways in which a run can fail.

use vstd::prelude::*;
use vstd::std_specs::convert::FromSpecImpl;
use crate::text::decimal;
use crate::text::push_decimal;

verus! {

/// `std::io::Error`, carried through unopened: nothing here looks inside one.
#[verifier::external_type_specification]
#[verifier::external_body]
pub struct ExIoError(std::io::Error);

/// Why a run was aborted.
#[derive(Debug)]
pub enum Error {
    /// A byte could not be read or written, or the program could not be loaded.
    Io(std::io::Error),
    /// A `]` was met with no open `[` to return to; the text names its offset.
    Syntax(String),
}

/// The text of the syntax error for a `]` at byte `offset`.
pub open spec fn unmatched_text(offset: nat) -> Seq<char> {
    "Found a ] with no correspoding [ at byte: "@ + decimal(offset)
}

impl Error {
    /// Whether this is the syntax error for a `]` at byte `offset`.
    pub open spec fn is_unmatched_at(self, offset: nat) -> bool {
        self matches Error::Syntax(text) && text@ == unmatched_text(offset)
    }

    /// The syntax error for a `]` at byte `byte` that has no open `[`.
    pub fn at_byte(byte: usize) -> (e: Self)
        ensures
            e.is_unmatched_at(byte as nat),
    {
        let mut text = String::from_str("Found a ] with no correspoding [ at byte: ");
        push_decimal(&mut text, byte);
        Error::Syntax(text)
    }

    /// The text of the error, as it is shown to a user: for a syntax error
    /// the text that the error carries, for an I/O error what its `Display`
    /// gives.
    pub fn message(&self) -> (text: String)
        ensures
            self matches Error::Syntax(s) ==> text@ == s@,
            self matches Error::Io(e) ==> vstd::string::to_string_from_display_ensures::<
                std::io::Error,
            >(&e, text),
    {
        match self {
            Error::Io(e) => e.to_string(),
            Error::Syntax(s) => s.clone(),
        }
    }
}

/// Calls `std::io::Error::from` on `std::io::ErrorKind::UnexpectedEof`, which
/// gives the error of a read that found its stream at the end. Nothing is
/// claimed of the value.
#[verifier::external_body]
pub(crate) fn end_of_stream() -> (e: std::io::Error) {
    std::io::Error::from(std::io::ErrorKind::UnexpectedEof)
}

impl From<std::io::Error> for Error {
    fn from(e: std::io::Error) -> (r: Self) {
        Error::Io(e)
    }
}

impl FromSpecImpl<std::io::Error> for Error {
    open spec fn obeys_from_spec() -> bool {
        true
    }

    open spec fn from_spec(e: std::io::Error) -> Self {
        Error::Io(e)
    }
}

impl From<String> for Error {
    fn from(e: String) -> (r: Self) {
        Error::Syntax(e)
    }
}

impl FromSpecImpl<String> for Error {
    open spec fn obeys_from_spec() -> bool {
        true
    }

    open spec fn from_spec(e: String) -> Self {
        Error::Syntax(e)
    }
}

} // verus!
