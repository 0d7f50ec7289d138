//! The error taxonomy of a line-read.

use vstd::prelude::*;

verus! {

/// Why a line-read ended without a line.
#[derive(Debug, Clone, Copy, PartialEq, Eq, Structural)]
pub enum Error {
    /// An operating-system error, by its errno value.
    ErrNo(i32),
    /// The user interrupted the read.
    Cancel,
    /// The input was exhausted, or a forward delete hit an empty line.
    EndOfFile,
    /// The terminal cannot be driven by this library.
    UnsupportedTerm,
    /// A reply to the cursor-position query was malformed.
    ParseError,
}

impl Error {
    /// A short description of the error.
    pub fn describe(&self) -> (r: &'static str)
        ensures
            r@.len() > 0,
            (self matches Error::ErrNo(_)) ==> r@ == "operating system error"@,
            self is Cancel ==> r@ == "cancelled"@,
            self is EndOfFile ==> r@ == "end of file"@,
            self is UnsupportedTerm ==> r@ == "unsupported terminal type"@,
            self is ParseError ==> r@ == "unknown sequence"@,
    {
        proof {
            reveal_strlit("operating system error");
            reveal_strlit("cancelled");
            reveal_strlit("end of file");
            reveal_strlit("unsupported terminal type");
            reveal_strlit("unknown sequence");
        }
        match *self {
            Error::ErrNo(_) => "operating system error",
            Error::Cancel => "cancelled",
            Error::EndOfFile => "end of file",
            Error::UnsupportedTerm => "unsupported terminal type",
            Error::ParseError => "unknown sequence",
        }
    }
}

} // verus!
