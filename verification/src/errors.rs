//! The error kinds a parse can end in.  All of them are terminal for the
//! file being parsed: no partial metadata record is produced on failure.

use vstd::prelude::*;

verus! {

/// Why a parse of one file stopped.
#[derive(Debug, Clone, Copy, PartialEq, Eq, Structural)]
pub enum ParseError {
    /// The buffer does not begin with the expected magic constant.
    InvalidMagicNumber,
    /// A read or skip would have passed the end of the buffer.
    UnexpectedEndOfData,
    /// A channel's pixel-type code was none of the three known values;
    /// carries the raw code.
    UnknownSampleType(u32),
}

impl ParseError {
    /// A short human-readable description, for callers that report failures.
    pub fn message(&self) -> (r: &'static str)
        ensures
            r@ == self.spec_message(),
    {
        match self {
            ParseError::InvalidMagicNumber => "Invalid EXR magic number",
            ParseError::UnexpectedEndOfData => "Unexpected end of data",
            ParseError::UnknownSampleType(_) => "Unknown sample type",
        }
    }

    /// What `message` returns for each variant.
    pub open spec fn spec_message(&self) -> Seq<char> {
        match self {
            ParseError::InvalidMagicNumber => "Invalid EXR magic number"@,
            ParseError::UnexpectedEndOfData => "Unexpected end of data"@,
            ParseError::UnknownSampleType(_) => "Unknown sample type"@,
        }
    }
}

} // verus!
