//! The ways in which a candidate number can be rejected.

use vstd::prelude::*;

verus! {

/// Why a string is not a Turkish citizenship ID number.
#[derive(Debug, Clone, Copy, PartialEq, Eq, Structural)]
pub enum Error {
    /// The string is not exactly eleven bytes long.
    InvalidLength,
    /// The string holds a character that is not an ASCII decimal digit.
    InvalidCharacter(char),
    /// The last digit is not the checksum of the ten digits before it.
    InvalidFinalChecksum,
    /// The tenth digit is not the checksum of the nine digits before it.
    InvalidInitialChecksum,
    /// The first digit is zero.
    FirstDigitIsZero,
}

/// The three broad classes into which every [`Error`] falls.
#[derive(Debug, Clone, Copy, PartialEq, Eq, Structural)]
pub enum ErrorKind {
    /// The string has the wrong length.
    InvalidLength,
    /// A character is not an acceptable digit at its place.
    InvalidDigit,
    /// The digits do not satisfy one of the two checksums.
    InvalidChecksum,
}

impl Error {
    /// The class of this error.
    pub open spec fn spec_kind(&self) -> ErrorKind {
        match self {
            Error::InvalidLength => ErrorKind::InvalidLength,
            Error::InvalidCharacter(_) | Error::FirstDigitIsZero => ErrorKind::InvalidDigit,
            Error::InvalidFinalChecksum | Error::InvalidInitialChecksum => ErrorKind::InvalidChecksum,
        }
    }

    /// The class of this error: a wrong length, an unacceptable digit, or a
    /// checksum that does not match.
    #[verifier::when_used_as_spec(spec_kind)]
    pub fn kind(&self) -> (k: ErrorKind)
        ensures
            k == self.spec_kind(),
    {
        match self {
            Error::InvalidLength => ErrorKind::InvalidLength,
            Error::InvalidCharacter(_) | Error::FirstDigitIsZero => ErrorKind::InvalidDigit,
            Error::InvalidFinalChecksum | Error::InvalidInitialChecksum => ErrorKind::InvalidChecksum,
        }
    }
}

/// Why no number can be generated from a sequence number.
#[derive(Debug, Clone, Copy, PartialEq, Eq, Structural)]
pub enum FromSeqError {
    /// The sequence number does not have exactly nine decimal digits.
    OutOfRange,
}

} // verus!
