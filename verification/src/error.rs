//! Errors raised by the library.
use vstd::prelude::*;

verus! {

#[verifier::external_type_specification]
#[verifier::external_body]
pub struct ExChronoParseError(chrono::ParseError);

/// Errors the library raises.
#[derive(Debug)]
pub enum Error {
    /// Logging could not be set up.
    LoggingInitFailure,
    /// A contract of a security type that is neither a stock nor an option.
    UnknownLegType(String),
    /// An expiration date that is not `YYYYMM` or `YYYYMMDD`.
    MalformedExpirationDate(ExpirationDateParseErrorKind),
    /// A strike that has no decimal representation.
    MalformedDecimalError(String),
}

/// Why an expiration date was refused.
#[derive(Debug)]
pub enum ExpirationDateParseErrorKind {
    /// The text is neither 6 nor 8 bytes long.
    InvalidExpirationDateLength(String),
    /// `chrono` refused the text.
    ParseError(chrono::ParseError),
}

/// Results of the library.
pub type Result<T> = std::result::Result<T, Error>;

} // verus!
