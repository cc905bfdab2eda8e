//! The typed failures of the parsing pipeline: configuration errors,
//! decode errors, and data errors, each tied in the contracts to the exact
//! inputs that produce it.

use vstd::prelude::*;

verus! {

#[derive(Clone, Copy, Debug, PartialEq, Eq, Structural)]
pub enum ParseError {
    /// The message pattern lacks one of the required named capture groups.
    MissingCaptureGroups,
    /// The message pattern is not a valid regular expression.
    InvalidRegex,
    /// The logfile pattern is not a valid glob.
    InvalidGlobPattern,
    /// A compressed stream could not be decoded.
    DecodeFailed,
    /// Decoded bytes are not valid UTF-8.
    InvalidUtf8,
    /// A captured timestamp could not be interpreted.
    InvalidTimestamp,
    /// A required capture group did not participate in a match.
    MissingCapture,
}

} // verus!
