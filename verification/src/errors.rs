//! The fatal setup errors: everything that can be rejected before the first
//! line of the stream is read.

use vstd::prelude::*;

verus! {

/// Why setup fails. Each of these aborts the run before any line is
/// processed; stream errors stay with the driver that owns the streams.
#[derive(Clone, Copy, PartialEq, Eq, Structural, Debug)]
pub enum SetupError {
    /// A colour argument with no hex digits in it, or with fewer than three
    /// decoded bytes.
    InvalidColorFormat,
    /// A colour argument whose hex run has an odd number of digits.
    OddHexLength,
    /// A colour argument whose hex run cannot be decoded into bytes.
    DecodeError,
    /// A pattern that does not compile.
    InvalidPattern,
}

impl SetupError {
    /// A diagnostic line for the error, for the driver to print.
    pub fn describe(&self) -> (r: &'static str)
    {
        match self {
            SetupError::InvalidColorFormat => "invalid color: no usable hex digits",
            SetupError::OddHexLength => "invalid color: odd number of hex digits",
            SetupError::DecodeError => "invalid color: hex text does not decode",
            SetupError::InvalidPattern => "invalid pattern: the regex does not compile",
        }
    }
}

} // verus!
