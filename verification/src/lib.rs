//! Line-oriented stream substitution: replace the occurrences of a literal
//! string or of a regular expression in each input line with a substitution
//! string, optionally interpolating captured groups into it and colouring
//! it, and hand back one output line per input line.
//!
//! The run's mode and colours are fixed once at startup ([`engine`]); each
//! line is then split around its matches and reassembled ([`transform`]),
//! with captures interpolated ([`interp`]) and the substitution styled
//! ([`style`]) on the way.

pub mod color;
pub mod digits;
pub mod engine;
pub mod errors;
pub mod interp;
pub mod rx;
pub mod style;
pub mod text;
pub mod transform;
