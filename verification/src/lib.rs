//! Numeral conversion between binary, octal, decimal and hexadecimal.
//!
//! - [`numeral`]: positional notation, what digits denote and how a number
//!   is written.
//! - [`radix`]: radix prefixes, and parsing, formatting and converting
//!   numerals.
//! - [`options`]: the conversion flags, and the radices that they ask for.
//! - [`report`]: one invocation, from the flags to the lines of output.

pub mod numeral;
pub mod options;
pub mod radix;
pub mod report;
