//! Batch classification and dotted-decimal rendering of IPv4 addresses
//! held as 32-bit unsigned integers.

pub mod classify;
pub mod octets;
pub mod parse;
pub mod text;
