//! Standard functions that templates can call.
//!
//! Only the string functions live here; see [`strings`].  Arithmetic
//! functions work on floating-point numbers, which the verified library does
//! not hold, so they are assembled by the embedding application.

pub mod strings;

pub use strings::concat_function;
pub use strings::string_functions;
