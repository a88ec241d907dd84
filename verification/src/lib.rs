//! Conversion of a parsed TOML value tree into the "tagged" JSON value tree
//! used by TOML conformance-test harnesses: every scalar leaf becomes an
//! object carrying an explicit type tag and a string-encoded value, so that
//! the integer `1`, the string `"1"` and the float `1.0` stay distinguishable.
//!
//! The crate is the pure core alone: it receives an already-parsed value tree
//! and returns the tagged tree. Reading input, invoking the TOML parser and
//! serializing the result to JSON text are left to the caller.

pub mod convert;
pub mod text;
pub mod value;

pub use convert::convert;
pub use convert::well_formed;
