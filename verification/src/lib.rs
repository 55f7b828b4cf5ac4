//! A small in-memory tabular data engine.
//!
//! Delimited text loads into typed columns; the engine computes per-column
//! and per-group descriptive and rolling statistics, plus difference and
//! percent-change transforms. Cells are a closed tagged union
//! ([`value::DataTypes`]): floating-point (held as an IEEE-754 bit
//! pattern), integer, or text. Floating-point arithmetic is delegated to
//! soft-float crates behind the trusted bridge in [`floatbits`]; all the
//! engine's own logic — typing, dispatch, folds, windows, grouping — is
//! verified.

pub mod floatbits;
pub mod textnum;
pub mod value;
pub mod stats;
pub mod rolling;
pub mod frame;
pub mod group;
pub mod bloom;

pub use floatbits::NAN_BITS;
pub use floatbits::POS_ZERO_BITS;
