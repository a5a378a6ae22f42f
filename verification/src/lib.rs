//! Forward pricing under the cost-of-carry model.
//!
//! The pricing module solves `forward = spot * (1 + rate * time) - dividend`
//! for each of its four quantities in turn; the rational module supplies the
//! exact arithmetic the formulas are computed and specified with.

pub mod pricing;
pub mod rational;
