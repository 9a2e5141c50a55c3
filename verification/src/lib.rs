//! A tree-walking evaluator for a small arithmetic expression language with
//! nested lexical scopes, conditionals and two-digit fixed-point decimals.
//!
//! Expressions are built by the caller and evaluated over any number domain
//! that implements [`Scalar`]. The crate ships one exact domain,
//! [`Hundredths`]; a host program supplies its own (for instance machine
//! floating point) by implementing the trait.

pub mod environment;
pub mod error;
pub mod evaluate;
pub mod expression;
pub mod fixed_point;
pub mod hundredths;
pub mod laws;
pub mod notation;
pub mod print;
pub mod scalar;

pub use environment::Environment;
pub use error::EvalError;
pub use evaluate::{evaluate, evaluate_within, MAX_DEPTH};
pub use expression::{Expression, Predicate};
pub use fixed_point::{add_fixed_points, checked_add_fixed_points, get_length, FixedPoint};
pub use hundredths::Hundredths;
pub use scalar::Scalar;
