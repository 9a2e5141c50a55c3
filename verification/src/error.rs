//! The ways an evaluation can fail.

use vstd::prelude::*;

verus! {

/// Why an expression has no value.
#[derive(Debug, PartialEq, Eq)]
pub enum EvalError {
    /// The named variable is bound in no scope of the chain.
    UnboundVariable(String),
    /// The expression, with the bindings it refers to, nests deeper than the
    /// evaluation was allowed to descend. A variable bound to an expression
    /// that refers back to it always ends here.
    DepthLimitExceeded,
}

} // verus!
