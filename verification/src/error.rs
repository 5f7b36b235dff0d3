//! The failure taxonomy shared by every operation.

use vstd::prelude::*;

verus! {

/// Why an operation failed. No operation produces a partial result: it either
/// returns its value or exactly one of these.
#[derive(Clone, Copy, Debug, PartialEq, Eq, Structural)]
pub enum LheError {
    /// Malformed input, or a collection whose length does not match the policy.
    Parameter,
    /// A policy with `t > n`, `t == 0` or `n < 3`.
    Policy,
    /// A bundle whose fields run past its end, or do not end where it ends.
    Bounds,
    /// The engine reported a failure, or would be given fewer shares than
    /// the threshold asks for.
    CryptoEngine,
    /// A buffer handle that is not live, or that declares no bytes.
    Pointer,
}

impl LheError {
    /// The name of the failure class, as it is shown to callers.
    pub fn name(&self) -> (s: &'static str)
        ensures
            s@ == match *self {
                LheError::Parameter => "ParameterError"@,
                LheError::Policy => "PolicyError"@,
                LheError::Bounds => "BoundsError"@,
                LheError::CryptoEngine => "CryptoEngineError"@,
                LheError::Pointer => "PointerError"@,
            },
    {
        match self {
            LheError::Parameter => "ParameterError",
            LheError::Policy => "PolicyError",
            LheError::Bounds => "BoundsError",
            LheError::CryptoEngine => "CryptoEngineError",
            LheError::Pointer => "PointerError",
        }
    }
}

} // verus!
