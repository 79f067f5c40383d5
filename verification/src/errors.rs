//! Fatal error kinds of the arithmetization core.  All are hard failures of
//! the machinery, distinguishable from a sound "proof rejected" outcome.

use vstd::prelude::*;

verus! {

/// Why a widget or kernel invocation failed.
#[derive(Clone, Copy, PartialEq, Eq, Structural, Debug)]
pub enum ProofError {
    /// An unsupported kernel operation was invoked: a wiring defect.
    ContractViolation,
    /// A getter was asked for a polynomial its container does not hold, or
    /// one outside the requesting kernel's declared read-set.
    MissingPolynomial,
    /// A field inversion of zero or a similar arithmetic impossibility.
    ArithmeticFailure,
    /// A kernel required a challenge power not yet derived.
    ChallengeUnavailable,
}

} // verus!
