//! Errors surfaced by the commitment scheme.
use vstd::prelude::*;

verus! {

/// The three failure kinds of the scheme: a structural length violation, a
/// transcript failure (a challenge that cannot be used), and a proof that
/// fails the final verification equation.
#[derive(Clone, Copy, Debug, PartialEq, Eq, Structural)]
pub enum IpaError {
    /// A structural precondition on vector or proof lengths was violated.
    InvalidInputLength,
    /// The transcript produced a challenge that cannot be used (zero).
    TranscriptError,
    /// The final verification equation did not hold: the proof is invalid.
    InvalidPCS,
}

} // verus!
