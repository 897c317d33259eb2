//! The errors of the library.

use vstd::prelude::*;
use vstd::string::StringExecFns;

verus! {

/// Why a construction was refused. None of these is recovered from silently: a
/// partial or made-up commitment would lock funds in an unintended way.
#[derive(Debug, Clone, Copy, PartialEq, Eq, Structural)]
pub enum CovenantError {
    /// A commitment digest was not exactly 32 bytes long.
    InvalidDigestLength,
    /// The fee and the reserved outputs exceed the input value, or what is left
    /// does not give every leaf at least one unit.
    InsufficientFunds,
    /// The number of leaves is not a power of the branching factor.
    UnbalancedTree,
    /// The taproot tweak could not be computed for the given key and script.
    TreeFinalize,
    /// The outputs of an assembled spend do not hash to the stored digest, or
    /// the stored taproot commitment is not that of the digest.
    CommitmentMismatch,
}

impl CovenantError {
    /// The text that describes the error.
    pub open spec fn text(&self) -> Seq<char> {
        match *self {
            CovenantError::InvalidDigestLength => "commitment digest must be 32 bytes"@,
            CovenantError::InsufficientFunds => {
                "input value does not cover fee, reserved outputs and leaves"@
            },
            CovenantError::UnbalancedTree => "leaf count is not a power of the branching factor"@,
            CovenantError::TreeFinalize => "taproot commitment could not be finalized"@,
            CovenantError::CommitmentMismatch => "assembled spend does not match its commitment"@,
        }
    }

    /// A short description of the error, for messages.
    pub fn message(&self) -> (text: String)
        ensures
            text@ == self.text(),
    {
        let text = match self {
            CovenantError::InvalidDigestLength => "commitment digest must be 32 bytes",
            CovenantError::InsufficientFunds => {
                "input value does not cover fee, reserved outputs and leaves"
            },
            CovenantError::UnbalancedTree => "leaf count is not a power of the branching factor",
            CovenantError::TreeFinalize => "taproot commitment could not be finalized",
            CovenantError::CommitmentMismatch => "assembled spend does not match its commitment",
        };
        String::from_str(text)
    }
}

} // verus!
