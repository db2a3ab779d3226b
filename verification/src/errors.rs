//! Error taxonomy: every error aborts the current request with no partial
//! mutation.

use vstd::prelude::*;

verus! {

/// Failures of the state-mutating commands.
#[derive(Debug, PartialEq, Eq)]
pub enum ExecuteError {
    /// No funds in the expected denomination were attached to the deposit.
    NoFundsSent { expected_denom: String },
    /// The configured public key is not a well-formed verification key.
    InvalidPubkey,
    /// The submitted signature does not verify for the claimed round.
    InvalidSignature,
}

/// Failures of the read-only queries.
#[derive(Debug, PartialEq, Eq)]
pub enum QueryError {
    /// No beacon has been recorded yet.
    NoBeacon,
}

} // verus!
