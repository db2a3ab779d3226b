//! A verifiable-randomness relay with an attached incentive ledger.
//!
//! The library accepts externally produced randomness beacons, each tied to a
//! round and chained to the previous round's signature, checks them against a
//! fixed public key, records verified beacons for later lookup, and pays an
//! accumulated bounty to whoever first submits a round's valid beacon.

pub mod contract;
pub mod crypto;
pub mod errors;
pub mod laws;
pub mod msg;
pub mod state;
