//! Request and response payloads of the command and query interfaces, as
//! plain values. The host envelope supplies the caller's identity and the
//! funds attached to a request; the library trusts it as authoritative.

use vstd::prelude::*;

verus! {

/// An amount of one currency denomination.
#[derive(Clone, Debug, PartialEq, Eq)]
pub struct Coin {
    pub denom: String,
    pub amount: u128,
}

/// Who sent the request and which funds they attached.
#[derive(Debug)]
pub struct MessageInfo {
    pub sender: String,
    pub funds: Vec<Coin>,
}

/// Initialization payload, accepted exactly once at contract creation.
#[derive(Debug)]
pub struct InstantiateMsg {
    pub pubkey: Vec<u8>,
    pub bounty_denom: String,
}

/// The state-mutating commands.
#[derive(Debug)]
pub enum ExecuteMsg {
    /// Deposit the attached funds against a round's bounty.
    SetBounty { round: u64 },
    /// Submit and verify a beacon, triggering a payout if one is owed.
    Add { round: u64, previous_signature: Vec<u8>, signature: Vec<u8> },
}

/// The read-only queries.
#[derive(Debug)]
pub enum QueryMsg {
    /// The stored randomness for an exact round, or empty.
    Get { round: u64 },
    /// The highest-round stored beacon.
    Latest,
    /// All rounds with an accumulated bounty, ascending by round.
    Bounties,
}

/// A single fund-transfer instruction for the host to execute. The library
/// only decides that the transfer should occur; it does not move value.
#[derive(Debug, PartialEq, Eq)]
pub struct TransferInstruction {
    pub to_address: String,
    pub amount: u128,
    pub denom: String,
}

/// The result payload of a successful command; the host encodes it for the
/// wire.
#[derive(Debug, PartialEq, Eq)]
pub enum ResponseData {
    /// The randomness recorded by a beacon submission.
    Randomness(Vec<u8>),
    /// The new accumulated total after a bounty deposit.
    NewTotal(u128),
}

/// The outcome of a successful command: a result payload and at most one
/// transfer instruction.
#[derive(Debug)]
pub struct Response {
    pub data: ResponseData,
    pub transfer: Option<TransferInstruction>,
}

/// Answer to [`QueryMsg::Get`]: the stored randomness, empty when the round
/// is unknown.
#[derive(Debug, PartialEq, Eq)]
pub struct GetResponse {
    pub randomness: Vec<u8>,
}

/// Answer to [`QueryMsg::Latest`].
#[derive(Debug, PartialEq, Eq)]
pub struct LatestResponse {
    pub round: u64,
    pub randomness: Vec<u8>,
}

/// One round's accumulated bounty, in the configured denomination.
#[derive(Debug, PartialEq, Eq)]
pub struct Bounty {
    pub round: u64,
    pub amount: Coin,
}

/// Answer to [`QueryMsg::Bounties`], ascending by round.
#[derive(Debug, PartialEq, Eq)]
pub struct BountiesResponse {
    pub bounties: Vec<Bounty>,
}

/// The answer to a query, tagged by the query it answers.
#[derive(Debug, PartialEq, Eq)]
pub enum QueryResponse {
    Get(GetResponse),
    Latest(LatestResponse),
    Bounties(BountiesResponse),
}

} // verus!
