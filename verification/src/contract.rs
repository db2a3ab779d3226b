//! The entry points: initialization, the state-mutating commands and the
//! read-only queries, and the settlement coordination between the verifier,
//! the beacon archive and the bounty ledger.

use vstd::prelude::*;

use crate::crypto::{beacon_verifies, derive_randomness, g1_key_parses, parse_key, randomness_of, verify_round};
use crate::errors::{ExecuteError, QueryError};
use crate::msg::{
    BountiesResponse, Bounty, Coin, ExecuteMsg, GetResponse, InstantiateMsg, LatestResponse,
    MessageInfo, QueryMsg, QueryResponse, Response, ResponseData, TransferInstruction,
};
use crate::state::{
    bounty_of, deposits, has_round, lemma_zero_bounty_absent, records, settles, spec_lookup,
    value_at, BeaconArchive, BountyLedger, Config, State,
};

verus! {

/// The amount attached to a request in denomination `denom`: the amount of
/// the first matching coin, or `None` when no coin matches.
pub open spec fn spec_sent_amount(funds: Seq<Coin>, denom: Seq<char>) -> Option<u128>
    decreases funds.len(),
{
    if funds.len() == 0 {
        None
    } else if funds[0].denom@ == denom {
        Some(funds[0].amount)
    } else {
        spec_sent_amount(funds.drop_first(), denom)
    }
}

/// A scan that has not matched yet decides nothing: the sent amount of the
/// whole fund list equals that of its unscanned tail.
proof fn lemma_sent_amount_prefix(funds: Seq<Coin>, denom: Seq<char>, i: int)
    requires
        0 <= i <= funds.len(),
        forall|j: int| 0 <= j < i ==> (#[trigger] funds[j]).denom@ != denom,
    ensures
        spec_sent_amount(funds, denom) == spec_sent_amount(funds.skip(i), denom),
    decreases i,
{
    if i > 0 {
        lemma_sent_amount_prefix(funds, denom, i - 1);
        assert(funds.skip(i - 1)[0] == funds[i - 1]);
        assert(funds.skip(i - 1).drop_first() =~= funds.skip(i));
    } else {
        assert(funds.skip(0) =~= funds);
    }
}

/// Find the amount attached in denomination `denom`.
fn find_sent_amount(funds: &Vec<Coin>, denom: &String) -> (r: Option<u128>)
    ensures
        r == spec_sent_amount(funds@, denom@),
{
    let n = funds.len();
    let mut i: usize = 0;
    while i < n
        invariant
            n == funds@.len(),
            0 <= i <= n,
            forall|j: int| 0 <= j < i ==> (#[trigger] funds@[j]).denom@ != denom@,
        decreases n - i,
    {
        if funds[i].denom.eq(denom) {
            proof {
                lemma_sent_amount_prefix(funds@, denom@, i as int);
                assert(funds@.skip(i as int)[0] == funds@[i as int]);
            }
            return Some(funds[i].amount);
        }
        i = i + 1;
    }
    proof {
        lemma_sent_amount_prefix(funds@, denom@, n as int);
        assert(funds@.skip(n as int).len() == 0);
    }
    None
}

/// Create the contract state: the configuration is fixed here, and both the
/// beacon archive and the bounty ledger start empty.
pub fn instantiate(msg: InstantiateMsg) -> (s: State)
    ensures
        s.wf(),
        s.config.pubkey == msg.pubkey,
        s.config.bounty_denom == msg.bounty_denom,
        s.beacons@.len() == 0,
        s.bounties@.len() == 0,
{
    State {
        config: Config { pubkey: msg.pubkey, bounty_denom: msg.bounty_denom },
        beacons: BeaconArchive::new(),
        bounties: BountyLedger::new(),
    }
}

/// Whether a submission for `round` is accepted by the verifier under the
/// configured public key.
pub open spec fn accepts(
    pubkey: Seq<u8>,
    round: u64,
    prev_sig: Seq<u8>,
    sig: Seq<u8>,
) -> bool {
    g1_key_parses(pubkey) && beacon_verifies(pubkey, round, prev_sig, sig)
}

/// Dispatch a state-mutating command.
pub fn execute(state: &mut State, info: MessageInfo, msg: ExecuteMsg) -> (r: Result<
    Response,
    ExecuteError,
>)
    requires
        old(state).wf(),
        msg matches ExecuteMsg::SetBounty { round } ==> (spec_sent_amount(
            info.funds@,
            old(state).config.bounty_denom@,
        ) matches Some(a) ==> bounty_of(old(state).bounties@, round) + a <= u128::MAX),
    ensures
        final(state).wf(),
        final(state).config == old(state).config,
        r is Err ==> *final(state) == *old(state),
        msg matches ExecuteMsg::SetBounty { round } ==> (final(state).beacons == old(
            state,
        ).beacons && match spec_sent_amount(info.funds@, old(state).config.bounty_denom@) {
            None => r matches Err(e) && e matches ExecuteError::NoFundsSent { expected_denom }
                && expected_denom@ == old(state).config.bounty_denom@,
            Some(a) => {
                &&& deposits(old(state).bounties@, final(state).bounties@, round, a)
                &&& r matches Ok(resp) && resp.transfer is None && resp.data
                    == ResponseData::NewTotal((bounty_of(old(state).bounties@, round) + a) as u128)
            },
        }),
        msg matches ExecuteMsg::Add { round, previous_signature, signature } ==> {
            &&& !g1_key_parses(old(state).config.pubkey@) ==> (r matches Err(e)
                && e == ExecuteError::InvalidPubkey && *final(state) == *old(state))
            &&& g1_key_parses(old(state).config.pubkey@) && !beacon_verifies(
                old(state).config.pubkey@,
                round,
                previous_signature@,
                signature@,
            ) ==> (r matches Err(e) && e == ExecuteError::InvalidSignature && *final(state)
                == *old(state))
            &&& accepts(old(state).config.pubkey@, round, previous_signature@, signature@) ==> {
                &&& records(
                    old(state).beacons@,
                    final(state).beacons@,
                    round,
                    randomness_of(signature@),
                )
                &&& r matches Ok(resp) && resp.data matches ResponseData::Randomness(d) && d@
                    == randomness_of(signature@)
                &&& settles(
                    old(state).bounties@,
                    final(state).bounties@,
                    round,
                    match r {
                        Ok(resp) => match resp.transfer {
                            Some(t) => Some(t.amount),
                            None => None,
                        },
                        Err(_) => None,
                    },
                )
                &&& r matches Ok(resp) && (resp.transfer matches Some(t) ==> t.to_address@
                    == info.sender@ && t.denom@ == old(state).config.bounty_denom@)
            }
        },
{
    match msg {
        ExecuteMsg::SetBounty { round } => try_set_bounty(state, info, round),
        ExecuteMsg::Add { round, previous_signature, signature } => try_add(
            state,
            info,
            round,
            previous_signature,
            signature,
        ),
    }
}

/// Deposit the attached funds against `round`'s bounty.
///
/// If no funds in the configured denomination are attached the request is
/// rejected with `NoFundsSent` and nothing changes; otherwise the attached
/// amount accumulates onto the round's bounty and the new total is reported.
pub fn try_set_bounty(state: &mut State, info: MessageInfo, round: u64) -> (r: Result<
    Response,
    ExecuteError,
>)
    requires
        old(state).wf(),
        spec_sent_amount(info.funds@, old(state).config.bounty_denom@) matches Some(a)
            ==> bounty_of(old(state).bounties@, round) + a <= u128::MAX,
    ensures
        final(state).wf(),
        final(state).config == old(state).config,
        final(state).beacons == old(state).beacons,
        r is Err ==> *final(state) == *old(state),
        match spec_sent_amount(info.funds@, old(state).config.bounty_denom@) {
            None => r matches Err(e) && e matches ExecuteError::NoFundsSent { expected_denom }
                && expected_denom@ == old(state).config.bounty_denom@,
            Some(a) => {
                &&& deposits(old(state).bounties@, final(state).bounties@, round, a)
                &&& r matches Ok(resp) && resp.transfer is None && resp.data
                    == ResponseData::NewTotal((bounty_of(old(state).bounties@, round) + a) as u128)
            },
        },
{
    let sent = find_sent_amount(&info.funds, &state.config.bounty_denom);
    match sent {
        None => Err(ExecuteError::NoFundsSent {
            expected_denom: state.config.bounty_denom.clone(),
        }),
        Some(amount) => {
            let current = state.bounties.get_bounty(round);
            let new_total = current + amount;
            state.bounties.set_bounty(round, new_total);
            Ok(Response { data: ResponseData::NewTotal(new_total), transfer: None })
        },
    }
}

/// Submit the beacon for `round`: verify the chained signature, record the
/// derived randomness, and pay out the round's accumulated bounty, if any, to
/// the submitter.
///
/// A malformed configured key rejects with `InvalidPubkey`, an invalid
/// signature with `InvalidSignature`; both leave the state untouched.
pub fn try_add(
    state: &mut State,
    info: MessageInfo,
    round: u64,
    previous_signature: Vec<u8>,
    signature: Vec<u8>,
) -> (r: Result<Response, ExecuteError>)
    requires
        old(state).wf(),
    ensures
        final(state).wf(),
        final(state).config == old(state).config,
        !g1_key_parses(old(state).config.pubkey@) ==> (r matches Err(e)
            && e == ExecuteError::InvalidPubkey && *final(state) == *old(state)),
        g1_key_parses(old(state).config.pubkey@) && !beacon_verifies(
            old(state).config.pubkey@,
            round,
            previous_signature@,
            signature@,
        ) ==> (r matches Err(e) && e == ExecuteError::InvalidSignature && *final(state) == *old(
            state,
        )),
        accepts(old(state).config.pubkey@, round, previous_signature@, signature@) ==> {
            &&& records(
                old(state).beacons@,
                final(state).beacons@,
                round,
                randomness_of(signature@),
            )
            &&& r matches Ok(resp) && resp.data matches ResponseData::Randomness(d) && d@
                == randomness_of(signature@)
            &&& settles(
                old(state).bounties@,
                final(state).bounties@,
                round,
                match r {
                    Ok(resp) => match resp.transfer {
                        Some(t) => Some(t.amount),
                        None => None,
                    },
                    Err(_) => None,
                },
            )
            &&& r matches Ok(resp) && (resp.transfer matches Some(t) ==> t.to_address@
                == info.sender@ && t.denom@ == old(state).config.bounty_denom@)
        },
{
    let key = match parse_key(&state.config.pubkey) {
        Some(key) => key,
        None => {
            return Err(ExecuteError::InvalidPubkey);
        },
    };
    let valid = match verify_round(&key, round, &previous_signature, &signature) {
        Ok(valid) => valid,
        Err(_) => false,
    };
    if !valid {
        return Err(ExecuteError::InvalidSignature);
    }
    let randomness = derive_randomness(&signature);
    let reported = randomness.clone();
    proof {
        assert(reported@ =~= randomness@);
    }
    let data = ResponseData::Randomness(reported);
    state.beacons.put(round, randomness);
    let bounty = state.bounties.get_bounty(round);
    let transfer = if bounty != 0 {
        state.bounties.clear_bounty(round);
        Some(TransferInstruction {
            to_address: info.sender,
            amount: bounty,
            denom: state.config.bounty_denom.clone(),
        })
    } else {
        proof {
            lemma_zero_bounty_absent(state.bounties@, round);
        }
        None
    };
    Ok(Response { data, transfer })
}

/// Dispatch a read-only query.
pub fn query(state: &State, msg: QueryMsg) -> (r: Result<QueryResponse, QueryError>)
    requires
        state.wf(),
    ensures
        match msg {
            QueryMsg::Get { round } => r matches Ok(QueryResponse::Get(g)) && g.randomness@
                == match spec_lookup(state.beacons@, round) {
                Some(v) => v@,
                None => Seq::<u8>::empty(),
            },
            QueryMsg::Latest => match r {
                Ok(resp) => resp matches QueryResponse::Latest(l) && has_round(
                    state.beacons@,
                    l.round,
                ) && l.randomness@ == value_at(state.beacons@, l.round)@ && forall|x: u64|
                    has_round(state.beacons@, x) ==> x <= l.round,
                Err(e) => e == QueryError::NoBeacon && state.beacons@.len() == 0,
            },
            QueryMsg::Bounties => r matches Ok(QueryResponse::Bounties(b))
                && bounties_listed(state.bounties@, state.config.bounty_denom@, b.bounties@)
                && forall|i: int| 0 <= i < b.bounties@.len()
                ==> (#[trigger] b.bounties@[i]).amount.amount > 0,
        },
{
    match msg {
        QueryMsg::Get { round } => Ok(QueryResponse::Get(query_get(state, round))),
        QueryMsg::Latest => match query_latest(state) {
            Ok(l) => Ok(QueryResponse::Latest(l)),
            Err(e) => Err(e),
        },
        QueryMsg::Bounties => Ok(QueryResponse::Bounties(query_bounties(state))),
    }
}

/// The stored randomness for an exact round; an unknown round answers with an
/// empty value, not an error.
pub fn query_get(state: &State, round: u64) -> (r: GetResponse)
    requires
        state.wf(),
    ensures
        r.randomness@ == match spec_lookup(state.beacons@, round) {
            Some(v) => v@,
            None => Seq::<u8>::empty(),
        },
{
    match state.beacons.get(round) {
        Some(v) => {
            let randomness = v.clone();
            proof {
                assert(randomness@ =~= v@);
            }
            GetResponse { randomness }
        },
        None => GetResponse { randomness: Vec::new() },
    }
}

/// The beacon with the numerically greatest recorded round; `NoBeacon` when
/// the archive is empty.
pub fn query_latest(state: &State) -> (r: Result<LatestResponse, QueryError>)
    requires
        state.wf(),
    ensures
        match r {
            Ok(l) => has_round(state.beacons@, l.round) && l.randomness@ == value_at(
                state.beacons@,
                l.round,
            )@ && forall|x: u64| has_round(state.beacons@, x) ==> x <= l.round,
            Err(e) => e == QueryError::NoBeacon && state.beacons@.len() == 0,
        },
{
    match state.beacons.latest() {
        Some((round, randomness)) => {
            let r = LatestResponse { round, randomness: randomness.clone() };
            proof {
                assert(r.randomness@ =~= value_at(state.beacons@, round)@);
            }
            Ok(r)
        },
        None => Err(QueryError::NoBeacon),
    }
}

/// The listing pairs each ledger entry, in ascending round order, with the
/// configured denomination.
pub open spec fn bounties_listed(
    ledger: Seq<(u64, u128)>,
    denom: Seq<char>,
    listed: Seq<Bounty>,
) -> bool {
    &&& listed.len() == ledger.len()
    &&& forall|i: int| 0 <= i < ledger.len() ==> {
        &&& (#[trigger] listed[i]).round == ledger[i].0
        &&& listed[i].amount.amount == ledger[i].1
        &&& listed[i].amount.denom@ == denom
    }
}

/// All rounds with a nonzero accumulated bounty, each with its amount in the
/// configured denomination, ascending by round. Well-formedness keeps zero
/// amounts out of the ledger, so none is ever listed.
pub fn query_bounties(state: &State) -> (r: BountiesResponse)
    requires
        state.wf(),
    ensures
        bounties_listed(state.bounties@, state.config.bounty_denom@, r.bounties@),
        forall|i: int| 0 <= i < r.bounties@.len() ==> (#[trigger] r.bounties@[i]).amount.amount
            > 0,
{
    let n = state.bounties.len();
    let mut bounties: Vec<Bounty> = Vec::new();
    let mut i: usize = 0;
    while i < n
        invariant
            n == state.bounties@.len(),
            0 <= i <= n,
            bounties@.len() == i,
            forall|j: int| 0 <= j < i ==> {
                &&& (#[trigger] bounties@[j]).round == state.bounties@[j].0
                &&& bounties@[j].amount.amount == state.bounties@[j].1
                &&& bounties@[j].amount.denom@ == state.config.bounty_denom@
            },
        decreases n - i,
    {
        let (round, amount) = state.bounties.entry(i);
        bounties.push(Bounty {
            round,
            amount: Coin { denom: state.config.bounty_denom.clone(), amount },
        });
        i = i + 1;
    }
    BountiesResponse { bounties }
}

} // verus!
