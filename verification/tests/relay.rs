//! End-to-end scenarios against the real pairing-based verifier, using the
//! League of Entropy classic mainnet key and a published beacon.

use drand_relay::contract::{
    execute, instantiate, query, query_bounties, query_get, query_latest, try_add, try_set_bounty,
};
use drand_relay::errors::{ExecuteError, QueryError};
use drand_relay::msg::{
    Coin, ExecuteMsg, InstantiateMsg, MessageInfo, QueryMsg, QueryResponse, ResponseData,
};
use drand_relay::state::{BeaconArchive, BountyLedger, State};

/// Public key of the classic League of Entropy mainnet.
const PK_LEO_MAINNET: &str = "868f005eb8e6e4ca0a47c8a77ceaa5309a47978a7c71bc5cce96366b5d7a569937c529eeda66c7293784a9402801af31";
/// Signature of mainnet round 72784, the chain anchor for round 72785.
const PREV_SIG_72785: &str = "a609e19a03c2fcc559e8dae14900aaefe517cb55c840f6e69bc8e4f66c8d18e8a609685d9917efbfb0c37f058c2de88f13d297c7e19e0ab24813079efe57a182554ff054c7638153f9b26a60e7111f71a0ff63d9571704905d3ca6df0b031747";
/// Signature of mainnet round 72785.
const SIG_72785: &str = "82f5d3d2de4db19d40a6980e8aa37842a0e55d1df06bd68bddc8d60002e8e959eb9cfa368b3c1b77d18f02a54fe047b80f0989315f83b12a74fd8679c4f12aae86eaf6ab5690b34f1fddd50ee3cc6f6cdf59e95526d5a5d82aaa84fa6f181e42";
/// Randomness derived from round 72785's signature.
const RANDOMNESS_72785: &str = "8b676484b5fb1f37f9ec5c413d7d29883504e5b669f604a1ce68b3388e9ae3d9";
const ROUND: u64 = 72785;

fn hex_to_bytes(s: &str) -> Vec<u8> {
    let digits: Vec<u8> = s
        .bytes()
        .map(|b| match b {
            b'0'..=b'9' => b - b'0',
            b'a'..=b'f' => b - b'a' + 10,
            b'A'..=b'F' => b - b'A' + 10,
            _ => panic!("not a hex digit"),
        })
        .collect();
    assert!(digits.len() % 2 == 0);
    digits.chunks(2).map(|p| (p[0] << 4) | p[1]).collect()
}

fn mainnet_state() -> State {
    instantiate(InstantiateMsg {
        pubkey: hex_to_bytes(PK_LEO_MAINNET),
        bounty_denom: "ucoin".to_string(),
    })
}

fn info(sender: &str, funds: Vec<Coin>) -> MessageInfo {
    MessageInfo { sender: sender.to_string(), funds }
}

fn ucoin(amount: u128) -> Coin {
    Coin { denom: "ucoin".to_string(), amount }
}

/// Deposit a bounty, submit the valid beacon: the randomness comes back, one
/// transfer instruction pays the whole bounty, and the bounty listing then
/// omits the round.
#[test]
fn deposit_then_valid_submission_pays_out() {
    let mut state = mainnet_state();

    let deposit = execute(
        &mut state,
        info("alice", vec![ucoin(100)]),
        ExecuteMsg::SetBounty { round: ROUND },
    )
    .unwrap();
    assert_eq!(deposit.data, ResponseData::NewTotal(100));
    assert!(deposit.transfer.is_none());

    let submit = execute(
        &mut state,
        info("bob", vec![]),
        ExecuteMsg::Add {
            round: ROUND,
            previous_signature: hex_to_bytes(PREV_SIG_72785),
            signature: hex_to_bytes(SIG_72785),
        },
    )
    .unwrap();
    assert_eq!(
        submit.data,
        ResponseData::Randomness(hex_to_bytes(RANDOMNESS_72785))
    );
    let transfer = submit.transfer.expect("a payout is owed");
    assert_eq!(transfer.to_address, "bob");
    assert_eq!(transfer.amount, 100);
    assert_eq!(transfer.denom, "ucoin");

    let listing = query_bounties(&state);
    assert!(listing.bounties.is_empty());

    let got = query_get(&state, ROUND);
    assert_eq!(got.randomness, hex_to_bytes(RANDOMNESS_72785));
}

/// A second successful submission for the same round pays nothing and reads
/// bounty zero.
#[test]
fn second_submission_pays_nothing() {
    let mut state = mainnet_state();
    try_set_bounty(&mut state, info("alice", vec![ucoin(42)]), ROUND).unwrap();

    let first = try_add(
        &mut state,
        info("bob", vec![]),
        ROUND,
        hex_to_bytes(PREV_SIG_72785),
        hex_to_bytes(SIG_72785),
    )
    .unwrap();
    assert_eq!(first.transfer.map(|t| t.amount), Some(42));
    assert_eq!(state.bounties.get_bounty(ROUND), 0);

    let second = try_add(
        &mut state,
        info("carol", vec![]),
        ROUND,
        hex_to_bytes(PREV_SIG_72785),
        hex_to_bytes(SIG_72785),
    )
    .unwrap();
    assert!(second.transfer.is_none());
    assert_eq!(
        second.data,
        ResponseData::Randomness(hex_to_bytes(RANDOMNESS_72785))
    );
}

/// An invalid signature is rejected and leaves both stores untouched.
#[test]
fn invalid_signature_is_a_no_op() {
    let mut state = mainnet_state();
    try_set_bounty(&mut state, info("alice", vec![ucoin(7)]), 7).unwrap();

    // A signature from the wrong round cannot verify for round 7.
    let r = try_add(
        &mut state,
        info("bob", vec![]),
        7,
        hex_to_bytes(PREV_SIG_72785),
        hex_to_bytes(SIG_72785),
    );
    assert_eq!(r.unwrap_err(), ExecuteError::InvalidSignature);

    assert!(query_get(&state, 7).randomness.is_empty());
    assert_eq!(state.bounties.get_bounty(7), 7);
    assert!(matches!(query_latest(&state), Err(QueryError::NoBeacon)));
}

/// A corrupted signature of the right length is also folded into a plain
/// rejection, not a crash.
#[test]
fn corrupted_signature_is_rejected() {
    let mut state = mainnet_state();
    let mut sig = hex_to_bytes(SIG_72785);
    sig[10] ^= 0xff;
    let r = try_add(
        &mut state,
        info("bob", vec![]),
        ROUND,
        hex_to_bytes(PREV_SIG_72785),
        sig,
    );
    assert_eq!(r.unwrap_err(), ExecuteError::InvalidSignature);
}

/// A malformed configured key is reported as a configuration error.
#[test]
fn malformed_pubkey_is_rejected() {
    let mut state = instantiate(InstantiateMsg {
        pubkey: vec![1, 2, 3],
        bounty_denom: "ucoin".to_string(),
    });
    let r = try_add(
        &mut state,
        info("bob", vec![]),
        ROUND,
        hex_to_bytes(PREV_SIG_72785),
        hex_to_bytes(SIG_72785),
    );
    assert_eq!(r.unwrap_err(), ExecuteError::InvalidPubkey);
}

/// A deposit without funds in the configured denomination is rejected and
/// the round stays absent from the bounty listing.
#[test]
fn wrong_denomination_deposit_is_rejected() {
    let mut state = mainnet_state();
    let r = try_set_bounty(
        &mut state,
        info("alice", vec![Coin { denom: "other".to_string(), amount: 0 }]),
        9,
    );
    assert_eq!(
        r.unwrap_err(),
        ExecuteError::NoFundsSent { expected_denom: "ucoin".to_string() }
    );
    let listing = query_bounties(&state);
    assert!(listing.bounties.iter().all(|b| b.round != 9));
    assert!(listing.bounties.is_empty());
}

/// With no beacon ever submitted, the latest-beacon query reports no data.
#[test]
fn latest_without_beacons_is_no_beacon() {
    let state = mainnet_state();
    let r = query(&state, QueryMsg::Latest);
    assert!(matches!(r, Err(QueryError::NoBeacon)));
}

/// The archive serves the greatest round regardless of insertion order.
#[test]
fn latest_is_highest_round_regardless_of_order() {
    let mut archive = BeaconArchive::new();
    archive.put(3, vec![3u8; 32]);
    archive.put(1, vec![1u8; 32]);
    archive.put(2, vec![2u8; 32]);
    let (round, randomness) = archive.latest().expect("archive is not empty");
    assert_eq!(round, 3);
    assert_eq!(*randomness, vec![3u8; 32]);
    assert_eq!(archive.get(2), Some(&vec![2u8; 32]));
    assert_eq!(archive.get(4), None);
}

/// Rewriting a round with the same randomness is harmless.
#[test]
fn rewriting_a_round_is_idempotent() {
    let mut archive = BeaconArchive::new();
    archive.put(5, vec![9u8; 32]);
    archive.put(5, vec![9u8; 32]);
    assert_eq!(archive.get(5), Some(&vec![9u8; 32]));
    let (round, _) = archive.latest().unwrap();
    assert_eq!(round, 5);
}

/// Deposits to the same round accumulate to their sum, and the new total is
/// reported after each one.
#[test]
fn deposits_accumulate() {
    let mut state = mainnet_state();
    let steps: [(u128, u128); 3] = [(1, 1), (2, 3), (3, 6)];
    for (amount, total) in steps {
        let r = try_set_bounty(&mut state, info("alice", vec![ucoin(amount)]), 11).unwrap();
        assert_eq!(r.data, ResponseData::NewTotal(total));
    }
    assert_eq!(state.bounties.get_bounty(11), 6);
}

/// Only the first coin in the configured denomination counts for a deposit.
#[test]
fn first_matching_coin_is_deposited() {
    let mut state = mainnet_state();
    let funds = vec![
        Coin { denom: "other".to_string(), amount: 50 },
        ucoin(8),
        ucoin(90),
    ];
    let r = try_set_bounty(&mut state, info("alice", funds), 4).unwrap();
    assert_eq!(r.data, ResponseData::NewTotal(8));
}

/// The bounty listing is ascending by round and carries the configured
/// denomination.
#[test]
fn bounties_are_listed_ascending() {
    let mut state = mainnet_state();
    for round in [5u64, 2, 9] {
        try_set_bounty(&mut state, info("alice", vec![ucoin(10)]), round).unwrap();
    }
    let r = query(&state, QueryMsg::Bounties);
    match r {
        Ok(QueryResponse::Bounties(b)) => {
            let rounds: Vec<u64> = b.bounties.iter().map(|x| x.round).collect();
            assert_eq!(rounds, vec![2, 5, 9]);
            assert!(b.bounties.iter().all(|x| x.amount.denom == "ucoin"));
            assert!(b.bounties.iter().all(|x| x.amount.amount == 10));
        }
        _ => panic!("expected a bounty listing"),
    }
}

/// Storing a zero total removes the round's entry: the ledger never holds a
/// zero-amount entry.
#[test]
fn storing_a_zero_total_removes_the_entry() {
    let mut ledger = BountyLedger::new();
    ledger.set_bounty(3, 5);
    assert_eq!(ledger.len(), 1);
    ledger.set_bounty(3, 0);
    assert_eq!(ledger.get_bounty(3), 0);
    assert_eq!(ledger.len(), 0);
    ledger.set_bounty(8, 0);
    assert_eq!(ledger.len(), 0);
}

/// After a payout the paid round's entry is gone from the listing while
/// other rounds' bounties stay listed.
#[test]
fn payout_removes_only_the_paid_round_from_listing() {
    let mut state = mainnet_state();
    try_set_bounty(&mut state, info("alice", vec![ucoin(100)]), ROUND).unwrap();
    try_set_bounty(&mut state, info("alice", vec![ucoin(25)]), 99).unwrap();
    try_add(
        &mut state,
        info("bob", vec![]),
        ROUND,
        hex_to_bytes(PREV_SIG_72785),
        hex_to_bytes(SIG_72785),
    )
    .unwrap();
    let listing = query_bounties(&state);
    let rounds: Vec<u64> = listing.bounties.iter().map(|b| b.round).collect();
    assert_eq!(rounds, vec![99]);
}

/// Clearing a round's ledger entry zeroes that round alone.
#[test]
fn clearing_one_round_leaves_others() {
    let mut ledger = BountyLedger::new();
    ledger.set_bounty(1, 10);
    ledger.set_bounty(2, 20);
    ledger.clear_bounty(1);
    assert_eq!(ledger.get_bounty(1), 0);
    assert_eq!(ledger.get_bounty(2), 20);
    assert_eq!(ledger.len(), 1);
}

/// A zero-amount deposit in the right denomination reports a zero total but
/// creates no ledger entry.
#[test]
fn zero_deposit_creates_no_entry() {
    let mut state = mainnet_state();
    let r = try_set_bounty(&mut state, info("alice", vec![ucoin(0)]), 6).unwrap();
    assert_eq!(r.data, ResponseData::NewTotal(0));
    assert!(query_bounties(&state).bounties.is_empty());
}

/// The stores accept the largest round number and the largest amount.
#[test]
fn largest_round_and_amount_are_stored() {
    let mut state = mainnet_state();
    let r = try_set_bounty(&mut state, info("alice", vec![ucoin(u128::MAX)]), u64::MAX).unwrap();
    assert_eq!(r.data, ResponseData::NewTotal(u128::MAX));
    assert_eq!(state.bounties.get_bounty(u64::MAX), u128::MAX);

    state.beacons.put(u64::MAX, vec![7u8; 32]);
    state.beacons.put(0, vec![1u8; 32]);
    let (round, _) = state.beacons.latest().unwrap();
    assert_eq!(round, u64::MAX);
}

/// The query dispatcher answers a point lookup like the direct query.
#[test]
fn query_dispatch_get() {
    let state = mainnet_state();
    match query(&state, QueryMsg::Get { round: 123 }) {
        Ok(QueryResponse::Get(g)) => assert!(g.randomness.is_empty()),
        _ => panic!("a point lookup never fails"),
    }
}
