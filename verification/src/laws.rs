//! The library's global guarantees, stated over the spec-level transitions
//! that the entry points' contracts are written in.

use vstd::prelude::*;

use crate::crypto::randomness_of;
use crate::state::{bounty_of, deposits, has_round, records, settles};

verus! {

/// Idempotent randomness derivation: verifying and deriving twice with
/// identical inputs yields identical randomness, since the derived value is
/// a function of the signature bytes alone.
pub proof fn lemma_randomness_deterministic(sig1: Seq<u8>, sig2: Seq<u8>)
    requires
        sig1 == sig2,
    ensures
        randomness_of(sig1) == randomness_of(sig2),
{
}

/// At most one payout: the first successful settlement of a round with a
/// positive bounty pays out exactly that bounty and clears it, so the round
/// then reads zero and any further settlement of the same round pays
/// nothing.
pub proof fn lemma_at_most_one_payout(
    pre: Seq<(u64, u128)>,
    mid: Seq<(u64, u128)>,
    post: Seq<(u64, u128)>,
    round: u64,
    first_paid: Option<u128>,
    second_paid: Option<u128>,
)
    requires
        bounty_of(pre, round) > 0,
        settles(pre, mid, round, first_paid),
        settles(mid, post, round, second_paid),
    ensures
        first_paid == Some(bounty_of(pre, round)),
        bounty_of(mid, round) == 0,
        second_paid is None,
{
}

/// The sum of a sequence of deposit amounts.
pub open spec fn sum_of(amounts: Seq<u128>) -> int
    decreases amounts.len(),
{
    if amounts.len() == 0 {
        0
    } else {
        amounts[0] + sum_of(amounts.drop_first())
    }
}

/// Deposit accumulation: across any sequence of deposits to the same round,
/// the round's balance grows by exactly the sum of the deposited amounts.
pub proof fn lemma_deposit_accumulation(
    ledgers: Seq<Seq<(u64, u128)>>,
    amounts: Seq<u128>,
    round: u64,
)
    requires
        ledgers.len() == amounts.len() + 1,
        forall|i: int| 0 <= i < amounts.len() ==> deposits(
            #[trigger] ledgers[i],
            ledgers[i + 1],
            round,
            amounts[i],
        ),
    ensures
        bounty_of(ledgers.last(), round) == bounty_of(ledgers[0], round) + sum_of(amounts),
    decreases amounts.len(),
{
    if amounts.len() > 0 {
        let tl = ledgers.drop_first();
        let ta = amounts.drop_first();
        assert forall|i: int| 0 <= i < ta.len() implies deposits(
            #[trigger] tl[i],
            tl[i + 1],
            round,
            ta[i],
        ) by {
            assert(tl[i] == ledgers[i + 1] && tl[i + 1] == ledgers[i + 2]);
            assert(deposits(ledgers[i + 1], ledgers[i + 2], round, amounts[i + 1]));
        }
        lemma_deposit_accumulation(tl, ta, round);
        assert(deposits(ledgers[0], ledgers[1], round, amounts[0]));
        assert(tl.last() == ledgers.last());
        assert(tl[0] == ledgers[1]);
    }
}

/// Round ordering: an archive grown from empty by recorded submissions holds
/// exactly the submitted rounds, so the numerically greatest recorded round
/// — the one the latest-beacon query reports — is the greatest round ever
/// successfully submitted, regardless of submission order.
pub proof fn lemma_archive_holds_submitted_rounds(
    archives: Seq<Seq<(u64, Vec<u8>)>>,
    rounds: Seq<u64>,
    rands: Seq<Seq<u8>>,
    x: u64,
)
    requires
        archives.len() == rounds.len() + 1,
        rands.len() == rounds.len(),
        archives[0].len() == 0,
        forall|i: int| 0 <= i < rounds.len() ==> records(
            #[trigger] archives[i],
            archives[i + 1],
            rounds[i],
            rands[i],
        ),
    ensures
        has_round(archives.last(), x) <==> rounds.contains(x),
    decreases rounds.len(),
{
    if rounds.len() == 0 {
        assert(!has_round(archives[0], x));
        assert(!rounds.contains(x));
    } else {
        let n = rounds.len() as int;
        let pa = archives.drop_last();
        let pr = rounds.drop_last();
        let ps = rands.drop_last();
        assert forall|i: int| 0 <= i < pr.len() implies records(
            #[trigger] pa[i],
            pa[i + 1],
            pr[i],
            ps[i],
        ) by {
            assert(pa[i] == archives[i] && pa[i + 1] == archives[i + 1]);
            assert(records(archives[i], archives[i + 1], rounds[i], rands[i]));
        }
        lemma_archive_holds_submitted_rounds(pa, pr, ps, x);
        assert(pa.last() == archives[n - 1]);
        assert(records(archives[n - 1], archives[n], rounds[n - 1], rands[n - 1]));
        assert(has_round(archives.last(), x) <==> has_round(archives[n - 1], x) || x == rounds[n
            - 1]);
        if rounds.contains(x) {
            let k = choose|k: int| 0 <= k < rounds.len() && rounds[k] == x;
            if k < n - 1 {
                assert(pr[k] == x);
                assert(pr.contains(x));
            }
            assert(has_round(archives.last(), x));
        }
        if has_round(archives.last(), x) {
            if pr.contains(x) {
                let k = choose|k: int| 0 <= k < pr.len() && pr[k] == x;
                assert(rounds[k] == x);
                assert(rounds.contains(x));
            } else {
                assert(x == rounds[n - 1]);
                assert(rounds.contains(x));
            }
        }
    }
}

/// Round ordering, stated on the reported beacon: the round that the
/// latest-beacon query answers with — recorded, and at least every recorded
/// round — is a submitted round and at least every submitted round.
pub proof fn lemma_latest_is_greatest_submission(
    archives: Seq<Seq<(u64, Vec<u8>)>>,
    rounds: Seq<u64>,
    rands: Seq<Seq<u8>>,
    latest_round: u64,
)
    requires
        archives.len() == rounds.len() + 1,
        rands.len() == rounds.len(),
        archives[0].len() == 0,
        forall|i: int| 0 <= i < rounds.len() ==> records(
            #[trigger] archives[i],
            archives[i + 1],
            rounds[i],
            rands[i],
        ),
        has_round(archives.last(), latest_round),
        forall|x: u64| has_round(archives.last(), x) ==> x <= latest_round,
    ensures
        rounds.contains(latest_round),
        forall|x: u64| rounds.contains(x) ==> x <= latest_round,
{
    lemma_archive_holds_submitted_rounds(archives, rounds, rands, latest_round);
    assert forall|x: u64| rounds.contains(x) implies x <= latest_round by {
        lemma_archive_holds_submitted_rounds(archives, rounds, rands, x);
    }
}

} // verus!
