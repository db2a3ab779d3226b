//! Contract state: the immutable configuration, the beacon archive and the
//! bounty ledger.
//!
//! Both stores are association lists over `u64` round numbers, kept strictly
//! sorted by round so that the numerically largest round is the last entry
//! and range listings come out ascending.

use vstd::prelude::*;

verus! {

/// The keys of the entries are strictly increasing, so every key occurs once.
pub open spec fn keys_sorted<V>(s: Seq<(u64, V)>) -> bool {
    forall|i: int, j: int| 0 <= i < j < s.len() ==> (#[trigger] s[i]).0 < (#[trigger] s[j]).0
}

/// Some entry carries round `r`.
pub open spec fn has_round<V>(s: Seq<(u64, V)>, r: u64) -> bool {
    exists|i: int| 0 <= i < s.len() && (#[trigger] s[i]).0 == r
}

/// The index of the entry carrying round `r` (meaningful when `has_round`).
pub open spec fn round_index<V>(s: Seq<(u64, V)>, r: u64) -> int {
    choose|i: int| 0 <= i < s.len() && (#[trigger] s[i]).0 == r
}

/// The value stored for round `r` (meaningful when `has_round`).
pub open spec fn value_at<V>(s: Seq<(u64, V)>, r: u64) -> V {
    s[round_index(s, r)].1
}

/// The value stored for round `r`, or `None` when the round is absent.
pub open spec fn spec_lookup<V>(s: Seq<(u64, V)>, r: u64) -> Option<V> {
    if has_round(s, r) {
        Some(value_at(s, r))
    } else {
        None
    }
}

/// In a sorted list an entry's index is determined by its round.
pub proof fn lemma_round_index_unique<V>(s: Seq<(u64, V)>, r: u64, i: int)
    requires
        keys_sorted(s),
        0 <= i < s.len(),
        s[i].0 == r,
    ensures
        has_round(s, r),
        round_index(s, r) == i,
        value_at(s, r) == s[i].1,
{
    assert(has_round(s, r));
    let j = round_index(s, r);
    if j < i {
        assert(s[j].0 < s[i].0);
    } else if j > i {
        assert(s[i].0 < s[j].0);
    }
}

/// The accumulated bounty for round `r`: the stored amount, zero when absent.
pub open spec fn bounty_of(s: Seq<(u64, u128)>, r: u64) -> u128 {
    if has_round(s, r) {
        value_at(s, r)
    } else {
        0
    }
}

/// Immutable (post-initialization) configuration: the trusted verification
/// key and the currency denomination accepted for bounty deposits.
pub struct Config {
    pub pubkey: Vec<u8>,
    pub bounty_denom: String,
}

/// Append-only, round-indexed store of verified randomness values.
pub struct BeaconArchive {
    entries: Vec<(u64, Vec<u8>)>,
}

impl BeaconArchive {
    /// The archive as a round-sorted sequence of entries.
    pub closed spec fn view(&self) -> Seq<(u64, Vec<u8>)> {
        self.entries@
    }

    pub open spec fn wf(&self) -> bool {
        keys_sorted(self@)
    }

    pub fn new() -> (a: Self)
        ensures
            a.wf(),
            a@.len() == 0,
    {
        BeaconArchive { entries: Vec::new() }
    }

    /// The stored randomness for an exact round; absence is not an error.
    pub fn get(&self, round: u64) -> (r: Option<&Vec<u8>>)
        requires
            self.wf(),
        ensures
            match r {
                Some(v) => has_round(self@, round) && *v == value_at(self@, round),
                None => !has_round(self@, round),
            },
    {
        let n = self.entries.len();
        let mut i: usize = 0;
        while i < n
            invariant
                n == self@.len(),
                0 <= i <= n,
                self.wf(),
                forall|j: int| 0 <= j < i ==> (#[trigger] self@[j]).0 != round,
            decreases n - i,
        {
            if self.entries[i].0 == round {
                proof {
                    lemma_round_index_unique(self@, round, i as int);
                }
                return Some(&self.entries[i].1);
            }
            i = i + 1;
        }
        None
    }

    /// Record the randomness for `round`: a fresh round is inserted in round
    /// order, an already-recorded round is overwritten in place.
    pub fn put(&mut self, round: u64, randomness: Vec<u8>)
        requires
            old(self).wf(),
        ensures
            final(self).wf(),
            records(old(self)@, final(self)@, round, randomness@),
    {
        let n = self.entries.len();
        let mut i: usize = 0;
        while i < n && self.entries[i].0 < round
            invariant
                n == self@.len(),
                0 <= i <= n,
                self.wf(),
                forall|j: int| 0 <= j < i ==> (#[trigger] self@[j]).0 < round,
            decreases n - i,
        {
            i = i + 1;
        }
        let ghost pre = self@;
        let ghost v = randomness;
        if i < n && self.entries[i].0 == round {
            self.entries.set(i, (round, randomness));
            proof {
                lemma_sorted_update(pre, self@, round, v, i as int);
            }
        } else {
            self.entries.insert(i, (round, randomness));
            proof {
                lemma_sorted_insert(pre, self@, round, v, i as int);
            }
        }
    }

    /// How many rounds are recorded.
    pub fn len(&self) -> (n: usize)
        ensures
            n == self@.len(),
    {
        self.entries.len()
    }

    /// The entry at position `i` in ascending round order.
    pub fn entry(&self, i: usize) -> (e: (u64, &Vec<u8>))
        requires
            i < self@.len(),
        ensures
            e.0 == self@[i as int].0,
            *e.1 == self@[i as int].1,
    {
        (self.entries[i].0, &self.entries[i].1)
    }

    /// The beacon with the numerically greatest round, or `None` when the
    /// archive is empty.
    pub fn latest(&self) -> (r: Option<(u64, &Vec<u8>)>)
        requires
            self.wf(),
        ensures
            match r {
                Some(p) => {
                    &&& has_round(self@, p.0)
                    &&& *p.1 == value_at(self@, p.0)
                    &&& forall|x: u64| has_round(self@, x) ==> x <= p.0
                },
                None => self@.len() == 0,
            },
    {
        let n = self.entries.len();
        if n == 0 {
            None
        } else {
            let last = &self.entries[n - 1];
            proof {
                lemma_round_index_unique(self@, last.0, n - 1 as int);
                assert forall|x: u64| has_round(self@, x) implies x <= last.0 by {
                    let k = round_index(self@, x);
                    if k < n - 1 {
                        assert(self@[k].0 < self@[n - 1 as int].0);
                    }
                }
            }
            Some((last.0, &last.1))
        }
    }
}

/// Mapping from round number to accumulated deposit amount. Entries are
/// created on first deposit and destroyed on payout; a round with no bounty
/// has no entry, so every stored amount is nonzero.
pub struct BountyLedger {
    entries: Vec<(u64, u128)>,
}

impl BountyLedger {
    /// The ledger as a round-sorted sequence of entries.
    pub closed spec fn view(&self) -> Seq<(u64, u128)> {
        self.entries@
    }

    /// Rounds strictly ascending, and only rounds with a nonzero accumulated
    /// bounty carry an entry.
    pub open spec fn wf(&self) -> bool {
        &&& keys_sorted(self@)
        &&& forall|i: int| 0 <= i < self@.len() ==> (#[trigger] self@[i]).1 > 0
    }

    pub fn new() -> (l: Self)
        ensures
            l.wf(),
            l@.len() == 0,
    {
        BountyLedger { entries: Vec::new() }
    }

    /// The accumulated amount for `round`, zero when no entry exists.
    pub fn get_bounty(&self, round: u64) -> (r: u128)
        requires
            self.wf(),
        ensures
            r == bounty_of(self@, round),
    {
        let n = self.entries.len();
        let mut i: usize = 0;
        while i < n
            invariant
                n == self@.len(),
                0 <= i <= n,
                self.wf(),
                forall|j: int| 0 <= j < i ==> (#[trigger] self@[j]).0 != round,
            decreases n - i,
        {
            if self.entries[i].0 == round {
                proof {
                    lemma_round_index_unique(self@, round, i as int);
                }
                return self.entries[i].1;
            }
            i = i + 1;
        }
        0
    }

    /// Store `amount` as the accumulated total for `round`. A zero total
    /// removes the round's entry: the ledger names only rounds with a
    /// nonzero accumulated bounty.
    pub fn set_bounty(&mut self, round: u64, amount: u128)
        requires
            old(self).wf(),
        ensures
            final(self).wf(),
            forall|x: u64| #[trigger] has_round(final(self)@, x) <==> if amount > 0 {
                has_round(old(self)@, x) || x == round
            } else {
                has_round(old(self)@, x) && x != round
            },
            bounty_of(final(self)@, round) == amount,
            forall|x: u64| x != round ==> #[trigger] bounty_of(final(self)@, x) == bounty_of(
                old(self)@,
                x,
            ),
    {
        if amount == 0 {
            self.clear_bounty(round);
            return ;
        }
        let n = self.entries.len();
        let mut i: usize = 0;
        while i < n && self.entries[i].0 < round
            invariant
                n == self@.len(),
                0 <= i <= n,
                self.wf(),
                forall|j: int| 0 <= j < i ==> (#[trigger] self@[j]).0 < round,
            decreases n - i,
        {
            i = i + 1;
        }
        let ghost pre = self@;
        if i < n && self.entries[i].0 == round {
            self.entries.set(i, (round, amount));
            proof {
                lemma_sorted_update(pre, self@, round, amount, i as int);
                assert forall|k: int| 0 <= k < self@.len() implies (#[trigger] self@[k]).1
                    > 0 by {
                    if k != i {
                        assert(self@[k] == pre[k]);
                    }
                }
            }
        } else {
            self.entries.insert(i, (round, amount));
            proof {
                lemma_sorted_insert(pre, self@, round, amount, i as int);
                assert forall|k: int| 0 <= k < self@.len() implies (#[trigger] self@[k]).1
                    > 0 by {
                    if k < i {
                        assert(self@[k] == pre[k]);
                    } else if k > i {
                        assert(self@[k] == pre[k - 1]);
                    }
                }
            }
        }
        proof {
            assert forall|x: u64| x != round implies #[trigger] bounty_of(self@, x) == bounty_of(
                pre,
                x,
            ) by {
                assert(spec_lookup(self@, x) == spec_lookup(pre, x));
            }
        }
    }

    /// Remove the entry for `round` entirely, resetting its total to zero.
    pub fn clear_bounty(&mut self, round: u64)
        requires
            old(self).wf(),
        ensures
            final(self).wf(),
            forall|x: u64| #[trigger] has_round(final(self)@, x) <==> has_round(old(self)@, x)
                && x != round,
            bounty_of(final(self)@, round) == 0,
            forall|x: u64| x != round ==> #[trigger] bounty_of(final(self)@, x) == bounty_of(
                old(self)@,
                x,
            ),
    {
        let n = self.entries.len();
        let mut i: usize = 0;
        while i < n && self.entries[i].0 != round
            invariant
                n == self@.len(),
                0 <= i <= n,
                self.wf(),
                forall|j: int| 0 <= j < i ==> (#[trigger] self@[j]).0 != round,
            decreases n - i,
        {
            i = i + 1;
        }
        if i < n {
            let ghost pre = self@;
            proof {
                lemma_round_index_unique(pre, round, i as int);
            }
            self.entries.remove(i);
            proof {
                lemma_sorted_remove(pre, self@, round, i as int);
                assert forall|x: u64| x != round implies #[trigger] bounty_of(self@, x)
                    == bounty_of(pre, x) by {
                    assert(spec_lookup(self@, x) == spec_lookup(pre, x));
                }
                assert forall|k: int| 0 <= k < self@.len() implies (#[trigger] self@[k]).1
                    > 0 by {
                    if k < i {
                        assert(self@[k] == pre[k]);
                    } else {
                        assert(self@[k] == pre[k + 1]);
                    }
                }
            }
        } else {
            proof {
                assert(!has_round(self@, round));
            }
        }
    }

    /// How many rounds currently carry a bounty entry.
    pub fn len(&self) -> (n: usize)
        ensures
            n == self@.len(),
    {
        self.entries.len()
    }

    /// The entry at position `i` in ascending round order.
    pub fn entry(&self, i: usize) -> (e: (u64, u128))
        requires
            i < self@.len(),
        ensures
            e == self@[i as int],
    {
        self.entries[i]
    }
}

/// The whole contract state: configuration, beacon archive and bounty ledger.
pub struct State {
    pub config: Config,
    pub beacons: BeaconArchive,
    pub bounties: BountyLedger,
}

impl State {
    pub open spec fn wf(&self) -> bool {
        self.beacons.wf() && self.bounties.wf()
    }
}

/// The ledger step of a deposit: round `round` now accumulates `amount` more
/// and every other round is untouched.
pub open spec fn deposits(
    pre: Seq<(u64, u128)>,
    post: Seq<(u64, u128)>,
    round: u64,
    amount: u128,
) -> bool {
    &&& bounty_of(post, round) == bounty_of(pre, round) + amount
    &&& forall|x: u64| x != round ==> #[trigger] bounty_of(post, x) == bounty_of(pre, x)
}

/// The ledger step of a settlement: the round's whole accumulated bounty, if
/// any, is paid out and its entry removed; every other round is untouched.
pub open spec fn settles(
    pre: Seq<(u64, u128)>,
    post: Seq<(u64, u128)>,
    round: u64,
    paid: Option<u128>,
) -> bool {
    &&& paid == if bounty_of(pre, round) > 0 {
        Some(bounty_of(pre, round))
    } else {
        None::<u128>
    }
    &&& bounty_of(post, round) == 0
    &&& !has_round(post, round)
    &&& forall|x: u64| x != round ==> #[trigger] bounty_of(post, x) == bounty_of(pre, x)
}

/// In a ledger whose stored amounts are all positive, a round that reads
/// zero has no entry at all.
pub proof fn lemma_zero_bounty_absent(s: Seq<(u64, u128)>, r: u64)
    requires
        forall|i: int| 0 <= i < s.len() ==> (#[trigger] s[i]).1 > 0,
        bounty_of(s, r) == 0,
    ensures
        !has_round(s, r),
{
    if has_round(s, r) {
        let i = round_index(s, r);
        assert(0 <= i < s.len() && s[i].0 == r);
        assert(s[i].1 > 0);
    }
}

/// The archive step of a settlement: round `round` now stores `rand` and
/// every other round is untouched.
pub open spec fn records(
    pre: Seq<(u64, Vec<u8>)>,
    post: Seq<(u64, Vec<u8>)>,
    round: u64,
    rand: Seq<u8>,
) -> bool {
    &&& forall|x: u64| #[trigger] has_round(post, x) <==> has_round(pre, x) || x == round
    &&& has_round(post, round) && value_at(post, round)@ == rand
    &&& forall|x: u64| x != round ==> #[trigger] spec_lookup(post, x) == spec_lookup(pre, x)
}

/// Overwriting the entry at the round's own index keeps the list sorted and
/// changes that round's value alone.
pub proof fn lemma_sorted_update<V>(pre: Seq<(u64, V)>, post: Seq<(u64, V)>, round: u64, v: V, i: int)
    requires
        keys_sorted(pre),
        0 <= i < pre.len(),
        pre[i].0 == round,
        post == pre.update(i, (round, v)),
    ensures
        keys_sorted(post),
        forall|x: u64| #[trigger] has_round(post, x) <==> has_round(pre, x) || x == round,
        has_round(post, round) && value_at(post, round) == v,
        forall|x: u64| x != round ==> #[trigger] spec_lookup(post, x) == spec_lookup(pre, x),
{
    assert(keys_sorted(post));
    lemma_round_index_unique(post, round, i);
    assert forall|x: u64| #[trigger] has_round(post, x) implies has_round(pre, x) || x == round by {
        let k = round_index(post, x);
        assert(pre[k].0 == x || k == i);
    }
    assert forall|x: u64| has_round(pre, x) || x == round implies #[trigger] has_round(post, x) by {
        if has_round(pre, x) {
            let k = round_index(pre, x);
            if k == i {
                assert(post[i].0 == x);
            } else {
                assert(post[k].0 == x);
            }
        } else {
            assert(post[i].0 == x);
        }
    }
    assert forall|x: u64| x != round implies #[trigger] spec_lookup(post, x) == spec_lookup(pre, x) by {
        if has_round(pre, x) {
            let k = round_index(pre, x);
            lemma_round_index_unique(pre, x, k);
            assert(k != i);
            assert(post[k].0 == x);
            lemma_round_index_unique(post, x, k);
        } else {
            assert(!has_round(post, x));
        }
    }
}

/// Inserting a fresh round at the position that keeps keys increasing leaves
/// the list sorted and every other round's value unchanged.
pub proof fn lemma_sorted_insert<V>(pre: Seq<(u64, V)>, post: Seq<(u64, V)>, round: u64, v: V, i: int)
    requires
        keys_sorted(pre),
        0 <= i <= pre.len(),
        forall|j: int| 0 <= j < i ==> (#[trigger] pre[j]).0 < round,
        i < pre.len() ==> pre[i].0 > round,
        post == pre.insert(i, (round, v)),
    ensures
        keys_sorted(post),
        forall|x: u64| #[trigger] has_round(post, x) <==> has_round(pre, x) || x == round,
        has_round(post, round) && value_at(post, round) == v,
        forall|x: u64| x != round ==> #[trigger] spec_lookup(post, x) == spec_lookup(pre, x),
{
    assert forall|p: int, q: int| 0 <= p < q < post.len() implies (#[trigger] post[p]).0
        < (#[trigger] post[q]).0 by {
        if q < i {
            assert(post[p] == pre[p] && post[q] == pre[q]);
        } else if p < i && q == i {
            assert(post[p] == pre[p]);
            assert(pre[p].0 < round);
        } else if p < i && q > i {
            assert(post[p] == pre[p] && post[q] == pre[q - 1]);
            assert(pre[p].0 < round);
            if q - 1 == i {
                assert(pre[i].0 > round);
            } else {
                assert(pre[i].0 < pre[q - 1].0);
            }
        } else if p == i {
            assert(post[q] == pre[q - 1]);
            if q - 1 == i {
                assert(pre[i].0 > round);
            } else {
                assert(pre[i].0 < pre[q - 1].0);
            }
        } else {
            assert(post[p] == pre[p - 1] && post[q] == pre[q - 1]);
        }
    }
    lemma_round_index_unique(post, round, i);
    assert forall|x: u64| #[trigger] has_round(post, x) implies has_round(pre, x) || x == round by {
        let k = round_index(post, x);
        if k < i {
            assert(pre[k].0 == x);
        } else if k > i {
            assert(pre[k - 1].0 == x);
        }
    }
    assert forall|x: u64| has_round(pre, x) || x == round implies #[trigger] has_round(post, x) by {
        if has_round(pre, x) {
            let k = round_index(pre, x);
            if k < i {
                assert(post[k].0 == x);
            } else {
                assert(post[k + 1].0 == x);
            }
        } else {
            assert(post[i].0 == x);
        }
    }
    assert forall|x: u64| x != round implies #[trigger] spec_lookup(post, x) == spec_lookup(pre, x) by {
        if has_round(pre, x) {
            let k = round_index(pre, x);
            lemma_round_index_unique(pre, x, k);
            if k < i {
                assert(post[k].0 == x);
                lemma_round_index_unique(post, x, k);
            } else {
                assert(post[k + 1].0 == x);
                lemma_round_index_unique(post, x, k + 1);
            }
        } else {
            if has_round(post, x) {
                let k = round_index(post, x);
                if k < i {
                    assert(pre[k].0 == x);
                } else if k > i {
                    assert(pre[k - 1].0 == x);
                }
                assert(false);
            }
        }
    }
}

/// Removing the entry at the round's own index keeps the list sorted and
/// leaves every other round's value unchanged.
pub proof fn lemma_sorted_remove<V>(pre: Seq<(u64, V)>, post: Seq<(u64, V)>, round: u64, i: int)
    requires
        keys_sorted(pre),
        0 <= i < pre.len(),
        pre[i].0 == round,
        post == pre.remove(i),
    ensures
        keys_sorted(post),
        forall|x: u64| #[trigger] has_round(post, x) <==> has_round(pre, x) && x != round,
        forall|x: u64| x != round ==> #[trigger] spec_lookup(post, x) == spec_lookup(pre, x),
{
    assert forall|p: int, q: int| 0 <= p < q < post.len() implies (#[trigger] post[p]).0
        < (#[trigger] post[q]).0 by {
        if p < i && q < i {
            assert(post[p] == pre[p] && post[q] == pre[q]);
        } else if p < i {
            assert(post[p] == pre[p] && post[q] == pre[q + 1]);
        } else {
            assert(post[p] == pre[p + 1] && post[q] == pre[q + 1]);
        }
    }
    assert forall|x: u64| #[trigger] has_round(post, x) implies has_round(pre, x) && x != round by {
        let k = round_index(post, x);
        if k < i {
            assert(pre[k].0 == x);
            lemma_round_index_unique(pre, x, k);
        } else {
            assert(pre[k + 1].0 == x);
            lemma_round_index_unique(pre, x, k + 1);
        }
    }
    assert forall|x: u64| has_round(pre, x) && x != round implies #[trigger] has_round(post, x) by {
        let k = round_index(pre, x);
        lemma_round_index_unique(pre, x, k);
        assert(k != i);
        if k < i {
            assert(post[k].0 == x);
        } else {
            assert(post[k - 1].0 == x);
        }
    }
    assert forall|x: u64| x != round implies #[trigger] spec_lookup(post, x) == spec_lookup(pre, x) by {
        if has_round(pre, x) {
            let k = round_index(pre, x);
            lemma_round_index_unique(pre, x, k);
            assert(k != i);
            if k < i {
                assert(post[k].0 == x);
                lemma_round_index_unique(post, x, k);
            } else {
                assert(post[k - 1].0 == x);
                lemma_round_index_unique(post, x, k - 1);
            }
        }
    }
}

} // verus!
