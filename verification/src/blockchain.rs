//! The reconciliation driver. Given one history snapshot, it drains the claim
//! feed and submits, in feed order, exactly the claims whose number exceeds
//! the count of claims the snapshot already confirms for the application.

use vstd::prelude::*;

use crate::history::{confirmed_count, History};
use crate::machine::{BrokerReceive, FeedError, FeedItem};
use crate::primitives::{Address, Hash256};
use crate::tx_sender::{SubmissionError, TxSender};

verus! {

/// Why a reconciliation pass aborted: the feed failed to produce the next
/// claim, or the capability failed to submit one.
#[derive(Clone, Copy, Debug, PartialEq, Eq, Structural)]
pub enum DriverError {
    Feed(FeedError),
    Submission(SubmissionError),
}

/// Whether `item` is a claim the driver must submit against threshold `t`:
/// a claim whose number exceeds the count of already-confirmed claims.
pub open spec fn qualifies(item: FeedItem, t: nat) -> bool {
    item matches FeedItem::Claim(c) && c.number > t
}

/// All outcomes in `items` are claims: the feed never fails in them.
pub open spec fn no_fail(items: Seq<FeedItem>) -> bool {
    forall|i: int| 0 <= i < items.len() ==> #[trigger] items[i] is Claim
}

/// The hashes of the claims in `items` whose number exceeds `t`, in feed
/// order: what one successful pass over `items` submits.
pub open spec fn new_hashes(items: Seq<FeedItem>, t: nat) -> Seq<Hash256>
    decreases items.len(),
{
    if items.len() == 0 {
        Seq::empty()
    } else {
        let init = new_hashes(items.drop_last(), t);
        match items.last() {
            FeedItem::Claim(c) => if c.number > t {
                init.push(c.hash)
            } else {
                init
            },
            FeedItem::Fail(_) => init,
        }
    }
}

/// Position `i` holds the first feed failure in `items`.
pub open spec fn first_fail_at(items: Seq<FeedItem>, i: int) -> bool {
    &&& 0 <= i < items.len()
    &&& items[i] is Fail
    &&& no_fail(items.take(i))
}

/// A pass over `items` with threshold `t` stopped on a submission failure
/// after consuming exactly `j` outcomes: all of them were claims, and the
/// last one consumed was the qualifying claim whose submission failed.
pub open spec fn aborted_submission_at(items: Seq<FeedItem>, t: nat, j: int) -> bool {
    &&& 0 < j <= items.len()
    &&& no_fail(items.take(j))
    &&& qualifies(items[j - 1], t)
}

/// The reconciliation driver for one application address.
#[derive(Clone, Copy, Debug)]
pub struct BlockchainDriver {
    pub dapp_address: Address,
}

impl BlockchainDriver {
    /// A driver for the application at `dapp_address`.
    pub fn new(dapp_address: Address) -> (r: Self)
        ensures
            r.dapp_address == dapp_address,
    {
        Self { dapp_address }
    }

    /// One reconciliation pass: drain `broker` and submit, through
    /// `tx_sender` and in feed order, every claim whose number exceeds the
    /// count of claims `history` already confirms for this driver's address.
    ///
    /// On success the feed was drained without failure, and the returned
    /// capability has submitted exactly the qualifying claims' hashes, in
    /// order, after whatever it had submitted before; if nothing qualified
    /// and the feed did not fail, the pass returns the capability unchanged.
    /// A feed failure aborts the pass with that failure's error, the feed
    /// having been consumed up to and including it; a submission failure
    /// aborts it after a fail-free prefix of the feed whose last outcome is
    /// the qualifying claim that could not be submitted.
    pub fn react<B: BrokerReceive, TS: TxSender>(
        &self,
        history: &History,
        broker: &mut B,
        tx_sender: TS,
    ) -> (r: Result<TS, DriverError>)
        ensures
            r matches Ok(next) ==> {
                &&& no_fail(old(broker).pending())
                &&& next.sent() == tx_sender.sent() + new_hashes(
                    old(broker).pending(),
                    history.confirmed_for(self.dapp_address),
                )
                &&& final(broker).pending().len() == 0
            },
            (no_fail(old(broker).pending()) && new_hashes(
                old(broker).pending(),
                history.confirmed_for(self.dapp_address),
            ).len() == 0) ==> r == Ok::<TS, DriverError>(tx_sender),
            r matches Err(DriverError::Feed(e)) ==> exists|i: int|
                {
                    &&& #[trigger] first_fail_at(old(broker).pending(), i)
                    &&& old(broker).pending()[i] == FeedItem::Fail(e)
                    &&& final(broker).pending() == old(broker).pending().skip(i + 1)
                },
            r matches Err(DriverError::Submission(_)) ==> exists|j: int|
                {
                    &&& #[trigger] aborted_submission_at(
                        old(broker).pending(),
                        history.confirmed_for(self.dapp_address),
                        j,
                    )
                    &&& final(broker).pending() == old(broker).pending().skip(j)
                },
    {
        let threshold = claims_sent(history, &self.dapp_address);
        let ghost t = history.confirmed_for(self.dapp_address);
        let ghost pend = broker.pending();
        let mut sender = tx_sender;
        let ghost sender0 = sender;
        let ghost s0 = sender.sent();
        let ghost mut i: int = 0;
        proof {
            assert(pend.skip(0) =~= pend);
            assert(pend.take(0) =~= Seq::<FeedItem>::empty());
        }
        loop
            invariant
                0 <= i <= pend.len(),
                threshold == t,
                t == history.confirmed_for(self.dapp_address),
                pend == old(broker).pending(),
                broker.pending() == pend.skip(i),
                no_fail(pend.take(i)),
                s0 == tx_sender.sent(),
                sender0 == tx_sender,
                sender.sent() == s0 + new_hashes(pend.take(i), t),
                new_hashes(pend.take(i), t).len() == 0 ==> sender == sender0,
            decreases pend.len() - i,
        {
            let next = broker.next_claim();
            match next {
                Ok(Some(claim)) => {
                    proof {
                        assert(pend.skip(i)[0] == pend[i]);
                        assert(pend.skip(i).drop_first() =~= pend.skip(i + 1));
                        assert(pend.take(i + 1).drop_last() =~= pend.take(i));
                        assert(pend.take(i + 1).last() == pend[i]);
                        assert(no_fail(pend.take(i + 1)));
                    }
                    if claim.number > threshold {
                        match sender.send_claim_tx(&claim.hash) {
                            Ok(next_sender) => {
                                proof {
                                    assert(s0 + new_hashes(pend.take(i + 1), t)
                                        =~= (s0 + new_hashes(pend.take(i), t)).push(claim.hash));
                                }
                                sender = next_sender;
                                proof {
                                    i = i + 1;
                                }
                            },
                            Err(e) => {
                                proof {
                                    assert(aborted_submission_at(pend, t, i + 1));
                                    lemma_qualifying_claim_submits(pend, t, i);
                                }
                                return Err(DriverError::Submission(e));
                            },
                        }
                    } else {
                        proof {
                            assert(new_hashes(pend.take(i + 1), t) == new_hashes(
                                pend.take(i),
                                t,
                            ));
                            i = i + 1;
                        }
                    }
                },
                Ok(None) => {
                    proof {
                        assert(pend.skip(i).len() == 0);
                        assert(i == pend.len());
                        assert(pend.take(i) =~= pend);
                    }
                    return Ok(sender);
                },
                Err(e) => {
                    proof {
                        assert(pend.skip(i)[0] == pend[i]);
                        assert(first_fail_at(pend, i));
                        assert(pend.skip(i).drop_first() =~= pend.skip(i + 1));
                    }
                    return Err(DriverError::Feed(e));
                },
            }
        }
    }
}

/// `items` holds, at some position, a qualifying claim with hash `h`.
pub open spec fn has_qualifying_hash(items: Seq<FeedItem>, t: nat, h: Hash256) -> bool {
    exists|k: int|
        0 <= k < items.len() && #[trigger] qualifies(items[k], t) && items[k]->Claim_0.hash == h
}

/// The hashes a successful pass submits are exactly those of the feed's
/// claims whose number exceeds the threshold: no confirmed claim is
/// resubmitted, and no unconfirmed claim is dropped. (`new_hashes` keeps them
/// in feed order by construction.)
pub proof fn lemma_submitted_exactly_qualifying(items: Seq<FeedItem>, t: nat)
    ensures
        forall|h: Hash256| #[trigger]
            new_hashes(items, t).contains(h) <==> has_qualifying_hash(items, t, h),
    decreases items.len(),
{
    if items.len() == 0 {
        assert forall|h: Hash256| !(#[trigger] new_hashes(items, t).contains(h))
            && !has_qualifying_hash(items, t, h) by {
            assert(new_hashes(items, t).len() == 0);
        }
    } else {
        let prefix = items.drop_last();
        let init = new_hashes(prefix, t);
        let last = items.last();
        lemma_submitted_exactly_qualifying(prefix, t);
        assert forall|h: Hash256| #[trigger]
            new_hashes(items, t).contains(h) <==> has_qualifying_hash(items, t, h) by {
            if new_hashes(items, t).contains(h) {
                if qualifies(last, t) && h == last->Claim_0.hash {
                    assert(qualifies(items[items.len() - 1], t));
                    assert(has_qualifying_hash(items, t, h));
                } else {
                    if qualifies(last, t) {
                        let k = choose|k: int|
                            0 <= k < init.push(last->Claim_0.hash).len()
                                && init.push(last->Claim_0.hash)[k] == h;
                        assert(init[k] == h);
                    }
                    assert(init.contains(h));
                    let k = choose|k: int|
                        0 <= k < prefix.len() && #[trigger] qualifies(prefix[k], t)
                            && prefix[k]->Claim_0.hash == h;
                    assert(prefix[k] == items[k]);
                    assert(qualifies(items[k], t));
                    assert(has_qualifying_hash(items, t, h));
                }
            }
            if has_qualifying_hash(items, t, h) {
                let k = choose|k: int|
                    0 <= k < items.len() && #[trigger] qualifies(items[k], t)
                        && items[k]->Claim_0.hash == h;
                if k == items.len() - 1 {
                    assert(new_hashes(items, t) == init.push(h));
                    assert(init.push(h)[init.len() as int] == h);
                    assert(new_hashes(items, t).contains(h));
                } else {
                    assert(prefix[k] == items[k]);
                    assert(qualifies(prefix[k], t));
                    assert(has_qualifying_hash(prefix, t, h));
                    assert(init.contains(h));
                    let m = choose|m: int| 0 <= m < init.len() && init[m] == h;
                    assert(new_hashes(items, t)[m] == h);
                    assert(new_hashes(items, t).contains(h));
                }
            }
        }
    }
}

/// How many of the outcomes in `items` are claims whose number exceeds `t`.
pub open spec fn qualifying_count(items: Seq<FeedItem>, t: nat) -> nat
    decreases items.len(),
{
    if items.len() == 0 {
        0
    } else {
        qualifying_count(items.drop_last(), t) + if qualifies(items.last(), t) {
            1 as nat
        } else {
            0 as nat
        }
    }
}

/// A successful pass submits one hash per qualifying claim, no more and no
/// fewer: its submission count matches the count of claims above the
/// threshold exactly.
pub proof fn lemma_submission_count(items: Seq<FeedItem>, t: nat)
    ensures
        new_hashes(items, t).len() == qualifying_count(items, t),
    decreases items.len(),
{
    if items.len() > 0 {
        lemma_submission_count(items.drop_last(), t);
    }
}

/// An empty feed never fails and qualifies nothing: by the pass contract,
/// reconciliation over it submits nothing and returns the capability
/// unchanged.
pub proof fn lemma_empty_feed_submits_nothing(t: nat)
    ensures
        no_fail(Seq::<FeedItem>::empty()),
        new_hashes(Seq::<FeedItem>::empty(), t).len() == 0,
{
}

/// Every feed outcome is a claim already at or below the threshold: a pass
/// over it submits nothing.
pub proof fn lemma_all_confirmed_no_submissions(items: Seq<FeedItem>, t: nat)
    requires
        forall|k: int| 0 <= k < items.len() ==> !(#[trigger] qualifies(items[k], t)),
    ensures
        new_hashes(items, t).len() == 0,
    decreases items.len(),
{
    if items.len() > 0 {
        let prefix = items.drop_last();
        assert forall|k: int| 0 <= k < prefix.len() implies !(#[trigger] qualifies(
            prefix[k],
            t,
        )) by {
            assert(prefix[k] == items[k]);
        }
        lemma_all_confirmed_no_submissions(prefix, t);
        assert(!qualifies(items[items.len() - 1], t));
    }
}

/// Re-running a pass over the same feed with a snapshot that has advanced
/// over everything the first pass submitted resubmits nothing: each claim
/// was either already at or below the old threshold `t1`, or is now covered
/// by the new threshold `t2`.
pub proof fn lemma_rerun_submits_nothing(items: Seq<FeedItem>, t1: nat, t2: nat)
    requires
        t1 <= t2,
        forall|k: int|
            0 <= k < items.len() ==> (#[trigger] qualifies(items[k], t1)
                ==> items[k]->Claim_0.number <= t2),
    ensures
        new_hashes(items, t2).len() == 0,
{
    assert forall|k: int| 0 <= k < items.len() implies !(#[trigger] qualifies(items[k], t2)) by {
        if qualifies(items[k], t2) {
            assert(qualifies(items[k], t1));
        }
    }
    lemma_all_confirmed_no_submissions(items, t2);
}

/// The position of the first feed failure is unique: a pass aborted by the
/// feed returns the one error that stopped it.
pub proof fn lemma_first_fail_unique(items: Seq<FeedItem>, i: int, j: int)
    requires
        first_fail_at(items, i),
        first_fail_at(items, j),
    ensures
        i == j,
{
    if i < j {
        assert(items.take(j)[i] == items[i]);
    }
    if j < i {
        assert(items.take(i)[j] == items[j]);
    }
}

/// A feed that holds a qualifying claim anywhere makes a successful pass
/// submit something: `new_hashes` cannot be empty then.
pub proof fn lemma_qualifying_claim_submits(items: Seq<FeedItem>, t: nat, k: int)
    requires
        0 <= k < items.len(),
        qualifies(items[k], t),
    ensures
        new_hashes(items, t).len() > 0,
    decreases items.len(),
{
    if k == items.len() - 1 {
    } else {
        assert(items.drop_last()[k] == items[k]);
        lemma_qualifying_claim_submits(items.drop_last(), t, k);
    }
}

/// The number of claims already confirmed on-chain for `dapp_address` at
/// snapshot time: the submission threshold of a pass.
pub fn claims_sent(history: &History, dapp_address: &Address) -> (n: u64)
    ensures
        n == history.confirmed_for(*dapp_address),
{
    let entries = &history.dapp_claims;
    let ghost all = entries@;
    let mut idx: usize = 0;
    proof {
        assert(all.skip(0) =~= all);
    }
    loop
        invariant
            0 <= idx <= all.len(),
            entries@ == all,
            all == history.dapp_claims@,
            confirmed_count(all, *dapp_address) == confirmed_count(
                all.skip(idx as int),
                *dapp_address,
            ),
        decreases all.len() - idx,
    {
        if idx < entries.len() {
            let entry = &entries[idx];
            proof {
                assert(all.skip(idx as int)[0] == all[idx as int]);
            }
            if entry.0 == *dapp_address {
                let count = entry.1.claims.len();
                proof {
                    assert(confirmed_count(all.skip(idx as int), *dapp_address)
                        == all[idx as int].1.claims@.len());
                }
                return count as u64;
            }
            proof {
                assert(all.skip(idx as int).drop_first() =~= all.skip(idx as int + 1));
            }
            idx = idx + 1;
        } else {
            proof {
                assert(all.skip(idx as int).len() == 0);
                assert(confirmed_count(all.skip(idx as int), *dapp_address) == 0);
            }
            return 0;
        }
    }
}

} // verus!
