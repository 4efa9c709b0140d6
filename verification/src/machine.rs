//! The claim feed: an external, ordered source of locally computed claims,
//! polled one at a time. A poll yields a claim, "nothing more right now"
//! (which ends a pass cleanly), or an error (which aborts it).

use vstd::prelude::*;

use crate::primitives::Hash256;

verus! {

/// A locally computed rollup claim awaiting submission: `number` says how
/// many claims precede it for its application, `hash` is the opaque payload
/// handed to the submitter.
#[derive(Clone, Copy, Debug, PartialEq, Eq, Structural)]
pub struct RollupClaim {
    pub hash: Hash256,
    pub number: u64,
}

/// The error a feed poll can end in.
#[derive(Clone, Copy, Debug, PartialEq, Eq, Structural)]
pub struct FeedError {
    pub code: u64,
}

/// One outcome a pending feed poll can have: a claim, or a failure. The end
/// of the currently available data is not an item; it is the feed running
/// out of pending items.
#[derive(Clone, Copy, Debug, PartialEq, Eq, Structural)]
pub enum FeedItem {
    Claim(RollupClaim),
    Fail(FeedError),
}

/// A pull-based claim feed. `pending` is the ghost sequence of outcomes the
/// feed will yield, in order, during the current pass; polling consumes its
/// first element, and an empty `pending` means the feed reports "no claim
/// currently available" and stays as it is.
pub trait BrokerReceive: Sized {
    /// The outcomes still to be yielded in this pass, in yield order.
    spec fn pending(&self) -> Seq<FeedItem>;

    /// Poll the feed once: `Ok(Some(..))` hands out the next claim,
    /// `Ok(None)` says nothing more is available right now, `Err(..)`
    /// reports a feed failure. Either way the yielded outcome is consumed.
    fn next_claim(&mut self) -> (r: Result<Option<RollupClaim>, FeedError>)
        ensures
            old(self).pending().len() == 0 ==> {
                &&& r == Ok::<Option<RollupClaim>, FeedError>(None)
                &&& final(self).pending() == old(self).pending()
            },
            old(self).pending().len() > 0 ==> {
                &&& final(self).pending() == old(self).pending().drop_first()
                &&& (match old(self).pending()[0] {
                    FeedItem::Claim(c) => r == Ok::<Option<RollupClaim>, FeedError>(Some(c)),
                    FeedItem::Fail(e) => r == Err::<Option<RollupClaim>, FeedError>(e),
                })
            },
    ;
}

} // verus!
