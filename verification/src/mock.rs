//! In-memory collaborators for exercising the driver: a feed that yields a
//! fixed list of outcomes, a submitter that records every hash it is given,
//! and one that refuses every submission.

use vstd::prelude::*;

use crate::machine::{BrokerReceive, FeedError, FeedItem, RollupClaim};
use crate::primitives::Hash256;
use crate::tx_sender::{SubmissionError, TxSender as TxSenderContract};

verus! {

/// A feed that yields a fixed list of outcomes, first to last, and then
/// reports "no claim available" forever.
pub struct Broker {
    items: Vec<FeedItem>,
    pos: usize,
}

impl Broker {
    /// A feed that yields exactly `next_claims`, in order, without failing.
    pub fn new(next_claims: Vec<RollupClaim>) -> (r: Broker)
        ensures
            r.pending().len() == next_claims@.len(),
            forall|i: int|
                0 <= i < next_claims@.len() ==> r.pending()[i] == FeedItem::Claim(
                    next_claims@[i],
                ),
    {
        let mut items: Vec<FeedItem> = Vec::new();
        let mut idx: usize = 0;
        while idx < next_claims.len()
            invariant
                0 <= idx <= next_claims@.len(),
                items@.len() == idx,
                forall|i: int|
                    0 <= i < idx ==> items@[i] == FeedItem::Claim(next_claims@[i]),
            decreases next_claims@.len() - idx,
        {
            items.push(FeedItem::Claim(next_claims[idx]));
            idx = idx + 1;
        }
        let r = Broker { items, pos: 0 };
        proof {
            assert(r.pending() =~= items@);
        }
        r
    }

    /// A feed that yields exactly `items`, failures included, in order.
    pub fn from_items(items: Vec<FeedItem>) -> (r: Broker)
        ensures
            r.pending() == items@,
    {
        let ghost view = items@;
        let r = Broker { items, pos: 0 };
        proof {
            assert(r.pending() =~= view);
        }
        r
    }

    /// How many outcomes this feed has still to yield.
    pub fn remaining(&self) -> (n: usize)
        ensures
            n == self.pending().len(),
    {
        if self.pos <= self.items.len() {
            self.items.len() - self.pos
        } else {
            0
        }
    }
}

impl BrokerReceive for Broker {
    closed spec fn pending(&self) -> Seq<FeedItem> {
        if self.pos <= self.items@.len() {
            self.items@.skip(self.pos as int)
        } else {
            Seq::empty()
        }
    }

    fn next_claim(&mut self) -> (r: Result<Option<RollupClaim>, FeedError>) {
        if self.pos < self.items.len() {
            let item = self.items[self.pos];
            proof {
                assert(old(self).pending()[0] == self.items@[self.pos as int]);
                assert(self.items@.skip(self.pos as int).drop_first() =~= self.items@.skip(
                    self.pos as int + 1,
                ));
            }
            self.pos = self.pos + 1;
            match item {
                FeedItem::Claim(c) => Ok(Some(c)),
                FeedItem::Fail(e) => Err(e),
            }
        } else {
            Ok(None)
        }
    }
}

/// A submitter that performs no transaction and records every hash it is
/// asked to submit, in order.
#[derive(Debug)]
pub struct TxSender {
    sent_txs: Vec<Hash256>,
}

impl TxSender {
    /// A fresh recording submitter with nothing submitted yet.
    pub fn new() -> (r: TxSender)
        ensures
            r.sent().len() == 0,
    {
        TxSender { sent_txs: Vec::new() }
    }

    /// How many hashes have been submitted through this capability.
    pub fn count(&self) -> (n: usize)
        ensures
            n == self.sent().len(),
    {
        self.sent_txs.len()
    }

    /// The `i`-th hash submitted through this capability.
    pub fn sent_at(&self, i: usize) -> (h: Hash256)
        requires
            i < self.sent().len(),
        ensures
            h == self.sent()[i as int],
    {
        self.sent_txs[i]
    }
}

impl TxSenderContract for TxSender {
    closed spec fn sent(&self) -> Seq<Hash256> {
        self.sent_txs@
    }

    fn send_claim_tx(self, claim_hash: &Hash256) -> (r: Result<TxSender, SubmissionError>) {
        let mut next = self;
        next.sent_txs.push(*claim_hash);
        Ok(next)
    }
}

/// A submitter whose every submission fails with the same error, standing in
/// for a capability that has lost its connection.
#[derive(Debug)]
pub struct FailingTxSender {
    pub error: SubmissionError,
}

impl TxSenderContract for FailingTxSender {
    closed spec fn sent(&self) -> Seq<Hash256> {
        Seq::empty()
    }

    fn send_claim_tx(self, claim_hash: &Hash256) -> (r: Result<
        FailingTxSender,
        SubmissionError,
    >) {
        Err(self.error)
    }
}

} // verus!
