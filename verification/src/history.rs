//! The immutable on-chain history snapshot: for each application address, the
//! list of claims already confirmed on-chain. The only question the driver
//! asks of it is how many claims are confirmed for one address.

use vstd::prelude::*;

use crate::primitives::{Address, Hash256};

verus! {

/// One claim already confirmed on-chain, as recorded by the history fold.
/// The driver never reads these fields; only the count of confirmed claims
/// per address matters to reconciliation.
#[derive(Clone, Debug)]
pub struct Claim {
    pub epoch_hash: Hash256,
    pub start_input_index: u64,
    pub end_input_index: u64,
    pub claim_timestamp: u64,
}

/// The confirmed claims of one application, in confirmation order.
#[derive(Clone, Debug)]
pub struct DAppClaims {
    pub claims: Vec<Claim>,
}

/// A point-in-time view of the confirmed claims of every known application,
/// keyed by application address. Read-only for the driver.
#[derive(Clone, Debug)]
pub struct History {
    pub history_address: Address,
    pub dapp_claims: Vec<(Address, DAppClaims)>,
}

/// The number of claims confirmed for `addr` in `entries`: the claim count of
/// the first entry whose address is `addr`, and 0 when no entry matches.
pub open spec fn confirmed_count(entries: Seq<(Address, DAppClaims)>, addr: Address) -> nat
    decreases entries.len(),
{
    if entries.len() == 0 {
        0
    } else if entries[0].0 == addr {
        entries[0].1.claims@.len()
    } else {
        confirmed_count(entries.drop_first(), addr)
    }
}

impl History {
    /// The number of claims this snapshot confirms for `addr` (0 if the
    /// address has no entry).
    pub open spec fn confirmed_for(&self, addr: Address) -> nat {
        confirmed_count(self.dapp_claims@, addr)
    }
}

} // verus!
