//! Plain-value stand-ins for the chain-level identifier types: a 160-bit
//! application address and a 256-bit content hash, each held as fixed-width
//! integers so that equality in contracts is structural field equality.

use vstd::prelude::*;

verus! {

/// A 160-bit application (dapp) address, split into a 32-bit high part and a
/// 128-bit low part.
#[derive(Clone, Copy, Debug, PartialEq, Eq, Structural)]
pub struct Address {
    pub hi: u32,
    pub lo: u128,
}

/// A 256-bit content hash, split into two 128-bit halves. Used both for the
/// epoch hash recorded in the history and for the payload of a claim
/// submission.
#[derive(Clone, Copy, Debug, PartialEq, Eq, Structural)]
pub struct Hash256 {
    pub hi: u128,
    pub lo: u128,
}

} // verus!
