//! The transaction submitter: a linear capability that publishes one claim
//! hash on-chain per call and hands back the advanced capability.

use vstd::prelude::*;

use crate::primitives::Hash256;

verus! {

/// The error a submission can end in. When it does, the capability is lost
/// with it: its internal state may have advanced up to the failure.
#[derive(Clone, Copy, Debug, PartialEq, Eq, Structural)]
pub struct SubmissionError {
    pub code: u64,
}

/// A linear submission capability. `sent` is the ghost sequence of claim
/// hashes submitted through it so far, in submission order; a successful
/// submission appends exactly the hash it was given.
pub trait TxSender: Sized {
    /// The hashes submitted through this capability so far, in order.
    spec fn sent(&self) -> Seq<Hash256>;

    /// Submit one claim hash, consuming the capability; on success the
    /// returned capability records the submission and nothing else.
    fn send_claim_tx(self, claim_hash: &Hash256) -> (r: Result<Self, SubmissionError>)
        ensures
            r matches Ok(next) ==> next.sent() == self.sent().push(*claim_hash),
    ;
}

} // verus!
