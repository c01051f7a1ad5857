//! What an operation is told of the call that it serves.

use vstd::prelude::*;

verus! {

/// The facts of one call, as the host reports them.
#[derive(Clone, Debug, PartialEq, Eq)]
pub struct CallContext {
    /// The account that made the call.
    pub predecessor_id: String,
    /// The account that signed the transaction.
    pub signer_id: String,
    /// The deposit attached to the call, in smallest units.
    pub attached_deposit: u128,
    /// The time of the block, in nanoseconds.
    pub block_timestamp: u64,
}

} // verus!
