//! One validator of the pool.

use crate::types::{BlockHash, NodeId, SocketAddress};
use vstd::prelude::*;

verus! {

/// A validator that awaits admission to the pool or serves in it. Whether it
/// is pending or active is not recorded here: it follows from the table that
/// holds the entry.
#[derive(Clone, Copy, Debug, PartialEq, Eq)]
pub struct ValidatorEntry {
    /// The validator's identity.
    pub node_id: NodeId,
    /// The address the validator is reached at.
    pub ip: SocketAddress,
    /// The proof-of-work block that marks the validator's admission.
    pub start_pow_block: BlockHash,
    /// The share of block production allocated to the validator.
    pub total_allocated: u64,
}

} // verus!
