//! Where the receiving side of a block propagation stands.

use crate::types::ShortHash;
use vstd::prelude::*;

verus! {

/// The state of the receiver of a propagated block.
#[derive(Clone, Copy, Debug, PartialEq, Eq)]
pub enum BlockReceiverState {
    /// Ready to receive the announcement of a checkpoint or of a
    /// transaction block.
    Ready,
    /// Waiting for the header of the checkpoint with this hash, announced
    /// under this nonce.
    WaitingCheckpoint(ShortHash, u64),
    /// Waiting for the header of the transaction block with this hash,
    /// announced under this nonce.
    WaitingTxBlock(ShortHash, u64),
    /// Waiting for the transactions that were missing, under this nonce.
    WaitingTxs(u64),
    /// The block was rejected or received: nothing more happens.
    Done,
}

impl Default for BlockReceiverState {
    /// A receiver starts out ready.
    fn default() -> (state: BlockReceiverState)
        ensures
            state == BlockReceiverState::Ready,
    {
        BlockReceiverState::Ready
    }
}

} // verus!
