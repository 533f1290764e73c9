//! The consensus core of a node on a hybrid proof-of-work / rotating-validator
//! chain, verified with Verus.
//!
//! - `chain_state`, with its mathematical reading in `chain_model`: the
//!   height, the difficulty and the proof size of the proof-of-work chain,
//!   and the pool of validators with the epochs in which they join and leave;
//!   `retarget` holds the policy by which the difficulty follows the pace of
//!   the chain.
//! - `shared_data`, `miner` and `plugin`: the mining job shared by a pool of
//!   solver workers, the control protocol between the supervisor and the
//!   workers, and what a solver backend hands back.
//! - `announce_block`, over `byte_order`: the packet that announces a block.
//! - `pool_network` and `pool_peer`: the peers of a validator pool and who
//!   gets a packet; `receiver_state`: where the receiver of a block stands.
//! - `vm_type` and `vm_value`: the primitive types of the virtual machine
//!   and its integer arithmetic.
//! - `collections` and `random`: the hash tables and the random numbers that
//!   the core takes from outside crates.

pub mod announce_block;
pub mod byte_order;
pub mod chain_model;
pub mod chain_state;
pub mod collections;
pub mod error;
pub mod miner;
pub mod plugin;
pub mod pool_network;
pub mod pool_peer;
pub mod random;
pub mod receiver_state;
pub mod retarget;
pub mod shared_data;
pub mod types;
pub mod validator_entry;
pub mod vm_type;
pub mod vm_value;
