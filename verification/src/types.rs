//! Identifiers that the consensus core passes around as plain bytes.

use vstd::prelude::*;

verus! {

/// The identity of a node: the 32 bytes of its public key.
pub type NodeId = [u8; 32];

/// A 32-byte block hash.
pub type BlockHash = [u8; 32];

/// The first 8 bytes of a block hash.
pub type ShortHash = [u8; 8];

/// The key of a session with a peer.
pub type SessionKey = [u8; 32];

/// The secret key of a node.
pub type SecretKey = [u8; 64];

/// A network address: the IP address as a 128-bit number (an IPv4 address in
/// its IPv6-mapped form) and the port.
pub type SocketAddress = (u128, u16);

} // verus!
