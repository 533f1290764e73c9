//! The errors of the network layer.

use vstd::prelude::*;

verus! {

/// Why a packet could not be read or delivered.
#[derive(Clone, Copy, Debug, PartialEq, Eq, Structural)]
pub enum NetworkErr {
    /// The bytes are not the encoding of a packet of the expected type.
    BadFormat,
    /// No session has been set up with the peer yet.
    CouldNotSend,
    /// There is no peer with the given address.
    PeerNotFound,
    /// There is no peer at all.
    NoPeers,
}

} // verus!
