//! What a pool keeps of one of its peers.

use crate::types::{NodeId, SessionKey};
use vstd::prelude::*;

verus! {

/// Which side opened the connection to a peer.
#[derive(Clone, Copy, Debug, PartialEq, Eq, Structural)]
pub enum ConnectionType {
    /// We connected to the peer.
    Client,
    /// The peer connected to us.
    Server,
}

/// A peer of a validator pool.
#[derive(Clone, Copy, Debug, PartialEq, Eq)]
pub struct PoolPeer {
    /// The id of the peer; `None` until the peer has introduced itself.
    pub id: Option<NodeId>,
    /// The key under which packets for the peer are encrypted; `None` until
    /// a session has been set up.
    pub rx: Option<SessionKey>,
    /// Which side opened the connection.
    pub connection_type: ConnectionType,
    /// The time since the peer was last heard of.
    pub last_seen: u64,
}

impl PoolPeer {
    /// A peer on a new connection: no id yet, no session, just heard of.
    pub fn new(connection_type: ConnectionType) -> (peer: PoolPeer)
        ensures
            peer == (PoolPeer { id: None, rx: None, connection_type, last_seen: 0 }),
    {
        PoolPeer { id: None, rx: None, connection_type, last_seen: 0 }
    }

    /// Records the id under which the peer has introduced itself.
    pub fn set_id(&mut self, id: NodeId)
        ensures
            *final(self) == (PoolPeer { id: Some(id), ..*old(self) }),
    {
        self.id = Some(id);
    }
}

} // verus!
