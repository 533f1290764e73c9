//! The network of a validator pool: the peers that this node is connected to,
//! and who gets a packet.

use crate::collections::PeerTable;
use crate::error::NetworkErr;
use crate::pool_peer::PoolPeer;
use crate::types::{NodeId, SecretKey, SessionKey, SocketAddress};
use vstd::prelude::*;

verus! {

/// What has to be done with a packet that came from a peer.
#[derive(Clone, Copy, Debug, PartialEq, Eq, Structural)]
pub enum PacketRoute {
    /// The peer has not introduced itself: the packet has to be its
    /// introduction.
    ExpectConnect,
    /// The peer is known: the packet goes to the handler of its type.
    Dispatch,
}

/// The network interface of a validator pool.
#[derive(Debug)]
pub struct PoolNetwork {
    /// Mapping between connected addresses and peer information.
    pub peers: PeerTable,
    /// Our node id.
    pub node_id: NodeId,
    /// Our secret key.
    pub secret_key: SecretKey,
    /// The port we accept connections on.
    pub port: u16,
    /// The name of the network we are on.
    pub network_name: String,
}

/// Whether `recipients` names the peers of `peers` that have a session and
/// are not `exception`, each once and with its session key.
pub open spec fn delivers_to(
    peers: Map<SocketAddress, PoolPeer>,
    exception: Option<SocketAddress>,
    recipients: Seq<(SocketAddress, SessionKey)>,
) -> bool {
    &&& forall|i: int|
        0 <= i < recipients.len() ==> peers.contains_key((#[trigger] recipients[i]).0)
            && peers[recipients[i].0].rx == Some(recipients[i].1) && exception != Some(
            recipients[i].0,
        )
    &&& forall|i: int, j: int|
        0 <= i < j < recipients.len() ==> (#[trigger] recipients[i]).0 != (#[trigger] recipients[j]).0
    &&& forall|address: SocketAddress| #[trigger]
        peers.contains_key(address) && peers[address].rx is Some && exception != Some(address)
            ==> exists|i: int| 0 <= i < recipients.len() && (#[trigger] recipients[i]).0 == address
}

impl PoolNetwork {
    /// A network without peers.
    pub fn new(node_id: NodeId, port: u16, network_name: String, secret_key: SecretKey) -> (network:
        PoolNetwork)
        ensures
            network.peers@ == (Map::<SocketAddress, PoolPeer>::empty()),
            network.node_id == node_id,
            network.port == port,
            network.network_name == network_name,
            network.secret_key == secret_key,
    {
        PoolNetwork { peers: PeerTable::empty(), node_id, port, network_name, secret_key }
    }

    /// The number of listed peers.
    pub fn peer_count(&self) -> (count: usize)
        ensures
            count == self.peers@.len(),
    {
        self.peers.count()
    }

    /// The stored secret key.
    pub fn skey(&self) -> (key: &SecretKey)
        ensures
            *key == self.secret_key,
    {
        &self.secret_key
    }

    /// Lists `peer` under `address`, in place of the peer that was listed
    /// there, which comes back.
    pub fn add_peer(&mut self, address: SocketAddress, peer: PoolPeer) -> (previous: Option<PoolPeer>)
        ensures
            final(self).peers@ == old(self).peers@.insert(address, peer),
            previous == (if old(self).peers@.contains_key(address) {
                Some(old(self).peers@[address])
            } else {
                None
            }),
            final(self).same_identity(old(self)),
    {
        self.peers.put(address, peer)
    }

    /// Whether this network has the node id, key, port and name of `other`.
    pub open spec fn same_identity(&self, other: &PoolNetwork) -> bool {
        &&& self.node_id == other.node_id
        &&& self.secret_key == other.secret_key
        &&& self.port == other.port
        &&& self.network_name == other.network_name
    }

    /// Sets the node id of the peer with the given address, which has to be
    /// listed.
    pub fn set_node_id(&mut self, addr: &SocketAddress, node_id: NodeId)
        requires
            old(self).peers@.contains_key(*addr),
        ensures
            final(self).peers@ == old(self).peers@.insert(
                *addr,
                PoolPeer { id: Some(node_id), ..old(self).peers@[*addr] },
            ),
            final(self).same_identity(old(self)),
    {
        match self.peers.lookup(addr) {
            Some(peer) => {
                let mut peer = *peer;
                peer.set_id(node_id);
                self.peers.put(*addr, peer);
            },
            None => {},
        }
    }

    /// Removes the peer entry with the given address.
    pub fn remove_peer_with_addr(&mut self, addr: &SocketAddress)
        ensures
            final(self).peers@ == old(self).peers@.remove(*addr),
            final(self).same_identity(old(self)),
    {
        self.peers.take(addr);
    }

    /// Whether the peer with the given address, which has to be listed, has
    /// not introduced itself.
    pub fn is_none_id(&self, addr: &SocketAddress) -> (none: bool)
        requires
            self.peers@.contains_key(*addr),
        ensures
            none == (self.peers@[*addr].id is None),
    {
        match self.peers.lookup(addr) {
            Some(peer) => peer.id.is_none(),
            None => true,
        }
    }

    /// Whether there is a connection to `address`.
    pub fn is_connected_to(&self, address: &SocketAddress) -> (connected: bool)
        ensures
            connected == self.peers@.contains_key(*address),
    {
        self.peers.lookup(address).is_some()
    }

    /// Whether a peer is listed under `addr`.
    pub fn has_peer(&self, addr: &SocketAddress) -> (listed: bool)
        ensures
            listed == self.peers@.contains_key(*addr),
    {
        self.peers.lookup(addr).is_some()
    }

    /// The port we accept connections on.
    pub fn port(&self) -> (port: u16)
        ensures
            port == self.port,
    {
        self.port
    }

    /// Our node id.
    pub fn our_node_id(&self) -> (id: &NodeId)
        ensures
            *id == self.node_id,
    {
        &self.node_id
    }

    /// Our secret key.
    pub fn secret_key(&self) -> (key: &SecretKey)
        ensures
            *key == self.secret_key,
    {
        &self.secret_key
    }

    /// The session key under which a packet for `peer` has to be encrypted.
    /// There is none, with `PeerNotFound`, where the peer is not listed, and
    /// with `CouldNotSend`, where no session has been set up with it.
    pub fn session_with(&self, peer: &SocketAddress) -> (key: Result<SessionKey, NetworkErr>)
        ensures
            key == (if !self.peers@.contains_key(*peer) {
                Err(NetworkErr::PeerNotFound)
            } else {
                match self.peers@[*peer].rx {
                    Some(rx) => Ok(rx),
                    None => Err(NetworkErr::CouldNotSend),
                }
            }),
    {
        match self.peers.lookup(peer) {
            Some(listed) => match listed.rx {
                Some(rx) => Ok(rx),
                None => Err(NetworkErr::CouldNotSend),
            },
            None => Err(NetworkErr::PeerNotFound),
        }
    }

    /// Whether a packet can be sent to `peer` as it is: `PeerNotFound` where
    /// the peer is not listed.
    pub fn raw_target(&self, peer: &SocketAddress) -> (r: Result<(), NetworkErr>)
        ensures
            r == (if self.peers@.contains_key(*peer) {
                Ok::<(), NetworkErr>(())
            } else {
                Err(NetworkErr::PeerNotFound)
            }),
    {
        if self.peers.lookup(peer).is_some() {
            Ok(())
        } else {
            Err(NetworkErr::PeerNotFound)
        }
    }

    /// The peers that get a packet sent to all, each with its session key:
    /// the peers with which a session has been set up. `NoPeers` where no
    /// peer is listed at all.
    pub fn recipients(&self) -> (r: Result<Vec<(SocketAddress, SessionKey)>, NetworkErr>)
        ensures
            r is Err <==> self.peers@ == (Map::<SocketAddress, PoolPeer>::empty()),
            r matches Err(e) ==> e == NetworkErr::NoPeers,
            r matches Ok(recipients) ==> delivers_to(self.peers@, None, recipients@),
    {
        self.recipients_but(None)
    }

    /// The peers that get a packet sent to all but `exception`, each with its
    /// session key. `NoPeers` where no peer is listed at all.
    pub fn recipients_except(&self, exception: &SocketAddress) -> (r: Result<
        Vec<(SocketAddress, SessionKey)>,
        NetworkErr,
    >)
        ensures
            r is Err <==> self.peers@ == (Map::<SocketAddress, PoolPeer>::empty()),
            r matches Err(e) ==> e == NetworkErr::NoPeers,
            r matches Ok(recipients) ==> delivers_to(self.peers@, Some(*exception), recipients@),
    {
        self.recipients_but(Some(*exception))
    }

    fn recipients_but(&self, exception: Option<SocketAddress>) -> (r: Result<
        Vec<(SocketAddress, SessionKey)>,
        NetworkErr,
    >)
        ensures
            r is Err <==> self.peers@ == (Map::<SocketAddress, PoolPeer>::empty()),
            r matches Err(e) ==> e == NetworkErr::NoPeers,
            r matches Ok(recipients) ==> delivers_to(self.peers@, exception, recipients@),
    {
        if self.peers.has_none() {
            return Err(NetworkErr::NoPeers);
        }
        let addresses = self.peers.addresses();
        let mut recipients: Vec<(SocketAddress, SessionKey)> = Vec::new();
        let mut i: usize = 0;
        while i < addresses.len()
            invariant
                i <= addresses.len(),
                addresses@.no_duplicates(),
                addresses@.to_set() == self.peers@.dom(),
                forall|k: int|
                    0 <= k < recipients@.len() ==> self.peers@.contains_key(
                        (#[trigger] recipients@[k]).0,
                    ) && self.peers@[recipients@[k].0].rx == Some(recipients@[k].1) && exception
                        != Some(recipients@[k].0) && exists|j: int|
                        0 <= j < i && addresses@[j] == recipients@[k].0,
                forall|k: int, l: int|
                    0 <= k < l < recipients@.len() ==> (#[trigger] recipients@[k]).0 != (
                    #[trigger] recipients@[l]).0,
                forall|j: int|
                    0 <= j < i && self.peers@[#[trigger] addresses@[j]].rx is Some && exception
                        != Some(addresses@[j]) ==> exists|k: int|
                        0 <= k < recipients@.len() && (#[trigger] recipients@[k]).0 == addresses@[j],
            decreases addresses.len() - i,
        {
            let address = addresses[i];
            let excepted = match exception {
                Some(other) => other.0 == address.0 && other.1 == address.1,
                None => false,
            };
            proof {
                assert(addresses@.contains(address));
                assert(addresses@.to_set().contains(address));
            }
            if !excepted {
                match self.peers.lookup(&address) {
                    Some(peer) => match peer.rx {
                        Some(rx) => {
                            let ghost before = recipients@;
                            recipients.push((address, rx));
                            proof {
                                assert forall|j: int|
                                    0 <= j < i + 1 && self.peers@[#[trigger] addresses@[j]].rx is Some
                                        && exception != Some(addresses@[j]) implies exists|k: int|
                                    0 <= k < recipients@.len() && (#[trigger] recipients@[k]).0
                                        == addresses@[j] by {
                                    if j < i {
                                        let k = choose|k: int|
                                            0 <= k < before.len() && (#[trigger] before[k]).0
                                                == addresses@[j];
                                        assert(recipients@[k].0 == addresses@[j]);
                                    } else {
                                        assert(recipients@[before.len() as int].0 == addresses@[j]);
                                    }
                                }
                                assert forall|k: int|
                                    0 <= k < recipients@.len() implies exists|j: int|
                                    0 <= j < i + 1 && addresses@[j] == (#[trigger] recipients@[k]).0 by {
                                    if k < before.len() {
                                        let j = choose|j: int|
                                            0 <= j < i && addresses@[j] == before[k].0;
                                        assert(addresses@[j] == recipients@[k].0);
                                    } else {
                                        assert(addresses@[i as int] == recipients@[k].0);
                                    }
                                }
                            }
                        },
                        None => {},
                    },
                    None => {},
                }
            }
            i = i + 1;
        }
        proof {
            assert forall|address: SocketAddress| #[trigger]
                self.peers@.contains_key(address) && self.peers@[address].rx is Some && exception
                    != Some(address) implies exists|k: int|
                0 <= k < recipients@.len() && (#[trigger] recipients@[k]).0 == address by {
                assert(addresses@.to_set().contains(address));
                assert(addresses@.contains(address));
                let j = choose|j: int| 0 <= j < addresses@.len() && addresses@[j] == address;
                assert(self.peers@[addresses@[j]].rx is Some);
            }
        }
        Ok(recipients)
    }

    /// What has to be done with a packet that came from `peer`, which has to
    /// be listed.
    pub fn packet_route(&self, peer: &SocketAddress) -> (route: PacketRoute)
        requires
            self.peers@.contains_key(*peer),
        ensures
            route == (if self.peers@[*peer].id is None {
                PacketRoute::ExpectConnect
            } else {
                PacketRoute::Dispatch
            }),
    {
        if self.is_none_id(peer) {
            PacketRoute::ExpectConnect
        } else {
            PacketRoute::Dispatch
        }
    }

    /// Records that `peer`, which has to be listed, was just heard of.
    pub fn refresh_peer(&mut self, peer: &SocketAddress)
        requires
            old(self).peers@.contains_key(*peer),
        ensures
            final(self).peers@ == old(self).peers@.insert(
                *peer,
                PoolPeer { last_seen: 0, ..old(self).peers@[*peer] },
            ),
            final(self).same_identity(old(self)),
    {
        match self.peers.lookup(peer) {
            Some(listed) => {
                let mut listed = *listed;
                listed.last_seen = 0;
                self.peers.put(*peer, listed);
            },
            None => {},
        }
    }
}

} // verus!
