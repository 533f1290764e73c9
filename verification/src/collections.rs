//! The hash tables of the node. The tables themselves are `hashbrown` maps
//! and sets; this module gives each one a mathematical reading (`Map` or
//! `Set`) and states every operation used on it over that reading.
//!
//! The operations marked `external_body` are not proved: their contracts say
//! what `hashbrown` documents of the method they call. Everything else in
//! here, and everything built on the tables, is.

use crate::pool_peer::PoolPeer;
use crate::types::{NodeId, SocketAddress};
use crate::validator_entry::ValidatorEntry;
use vstd::prelude::*;

verus! {

/// A table from node ids to validator entries (`hashbrown::HashMap`).
#[verifier::external_body]
#[derive(Debug)]
pub struct ValidatorTable {
    inner: hashbrown::HashMap<NodeId, ValidatorEntry>,
}

/// The entries that a table of this kind holds.
pub uninterp spec fn validator_table_contents(table: ValidatorTable) -> Map<NodeId, ValidatorEntry>;

impl View for ValidatorTable {
    type V = Map<NodeId, ValidatorEntry>;

    open spec fn view(&self) -> Map<NodeId, ValidatorEntry> {
        validator_table_contents(*self)
    }
}

impl ValidatorTable {
    /// `HashMap::new`: a table without entries.
    #[verifier::external_body]
    pub(crate) fn empty() -> (table: ValidatorTable)
        ensures
            validator_table_contents(table) == (Map::<NodeId, ValidatorEntry>::empty()),
    {
        ValidatorTable { inner: hashbrown::HashMap::new() }
    }

    /// `HashMap::len`: the number of entries.
    #[verifier::external_body]
    pub(crate) fn count(&self) -> (n: usize)
        ensures
            n == validator_table_contents(*self).len(),
    {
        self.inner.len()
    }

    /// `HashMap::get`: the entry stored under `id`, if there is one.
    #[verifier::external_body]
    pub(crate) fn lookup(&self, id: &NodeId) -> (found: Option<&ValidatorEntry>)
        ensures
            validator_table_contents(*self).contains_key(*id)
                ==> found == Some(&validator_table_contents(*self)[*id]),
            !validator_table_contents(*self).contains_key(*id) ==> found is None,
    {
        self.inner.get(id)
    }

    /// `HashMap::insert`: `value` is stored under `id`; what was stored
    /// there before comes back.
    #[verifier::external_body]
    pub(crate) fn put(&mut self, id: NodeId, value: ValidatorEntry) -> (previous: Option<ValidatorEntry>)
        ensures
            validator_table_contents(*final(self))
                == validator_table_contents(*old(self)).insert(id, value),
            validator_table_contents(*old(self)).contains_key(id)
                ==> previous == Some(validator_table_contents(*old(self))[id]),
            !validator_table_contents(*old(self)).contains_key(id) ==> previous is None,
    {
        self.inner.insert(id, value)
    }

    /// `HashMap::remove`: the entry under `id` leaves the table and
    /// comes back.
    #[verifier::external_body]
    pub(crate) fn take(&mut self, id: &NodeId) -> (removed: Option<ValidatorEntry>)
        ensures
            validator_table_contents(*final(self))
                == validator_table_contents(*old(self)).remove(*id),
            validator_table_contents(*old(self)).contains_key(*id)
                ==> removed == Some(validator_table_contents(*old(self))[*id]),
            !validator_table_contents(*old(self)).contains_key(*id) ==> removed is None,
    {
        self.inner.remove(id)
    }

    /// `HashMap::keys`, collected: every node id of the table once, in no
    /// stated order.
    #[verifier::external_body]
    pub(crate) fn ids(&self) -> (keys: Vec<NodeId>)
        ensures
            keys@.no_duplicates() && keys@.to_set() == validator_table_contents(*self).dom(),
    {
        self.inner.keys().copied().collect()
    }

    /// The number of entries.
    pub fn len(&self) -> (n: usize)
        ensures
            n == self@.len(),
    {
        self.count()
    }

    /// Whether the table has an entry for `id`.
    pub fn contains_key(&self, id: &NodeId) -> (found: bool)
        ensures
            found == self@.contains_key(*id),
    {
        self.lookup(id).is_some()
    }

    /// The entry stored under `id`, if there is one.
    pub fn get(&self, id: &NodeId) -> (value: Option<ValidatorEntry>)
        ensures
            value == (if self@.contains_key(*id) {
                Some(self@[*id])
            } else {
                None
            }),
    {
        match self.lookup(id) {
            Some(value) => Some(*value),
            None => None,
        }
    }
}

/// A table from node ids to allocated shares (`hashbrown::HashMap`).
#[verifier::external_body]
#[derive(Debug)]
pub struct ShareTable {
    inner: hashbrown::HashMap<NodeId, u64>,
}

/// The entries that a table of this kind holds.
pub uninterp spec fn share_table_contents(table: ShareTable) -> Map<NodeId, u64>;

impl View for ShareTable {
    type V = Map<NodeId, u64>;

    open spec fn view(&self) -> Map<NodeId, u64> {
        share_table_contents(*self)
    }
}

impl ShareTable {
    /// `HashMap::new`: a table without entries.
    #[verifier::external_body]
    pub(crate) fn empty() -> (table: ShareTable)
        ensures
            share_table_contents(table) == (Map::<NodeId, u64>::empty()),
    {
        ShareTable { inner: hashbrown::HashMap::new() }
    }

    /// `HashMap::len`: the number of entries.
    #[verifier::external_body]
    pub(crate) fn count(&self) -> (n: usize)
        ensures
            n == share_table_contents(*self).len(),
    {
        self.inner.len()
    }

    /// `HashMap::get`: the share stored under `id`, if there is one.
    #[verifier::external_body]
    pub(crate) fn lookup(&self, id: &NodeId) -> (found: Option<&u64>)
        ensures
            share_table_contents(*self).contains_key(*id)
                ==> found == Some(&share_table_contents(*self)[*id]),
            !share_table_contents(*self).contains_key(*id) ==> found is None,
    {
        self.inner.get(id)
    }

    /// `HashMap::insert`: `value` is stored under `id`; what was stored
    /// there before comes back.
    #[verifier::external_body]
    pub(crate) fn put(&mut self, id: NodeId, value: u64) -> (previous: Option<u64>)
        ensures
            share_table_contents(*final(self))
                == share_table_contents(*old(self)).insert(id, value),
            share_table_contents(*old(self)).contains_key(id)
                ==> previous == Some(share_table_contents(*old(self))[id]),
            !share_table_contents(*old(self)).contains_key(id) ==> previous is None,
    {
        self.inner.insert(id, value)
    }

    /// The number of entries.
    pub fn len(&self) -> (n: usize)
        ensures
            n == self@.len(),
    {
        self.count()
    }

    /// Whether the table has an entry for `id`.
    pub fn contains_key(&self, id: &NodeId) -> (found: bool)
        ensures
            found == self@.contains_key(*id),
    {
        self.lookup(id).is_some()
    }

    /// The share stored under `id`, if there is one.
    pub fn get(&self, id: &NodeId) -> (value: Option<u64>)
        ensures
            value == (if self@.contains_key(*id) {
                Some(self@[*id])
            } else {
                None
            }),
    {
        match self.lookup(id) {
            Some(value) => Some(*value),
            None => None,
        }
    }
}

/// A table from network addresses to peers (`hashbrown::HashMap`).
#[verifier::external_body]
#[derive(Debug)]
pub struct PeerTable {
    inner: hashbrown::HashMap<SocketAddress, PoolPeer>,
}

/// The entries that a table of this kind holds.
pub uninterp spec fn peer_table_contents(table: PeerTable) -> Map<SocketAddress, PoolPeer>;

impl View for PeerTable {
    type V = Map<SocketAddress, PoolPeer>;

    open spec fn view(&self) -> Map<SocketAddress, PoolPeer> {
        peer_table_contents(*self)
    }
}

impl PeerTable {
    /// `HashMap::new`: a table without entries.
    #[verifier::external_body]
    pub(crate) fn empty() -> (table: PeerTable)
        ensures
            peer_table_contents(table) == (Map::<SocketAddress, PoolPeer>::empty()),
    {
        PeerTable { inner: hashbrown::HashMap::new() }
    }

    /// `HashMap::len`: the number of entries.
    #[verifier::external_body]
    pub(crate) fn count(&self) -> (n: usize)
        ensures
            n == peer_table_contents(*self).len(),
    {
        self.inner.len()
    }

    /// `HashMap::is_empty`: whether there is no entry.
    #[verifier::external_body]
    pub(crate) fn has_none(&self) -> (none: bool)
        ensures
            none == (peer_table_contents(*self) == (Map::<SocketAddress, PoolPeer>::empty())),
    {
        self.inner.is_empty()
    }

    /// `HashMap::get`: the peer stored under `address`, if there is one.
    #[verifier::external_body]
    pub(crate) fn lookup(&self, address: &SocketAddress) -> (found: Option<&PoolPeer>)
        ensures
            peer_table_contents(*self).contains_key(*address)
                ==> found == Some(&peer_table_contents(*self)[*address]),
            !peer_table_contents(*self).contains_key(*address) ==> found is None,
    {
        self.inner.get(address)
    }

    /// `HashMap::insert`: `value` is stored under `address`; what was stored
    /// there before comes back.
    #[verifier::external_body]
    pub(crate) fn put(&mut self, address: SocketAddress, value: PoolPeer) -> (previous: Option<PoolPeer>)
        ensures
            peer_table_contents(*final(self))
                == peer_table_contents(*old(self)).insert(address, value),
            peer_table_contents(*old(self)).contains_key(address)
                ==> previous == Some(peer_table_contents(*old(self))[address]),
            !peer_table_contents(*old(self)).contains_key(address) ==> previous is None,
    {
        self.inner.insert(address, value)
    }

    /// `HashMap::remove`: the peer under `address` leaves the table and
    /// comes back.
    #[verifier::external_body]
    pub(crate) fn take(&mut self, address: &SocketAddress) -> (removed: Option<PoolPeer>)
        ensures
            peer_table_contents(*final(self)) == peer_table_contents(*old(self)).remove(*address),
            peer_table_contents(*old(self)).contains_key(*address)
                ==> removed == Some(peer_table_contents(*old(self))[*address]),
            !peer_table_contents(*old(self)).contains_key(*address) ==> removed is None,
    {
        self.inner.remove(address)
    }

    /// `HashMap::keys`, collected: every address of the table once, in no
    /// stated order.
    #[verifier::external_body]
    pub(crate) fn addresses(&self) -> (keys: Vec<SocketAddress>)
        ensures
            keys@.no_duplicates() && keys@.to_set() == peer_table_contents(*self).dom(),
    {
        self.inner.keys().copied().collect()
    }

    /// The number of entries.
    pub fn len(&self) -> (n: usize)
        ensures
            n == self@.len(),
    {
        self.count()
    }

    /// Whether the table has an entry for `address`.
    pub fn contains_key(&self, address: &SocketAddress) -> (found: bool)
        ensures
            found == self@.contains_key(*address),
    {
        self.lookup(address).is_some()
    }

    /// The peer stored under `address`, if there is one.
    pub fn get(&self, address: &SocketAddress) -> (value: Option<PoolPeer>)
        ensures
            value == (if self@.contains_key(*address) {
                Some(self@[*address])
            } else {
                None
            }),
    {
        match self.lookup(address) {
            Some(value) => Some(*value),
            None => None,
        }
    }
}

/// A set of network addresses (`hashbrown::HashSet`).
#[verifier::external_body]
#[derive(Debug)]
pub struct AddressSet {
    inner: hashbrown::HashSet<SocketAddress>,
}

/// The members that a set of this kind holds.
pub uninterp spec fn address_set_contents(set: AddressSet) -> Set<SocketAddress>;

impl View for AddressSet {
    type V = Set<SocketAddress>;

    open spec fn view(&self) -> Set<SocketAddress> {
        address_set_contents(*self)
    }
}

impl AddressSet {
    /// `HashSet::new`: a set without members.
    #[verifier::external_body]
    pub(crate) fn empty() -> (set: AddressSet)
        ensures
            address_set_contents(set) == Set::<SocketAddress>::empty(),
    {
        AddressSet { inner: hashbrown::HashSet::new() }
    }

    /// `HashSet::len`: the number of members.
    #[verifier::external_body]
    pub(crate) fn count(&self) -> (n: usize)
        ensures
            n == address_set_contents(*self).len(),
    {
        self.inner.len()
    }

    /// `HashSet::contains`: whether `address` is a member.
    #[verifier::external_body]
    pub(crate) fn has(&self, address: &SocketAddress) -> (found: bool)
        ensures
            found == address_set_contents(*self).contains(*address),
    {
        self.inner.contains(address)
    }

    /// `HashSet::insert`: `address` becomes a member; the result says whether it
    /// was new.
    #[verifier::external_body]
    pub(crate) fn add(&mut self, address: SocketAddress) -> (fresh: bool)
        ensures
            address_set_contents(*final(self)) == address_set_contents(*old(self)).insert(address),
            fresh == !address_set_contents(*old(self)).contains(address),
    {
        self.inner.insert(address)
    }

    /// `HashSet::remove`: `address` stops being a member; the result says
    /// whether it was one.
    #[verifier::external_body]
    pub(crate) fn discard(&mut self, address: &SocketAddress) -> (present: bool)
        ensures
            address_set_contents(*final(self)) == address_set_contents(*old(self)).remove(*address),
            present == address_set_contents(*old(self)).contains(*address),
    {
        self.inner.remove(address)
    }

    /// The number of members.
    pub fn len(&self) -> (n: usize)
        ensures
            n == self@.len(),
    {
        self.count()
    }

    /// Whether `address` is in the set.
    pub fn contains(&self, address: &SocketAddress) -> (found: bool)
        ensures
            found == self@.contains(*address),
    {
        self.has(address)
    }
}

/// A set of node ids (`hashbrown::HashSet`).
#[verifier::external_body]
#[derive(Debug)]
pub struct NodeSet {
    inner: hashbrown::HashSet<NodeId>,
}

/// The members that a set of this kind holds.
pub uninterp spec fn node_set_contents(set: NodeSet) -> Set<NodeId>;

impl View for NodeSet {
    type V = Set<NodeId>;

    open spec fn view(&self) -> Set<NodeId> {
        node_set_contents(*self)
    }
}

impl NodeSet {
    /// `HashSet::new`: a set without members.
    #[verifier::external_body]
    pub(crate) fn empty() -> (set: NodeSet)
        ensures
            node_set_contents(set) == Set::<NodeId>::empty(),
    {
        NodeSet { inner: hashbrown::HashSet::new() }
    }

    /// `HashSet::contains`: whether `id` is a member.
    #[verifier::external_body]
    pub(crate) fn has(&self, id: &NodeId) -> (found: bool)
        ensures
            found == node_set_contents(*self).contains(*id),
    {
        self.inner.contains(id)
    }

    /// `HashSet::insert`: `id` becomes a member; the result says whether it
    /// was new.
    #[verifier::external_body]
    pub(crate) fn add(&mut self, id: NodeId) -> (fresh: bool)
        ensures
            node_set_contents(*final(self)) == node_set_contents(*old(self)).insert(id),
            fresh == !node_set_contents(*old(self)).contains(id),
    {
        self.inner.insert(id)
    }

    /// `HashSet::iter`, collected: every member once, in no stated order.
    #[verifier::external_body]
    pub(crate) fn members(&self) -> (members: Vec<NodeId>)
        ensures
            members@.no_duplicates() && members@.to_set() == node_set_contents(*self),
    {
        self.inner.iter().copied().collect()
    }

    /// Whether `id` is in the set.
    pub fn contains(&self, id: &NodeId) -> (found: bool)
        ensures
            found == self@.contains(*id),
    {
        self.has(id)
    }
}

/// A table from epochs to sets of node ids (`hashbrown::HashMap`).
#[verifier::external_body]
#[derive(Debug)]
pub struct EpochTable {
    inner: hashbrown::HashMap<u64, NodeSet>,
}

/// The node ids listed under each epoch of an epoch table.
pub uninterp spec fn epoch_table_contents(table: EpochTable) -> Map<u64, Set<NodeId>>;

impl View for EpochTable {
    type V = Map<u64, Set<NodeId>>;

    open spec fn view(&self) -> Map<u64, Set<NodeId>> {
        epoch_table_contents(*self)
    }
}

impl EpochTable {
    /// `HashMap::new`: a table without entries.
    #[verifier::external_body]
    pub(crate) fn empty() -> (table: EpochTable)
        ensures
            epoch_table_contents(table) == (Map::<u64, Set<NodeId>>::empty()),
    {
        EpochTable { inner: hashbrown::HashMap::new() }
    }

    /// `HashMap::get`: the set listed under `epoch`, if there is one.
    #[verifier::external_body]
    pub(crate) fn lookup(&self, epoch: u64) -> (found: Option<&NodeSet>)
        ensures
            epoch_table_contents(*self).contains_key(epoch)
                ==> found is Some
                && node_set_contents(*found->0) == epoch_table_contents(*self)[epoch],
            !epoch_table_contents(*self).contains_key(epoch) ==> found is None,
    {
        self.inner.get(&epoch)
    }

    /// `HashMap::insert`: `set` is listed under `epoch`, in place of what was
    /// listed there.
    #[verifier::external_body]
    pub(crate) fn put(&mut self, epoch: u64, set: NodeSet)
        ensures
            epoch_table_contents(*final(self))
                == epoch_table_contents(*old(self)).insert(epoch, node_set_contents(set)),
    {
        self.inner.insert(epoch, set);
    }

    /// `HashMap::remove`: the set under `epoch` leaves the table and comes
    /// back.
    #[verifier::external_body]
    pub(crate) fn take(&mut self, epoch: u64) -> (removed: Option<NodeSet>)
        ensures
            epoch_table_contents(*final(self)) == epoch_table_contents(*old(self)).remove(epoch),
            epoch_table_contents(*old(self)).contains_key(epoch)
                ==> removed is Some
                && node_set_contents(removed->0) == epoch_table_contents(*old(self))[epoch],
            !epoch_table_contents(*old(self)).contains_key(epoch) ==> removed is None,
    {
        self.inner.remove(&epoch)
    }

    /// `HashMap::keys`, collected: every epoch of the table once, in no
    /// stated order.
    #[verifier::external_body]
    pub(crate) fn epochs(&self) -> (keys: Vec<u64>)
        ensures
            keys@.no_duplicates() && keys@.to_set() == epoch_table_contents(*self).dom(),
    {
        self.inner.keys().copied().collect()
    }

    /// Whether `id` is listed under `epoch`.
    pub fn lists(&self, epoch: u64, id: &NodeId) -> (found: bool)
        ensures
            found == (self@.contains_key(epoch) && self@[epoch].contains(*id)),
    {
        match self.lookup(epoch) {
            Some(set) => set.has(id),
            None => false,
        }
    }
}

} // verus!
