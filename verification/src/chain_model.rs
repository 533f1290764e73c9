//! The mathematical reading of the chain state: what is in the validator
//! pool, what is scheduled, and the invariant that ties the parts together.

use crate::chain_state::ConsensusError;
use crate::types::{NodeId, SocketAddress};
use crate::validator_entry::ValidatorEntry;
use vstd::prelude::*;

verus! {

/// The chain state as plain mathematics.
pub ghost struct ChainView {
    pub height: u64,
    pub difficulty: u64,
    pub edge_bits: u8,
    pub first_end_epoch: Option<u64>,
    pub last_end_epoch: Option<u64>,
    /// The node ids that await admission, first come first.
    pub queue: Seq<NodeId>,
    pub active: Map<NodeId, ValidatorEntry>,
    pub pending: Map<NodeId, ValidatorEntry>,
    pub active_ips: Set<SocketAddress>,
    pub pending_ips: Set<SocketAddress>,
    /// For each epoch, the nodes that join the active set in it.
    pub start_epochs: Map<u64, Set<NodeId>>,
    /// For each epoch, the nodes that leave the active set in it.
    pub end_epochs: Map<u64, Set<NodeId>>,
}

/// The node ids that `table` lists under `epoch`: none where it has no entry.
pub open spec fn listed_at(table: Map<u64, Set<NodeId>>, epoch: u64) -> Set<NodeId> {
    if table.contains_key(epoch) {
        table[epoch]
    } else {
        Set::empty()
    }
}

/// Whether `table` lists `id` under some epoch.
pub open spec fn listed(table: Map<u64, Set<NodeId>>, id: NodeId) -> bool {
    exists|epoch: u64| #[trigger] listed_at(table, epoch).contains(id)
}

/// Whether no node id is listed under two epochs of `table`.
pub open spec fn listed_once(table: Map<u64, Set<NodeId>>) -> bool {
    forall|e1: u64, e2: u64, id: NodeId|
        #[trigger] listed_at(table, e1).contains(id) && #[trigger] listed_at(table, e2).contains(id)
            ==> e1 == e2
}

/// `table` with `id` added to what it lists under `epoch`.
pub open spec fn with_listing(table: Map<u64, Set<NodeId>>, epoch: u64, id: NodeId) -> Map<
    u64,
    Set<NodeId>,
> {
    table.insert(epoch, listed_at(table, epoch).insert(id))
}

/// The addresses of the entries of `table`.
pub open spec fn addresses_of(table: Map<NodeId, ValidatorEntry>) -> Set<SocketAddress> {
    Set::new(
        |a: SocketAddress| exists|id: NodeId| #[trigger] table.contains_key(id) && table[id].ip == a,
    )
}

/// Whether no two entries of `table` have the same address.
pub open spec fn distinct_addresses(table: Map<NodeId, ValidatorEntry>) -> bool {
    forall|id1: NodeId, id2: NodeId|
        #[trigger] table.contains_key(id1) && #[trigger] table.contains_key(id2) && table[id1].ip
            == table[id2].ip ==> id1 == id2
}

/// Whether `ips` is exactly the set of the addresses of the entries of
/// `table`, each entry stored under its own id and no two entries sharing an
/// address, so that there are as many addresses as entries.
pub open spec fn mirrors(table: Map<NodeId, ValidatorEntry>, ips: Set<SocketAddress>) -> bool {
    &&& table.dom().finite()
    &&& ips.finite()
    &&& ips.len() == table.dom().len()
    &&& forall|id: NodeId| #[trigger]
        table.contains_key(id) ==> ips.contains(table[id].ip) && table[id].node_id == id
    &&& forall|a: SocketAddress| #[trigger]
        ips.contains(a) ==> exists|id: NodeId| #[trigger] table.contains_key(id) && table[id].ip == a
    &&& forall|id1: NodeId, id2: NodeId|
        #[trigger] table.contains_key(id1) && #[trigger] table.contains_key(id2) && table[id1].ip
            == table[id2].ip ==> id1 == id2
}

impl ChainView {
    /// Whether `id` is a validator of the pool, pending or active.
    pub open spec fn knows(self, id: NodeId) -> bool {
        self.active.contains_key(id) || self.pending.contains_key(id)
    }

    /// No node is both pending and active.
    pub open spec fn exclusive(self) -> bool {
        forall|id: NodeId| !(self.active.contains_key(id) && self.pending.contains_key(id))
    }

    /// The lookup tables and the address sets agree, and no address is used
    /// twice in the pool.
    pub open spec fn pool_wf(self) -> bool {
        &&& self.exclusive()
        &&& mirrors(self.active, self.active_ips)
        &&& mirrors(self.pending, self.pending_ips)
        &&& self.active_ips.disjoint(self.pending_ips)
    }

    /// The queue holds the pending nodes, each once.
    pub open spec fn queue_wf(self) -> bool {
        &&& self.queue.no_duplicates()
        &&& forall|id: NodeId| self.queue.contains(id) <==> self.pending.contains_key(id)
    }

    /// Only pending nodes are scheduled to join, and each of them is scheduled
    /// to leave as well; only nodes of the pool are scheduled to leave; no
    /// node is scheduled under two epochs; and every active node is scheduled
    /// to leave.
    pub open spec fn schedule_wf(self) -> bool {
        &&& listed_once(self.start_epochs)
        &&& listed_once(self.end_epochs)
        &&& forall|epoch: u64, id: NodeId| #[trigger]
            listed_at(self.start_epochs, epoch).contains(id) ==> self.pending.contains_key(id)
                && listed(self.end_epochs, id)
        &&& forall|epoch: u64, id: NodeId| #[trigger]
            listed_at(self.end_epochs, epoch).contains(id) ==> self.knows(id)
        &&& forall|id: NodeId| #[trigger]
            self.active.contains_key(id) ==> listed(self.end_epochs, id)
    }

    /// Whether an active validator is scheduled to leave in `epoch`.
    pub open spec fn departure_at(self, epoch: u64) -> bool {
        exists|id: NodeId| #[trigger]
            listed_at(self.end_epochs, epoch).contains(id) && self.active.contains_key(id)
    }

    /// `first_end_epoch` is the first epoch in which an active validator
    /// leaves and `last_end_epoch` the last one; both are absent when no
    /// active validator is scheduled to leave.
    pub open spec fn bounds_wf(self) -> bool {
        &&& match self.first_end_epoch {
            Some(first) => self.departure_at(first) && forall|epoch: u64| #[trigger]
                self.departure_at(epoch) ==> first <= epoch,
            None => forall|epoch: u64| !#[trigger] self.departure_at(epoch),
        }
        &&& match self.last_end_epoch {
            Some(last) => self.departure_at(last) && forall|epoch: u64| #[trigger]
                self.departure_at(epoch) ==> epoch <= last,
            None => forall|epoch: u64| !#[trigger] self.departure_at(epoch),
        }
    }

    /// The invariant of the chain state.
    pub open spec fn wf(self) -> bool {
        &&& self.pool_wf()
        &&& self.queue_wf()
        &&& self.schedule_wf()
        &&& self.bounds_wf()
    }

    /// The state at genesis: height and difficulty zero, nobody in the pool,
    /// nothing scheduled.
    pub open spec fn genesis(edge_bits: u8) -> ChainView {
        ChainView {
            height: 0,
            difficulty: 0,
            edge_bits,
            first_end_epoch: None,
            last_end_epoch: None,
            queue: Seq::empty(),
            active: Map::empty(),
            pending: Map::empty(),
            active_ips: Set::empty(),
            pending_ips: Set::empty(),
            start_epochs: Map::empty(),
            end_epochs: Map::empty(),
        }
    }

    /// Why `entry` cannot be admitted, if it cannot: both lookup tables hold
    /// its node, one of them does, or its address is taken.
    pub open spec fn admission_refusal(self, entry: ValidatorEntry) -> Option<ConsensusError> {
        if self.active.contains_key(entry.node_id) && self.pending.contains_key(entry.node_id) {
            Some(ConsensusError::InconsistentState)
        } else if self.knows(entry.node_id) {
            Some(ConsensusError::DuplicateValidator)
        } else if self.active_ips.contains(entry.ip) || self.pending_ips.contains(entry.ip) {
            Some(ConsensusError::DuplicateIp)
        } else {
            None
        }
    }

    /// The state after `entry` was admitted as pending: it is in the pending
    /// lookup table, its address in the pending address set, and its node at
    /// the end of the queue.
    pub open spec fn with_admitted(self, entry: ValidatorEntry) -> ChainView {
        ChainView {
            queue: self.queue.push(entry.node_id),
            pending: self.pending.insert(entry.node_id, entry),
            pending_ips: self.pending_ips.insert(entry.ip),
            ..self
        }
    }

    /// Why the node `id` cannot be scheduled, if it cannot: it is not
    /// pending, or it is scheduled already.
    pub open spec fn scheduling_refusal(self, id: NodeId) -> Option<ConsensusError> {
        if !self.pending.contains_key(id) {
            Some(ConsensusError::UnknownValidator)
        } else if listed(self.start_epochs, id) || listed(self.end_epochs, id) {
            Some(ConsensusError::DuplicateValidator)
        } else {
            None
        }
    }

    /// The state after the node `id` was scheduled to join the active set in
    /// `start_epoch` and to leave it in `end_epoch`.
    pub open spec fn with_scheduled(self, id: NodeId, start_epoch: u64, end_epoch: u64) -> ChainView {
        ChainView {
            start_epochs: with_listing(self.start_epochs, start_epoch, id),
            end_epochs: with_listing(self.end_epochs, end_epoch, id),
            ..self
        }
    }

    /// The state after the pending node `id` has become active, with the
    /// entry it had.
    pub open spec fn with_promoted(self, id: NodeId) -> ChainView {
        let entry = self.pending[id];
        ChainView {
            active: self.active.insert(id, entry),
            active_ips: self.active_ips.insert(entry.ip),
            pending: self.pending.remove(id),
            pending_ips: self.pending_ips.remove(entry.ip),
            ..self
        }
    }

    /// The state after the active node `id` has left the pool.
    pub open spec fn with_retired(self, id: NodeId) -> ChainView {
        let entry = self.active[id];
        ChainView {
            active: self.active.remove(id),
            active_ips: self.active_ips.remove(entry.ip),
            ..self
        }
    }

    /// This state with another height, difficulty and proof size.
    pub open spec fn with_parameters(self, height: u64, difficulty: u64, edge_bits: u8) -> ChainView {
        ChainView { height, difficulty, edge_bits, ..self }
    }

    /// Whether a block at `height` ends an epoch, where an epoch is
    /// `epoch_length` blocks long.
    pub open spec fn ends_epoch(height: u64, epoch_length: u64) -> bool {
        epoch_length > 0 && height % epoch_length == 0
    }

    /// What `advance` answers to a block at `height`.
    pub open spec fn advance_verdict(self, height: u64, epoch_length: u64) -> Result<
        (),
        ConsensusError,
    > {
        if height != self.height + 1 {
            Err(ConsensusError::InconsistentState)
        } else if Self::ends_epoch(height, epoch_length) && self.blocked_at(height / epoch_length) {
            Err(ConsensusError::UnknownValidator)
        } else {
            Ok(())
        }
    }

    /// Whether `next` is this state after a block at `height` was accepted
    /// and `target` became the difficulty and the proof size: the pool and
    /// the schedules have made the transition of the epoch that the block
    /// ends, or are as they were where it ends none.
    pub open spec fn advances_to(
        self,
        next: ChainView,
        height: u64,
        epoch_length: u64,
        target: (u64, u8),
    ) -> bool {
        let pool = next.with_parameters(self.height, self.difficulty, self.edge_bits);
        &&& next.height == height
        &&& next.difficulty == target.0
        &&& next.edge_bits == target.1
        &&& if Self::ends_epoch(height, epoch_length) {
            self.transition_to(pool, height / epoch_length)
        } else {
            pool == self
        }
    }

    /// The nodes that join the active set in `epoch`.
    pub open spec fn joining(self, epoch: u64) -> Set<NodeId> {
        listed_at(self.start_epochs, epoch)
    }

    /// The nodes that leave the active set in `epoch`.
    pub open spec fn leaving(self, epoch: u64) -> Set<NodeId> {
        listed_at(self.end_epochs, epoch)
    }

    /// Whether the transition of `epoch` cannot be made: a node is scheduled
    /// to leave in it that is not active and does not join in it either.
    pub open spec fn blocked_at(self, epoch: u64) -> bool {
        exists|id: NodeId| #[trigger]
            self.leaving(epoch).contains(id) && !self.active.contains_key(id) && !self.joining(
                epoch,
            ).contains(id)
    }

    /// Whether `next` is this state after the transition of `epoch`: the
    /// nodes scheduled to join have moved from pending to active, keeping
    /// their entries, the nodes scheduled to leave are gone from the active
    /// set, the address sets hold the addresses of the entries, the queue has
    /// lost the promoted nodes and kept its order, the two schedules have
    /// lost the epoch, and the two end epochs are the first and the last
    /// epoch in which an active validator leaves.
    pub open spec fn transition_to(self, next: ChainView, epoch: u64) -> bool {
        let joining = self.joining(epoch);
        let leaving = self.leaving(epoch);
        &&& next.height == self.height
        &&& next.difficulty == self.difficulty
        &&& next.edge_bits == self.edge_bits
        &&& next.active == self.active.union_prefer_right(self.pending.restrict(joining)).remove_keys(
            leaving,
        )
        &&& next.pending == self.pending.remove_keys(joining)
        &&& next.queue == self.queue.filter(|id: NodeId| !joining.contains(id))
        &&& next.start_epochs == self.start_epochs.remove(epoch)
        &&& next.end_epochs == self.end_epochs.remove(epoch)
        &&& next.active_ips == addresses_of(next.active)
        &&& next.pending_ips == addresses_of(next.pending)
        &&& next.bounds_wf()
    }

    /// Whether `next` comes from this state by one operation: an admission
    /// or a scheduling that is not refused, a transition that is not blocked,
    /// or a change of the height, the difficulty and the proof size.
    pub open spec fn steps_to(self, next: ChainView) -> bool {
        ||| exists|entry: ValidatorEntry|
            self.admission_refusal(entry) is None && next == #[trigger] self.with_admitted(entry)
        ||| exists|id: NodeId, start_epoch: u64, end_epoch: u64|
            self.scheduling_refusal(id) is None && next == #[trigger] self.with_scheduled(
                id,
                start_epoch,
                end_epoch,
            )
        ||| exists|epoch: u64| !self.blocked_at(epoch) && #[trigger] self.transition_to(next, epoch)
        ||| exists|height: u64, difficulty: u64, edge_bits: u8|
            next == #[trigger] self.with_parameters(height, difficulty, edge_bits)
    }
}

/// Adding an entry under a new id and with a new address keeps a table and
/// its address set in agreement.
pub proof fn lemma_mirrors_insert(
    table: Map<NodeId, ValidatorEntry>,
    ips: Set<SocketAddress>,
    entry: ValidatorEntry,
)
    requires
        mirrors(table, ips),
        !table.contains_key(entry.node_id),
        !ips.contains(entry.ip),
    ensures
        mirrors(table.insert(entry.node_id, entry), ips.insert(entry.ip)),
{
    let table2 = table.insert(entry.node_id, entry);
    let ips2 = ips.insert(entry.ip);
    assert forall|a: SocketAddress| #[trigger] ips2.contains(a) implies exists|id: NodeId| #[trigger]
        table2.contains_key(id) && table2[id].ip == a by {
        if a == entry.ip {
            assert(table2.contains_key(entry.node_id) && table2[entry.node_id].ip == a);
        } else {
            let id = choose|id: NodeId| #[trigger] table.contains_key(id) && table[id].ip == a;
            assert(table2.contains_key(id) && table2[id].ip == a);
        }
    }
}

/// Removing an entry together with its address keeps a table and its address
/// set in agreement.
pub proof fn lemma_mirrors_remove(
    table: Map<NodeId, ValidatorEntry>,
    ips: Set<SocketAddress>,
    id: NodeId,
)
    requires
        mirrors(table, ips),
        table.contains_key(id),
    ensures
        mirrors(table.remove(id), ips.remove(table[id].ip)),
{
    let table2 = table.remove(id);
    let ips2 = ips.remove(table[id].ip);
    assert forall|a: SocketAddress| #[trigger] ips2.contains(a) implies exists|other: NodeId| #[trigger]
        table2.contains_key(other) && table2[other].ip == a by {
        let other = choose|other: NodeId| #[trigger] table.contains_key(other) && table[other].ip == a;
        assert(table2.contains_key(other) && table2[other].ip == a);
    }
    assert forall|other: NodeId| #[trigger] table2.contains_key(other) implies ips2.contains(
        table2[other].ip,
    ) && table2[other].node_id == other by {
        assert(table.contains_key(other));
    }
}

/// Promoting a pending node keeps the tables and the address sets in
/// agreement.
pub proof fn lemma_promotion_keeps_pool(state: ChainView, id: NodeId)
    requires
        state.pool_wf(),
        state.pending.contains_key(id),
    ensures
        state.with_promoted(id).pool_wf(),
{
    let entry = state.pending[id];
    assert(state.pending_ips.contains(entry.ip));
    lemma_mirrors_remove(state.pending, state.pending_ips, id);
    lemma_mirrors_insert(state.active, state.active_ips, entry);
}

/// Retiring an active node keeps the tables and the address sets in
/// agreement.
pub proof fn lemma_retirement_keeps_pool(state: ChainView, id: NodeId)
    requires
        state.pool_wf(),
        state.active.contains_key(id),
    ensures
        state.with_retired(id).pool_wf(),
{
    lemma_mirrors_remove(state.active, state.active_ips, id);
}

/// A finite table without a repeated address has as many addresses as
/// entries.
pub proof fn lemma_addresses_counted(table: Map<NodeId, ValidatorEntry>)
    requires
        table.dom().finite(),
        distinct_addresses(table),
    ensures
        addresses_of(table).finite(),
        addresses_of(table).len() == table.dom().len(),
    decreases table.dom().len(),
{
    if table.dom().len() == 0 {
        assert(table.dom() =~= Set::<NodeId>::empty()) by {
            table.dom().lemma_len0_is_empty();
        }
        assert(addresses_of(table) =~= Set::<SocketAddress>::empty());
    } else {
        let id = table.dom().choose();
        let rest = table.remove(id);
        assert(table.contains_key(id));
        assert(distinct_addresses(rest)) by {
            assert forall|id1: NodeId, id2: NodeId|
                #[trigger] rest.contains_key(id1) && #[trigger] rest.contains_key(id2)
                    && rest[id1].ip == rest[id2].ip implies id1 == id2 by {
                assert(table.contains_key(id1) && table.contains_key(id2));
            }
        }
        lemma_addresses_counted(rest);
        assert(!addresses_of(rest).contains(table[id].ip)) by {
            if addresses_of(rest).contains(table[id].ip) {
                let other = choose|other: NodeId| #[trigger]
                    rest.contains_key(other) && rest[other].ip == table[id].ip;
                assert(table.contains_key(other));
            }
        }
        assert(addresses_of(table) =~= addresses_of(rest).insert(table[id].ip)) by {
            assert forall|a: SocketAddress| addresses_of(table).contains(a) implies addresses_of(
                rest,
            ).insert(table[id].ip).contains(a) by {
                let owner = choose|owner: NodeId| #[trigger]
                    table.contains_key(owner) && table[owner].ip == a;
                if owner != id {
                    assert(rest.contains_key(owner) && rest[owner].ip == a);
                }
            }
            assert forall|a: SocketAddress|
                addresses_of(rest).insert(table[id].ip).contains(a) implies addresses_of(
                table,
            ).contains(a) by {
                if a == table[id].ip {
                    assert(table.contains_key(id) && table[id].ip == a);
                } else {
                    let owner = choose|owner: NodeId| #[trigger]
                        rest.contains_key(owner) && rest[owner].ip == a;
                    assert(table.contains_key(owner) && table[owner].ip == a);
                }
            }
        }
    }
}

/// A transition that is not blocked keeps the invariant.
pub proof fn lemma_transition_keeps_invariant(state: ChainView, next: ChainView, epoch: u64)
    requires
        state.wf(),
        !state.blocked_at(epoch),
        state.transition_to(next, epoch),
    ensures
        next.wf(),
{
    let joining = state.joining(epoch);
    let leaving = state.leaving(epoch);
    lemma_transition_keeps_schedule(state, next, epoch);
    lemma_filtered_queue(state, next, epoch);
    assert forall|id: NodeId| #[trigger] next.active.contains_key(id) implies state.knows(id)
        && next.active[id].node_id == id && (state.active.contains_key(id) ==> next.active[id]
        == state.active[id]) && (state.pending.contains_key(id) ==> next.active[id]
        == state.pending[id] && joining.contains(id)) by {}
    assert forall|id: NodeId| #[trigger] next.pending.contains_key(id) implies state.pending.contains_key(
        id,
    ) && next.pending[id] == state.pending[id] && !joining.contains(id) by {}
    assert(distinct_addresses(next.active)) by {
        assert forall|id1: NodeId, id2: NodeId|
            #[trigger] next.active.contains_key(id1) && #[trigger] next.active.contains_key(id2)
                && next.active[id1].ip == next.active[id2].ip implies id1 == id2 by {
            lemma_pool_addresses_distinct(state, id1, id2);
        }
    }
    assert(distinct_addresses(next.pending)) by {
        assert forall|id1: NodeId, id2: NodeId|
            #[trigger] next.pending.contains_key(id1) && #[trigger] next.pending.contains_key(id2)
                && next.pending[id1].ip == next.pending[id2].ip implies id1 == id2 by {
            lemma_pool_addresses_distinct(state, id1, id2);
        }
    }
    assert(next.active.dom().finite()) by {
        assert(next.active.dom().subset_of(state.active.dom().union(state.pending.dom())));
        vstd::set_lib::lemma_set_subset_finite(
            state.active.dom().union(state.pending.dom()),
            next.active.dom(),
        );
    }
    assert(next.pending.dom().finite()) by {
        assert(next.pending.dom().subset_of(state.pending.dom()));
        vstd::set_lib::lemma_set_subset_finite(state.pending.dom(), next.pending.dom());
    }
    lemma_addresses_counted(next.active);
    lemma_addresses_counted(next.pending);
    assert(next.active_ips.disjoint(next.pending_ips)) by {
        assert forall|a: SocketAddress| next.active_ips.contains(a) implies !next.pending_ips.contains(
            a,
        ) by {
            if next.pending_ips.contains(a) {
                let id1 = choose|id: NodeId| #[trigger]
                    next.active.contains_key(id) && next.active[id].ip == a;
                let id2 = choose|id: NodeId| #[trigger]
                    next.pending.contains_key(id) && next.pending[id].ip == a;
                lemma_pool_addresses_distinct(state, id1, id2);
            }
        }
    }
}

/// In a state that meets the invariant no two nodes of the pool, pending or
/// active, have the same address.
pub proof fn lemma_pool_addresses_distinct(state: ChainView, id1: NodeId, id2: NodeId)
    requires
        state.wf(),
        state.knows(id1),
        state.knows(id2),
        (if state.active.contains_key(id1) {
            state.active[id1]
        } else {
            state.pending[id1]
        }).ip == (if state.active.contains_key(id2) {
            state.active[id2]
        } else {
            state.pending[id2]
        }).ip,
    ensures
        id1 == id2,
{
    if state.active.contains_key(id1) {
        assert(state.active_ips.contains(state.active[id1].ip));
    } else {
        assert(state.pending_ips.contains(state.pending[id1].ip));
    }
    if state.active.contains_key(id2) {
        assert(state.active_ips.contains(state.active[id2].ip));
    } else {
        assert(state.pending_ips.contains(state.pending[id2].ip));
    }
}

/// Whether `history` is a row of states that starts at genesis and goes
/// from each state to the next by one operation.
pub open spec fn is_history(history: Seq<ChainView>) -> bool {
    &&& history.len() > 0
    &&& exists|edge_bits: u8| history[0] == #[trigger] ChainView::genesis(edge_bits)
    &&& forall|i: int| 0 <= i < history.len() - 1 ==> (#[trigger] history[i]).steps_to(history[i + 1])
}

/// Whatever operations are made from genesis on, in whatever order, every
/// state meets the invariant: no node is both pending and active, and each
/// address set has the size of its lookup table and holds the addresses of
/// its entries.
pub proof fn lemma_history_keeps_invariant(history: Seq<ChainView>, i: int)
    requires
        is_history(history),
        0 <= i < history.len(),
    ensures
        history[i].wf(),
        forall|id: NodeId|
            !(history[i].active.contains_key(id) && history[i].pending.contains_key(id)),
        history[i].active_ips.len() == history[i].active.len(),
        history[i].pending_ips.len() == history[i].pending.len(),
        history[i].active_ips == addresses_of(history[i].active),
        history[i].pending_ips == addresses_of(history[i].pending),
    decreases i,
{
    if i == 0 {
        let edge_bits = choose|edge_bits: u8| history[0] == #[trigger] ChainView::genesis(edge_bits);
        lemma_genesis_meets_invariant(edge_bits);
    } else {
        lemma_history_keeps_invariant(history, i - 1);
        let state = history[i - 1];
        let next = history[i];
        assert(state.steps_to(next));
        if exists|entry: ValidatorEntry|
            state.admission_refusal(entry) is None && next == #[trigger] state.with_admitted(entry) {
            let entry = choose|entry: ValidatorEntry|
                state.admission_refusal(entry) is None && next == #[trigger] state.with_admitted(
                    entry,
                );
            lemma_admission_keeps_invariant(state, entry);
        } else if exists|id: NodeId, start_epoch: u64, end_epoch: u64|
            state.scheduling_refusal(id) is None && next == #[trigger] state.with_scheduled(
                id,
                start_epoch,
                end_epoch,
            ) {
            let (id, start_epoch, end_epoch) = choose|id: NodeId, start_epoch: u64, end_epoch: u64|
                state.scheduling_refusal(id) is None && next == #[trigger] state.with_scheduled(
                    id,
                    start_epoch,
                    end_epoch,
                );
            lemma_scheduling_keeps_invariant(state, id, start_epoch, end_epoch);
        } else if exists|epoch: u64|
            !state.blocked_at(epoch) && #[trigger] state.transition_to(next, epoch) {
            let epoch = choose|epoch: u64|
                !state.blocked_at(epoch) && #[trigger] state.transition_to(next, epoch);
            lemma_transition_keeps_invariant(state, next, epoch);
        } else {
            let (height, difficulty, edge_bits) = choose|height: u64, difficulty: u64, edge_bits: u8|
                next == #[trigger] state.with_parameters(height, difficulty, edge_bits);
            lemma_parameters_leave_invariant(state, height, difficulty, edge_bits);
        }
    }
    lemma_addresses_mirror_lookups(history[i]);
}

/// The state at genesis meets the invariant.
pub proof fn lemma_genesis_meets_invariant(edge_bits: u8)
    ensures
        ChainView::genesis(edge_bits).wf(),
{
    let state = ChainView::genesis(edge_bits);
    assert(state.queue_wf());
    assert forall|epoch: u64| !#[trigger] state.departure_at(epoch) by {}
}

/// After a transition that was not blocked the schedules still name nodes of
/// the pool only, each once, and every node that is active or scheduled to
/// join is still scheduled to leave.
pub proof fn lemma_transition_keeps_schedule(state: ChainView, next: ChainView, epoch: u64)
    requires
        state.wf(),
        !state.blocked_at(epoch),
        next.active == state.active.union_prefer_right(
            state.pending.restrict(state.joining(epoch)),
        ).remove_keys(state.leaving(epoch)),
        next.pending == state.pending.remove_keys(state.joining(epoch)),
        next.start_epochs == state.start_epochs.remove(epoch),
        next.end_epochs == state.end_epochs.remove(epoch),
    ensures
        next.schedule_wf(),
{
    assert forall|e: u64, id: NodeId| #[trigger]
        listed_at(next.start_epochs, e).contains(id) <==> (e != epoch && listed_at(
            state.start_epochs,
            e,
        ).contains(id)) by {}
    assert forall|e: u64, id: NodeId| #[trigger]
        listed_at(next.end_epochs, e).contains(id) <==> (e != epoch && listed_at(
            state.end_epochs,
            e,
        ).contains(id)) by {}
    assert forall|e: u64, id: NodeId| #[trigger]
        listed_at(next.start_epochs, e).contains(id) implies next.pending.contains_key(id)
        && listed(next.end_epochs, id) by {
        assert(listed_at(state.start_epochs, e).contains(id));
        if state.joining(epoch).contains(id) {
            assert(listed_at(state.start_epochs, epoch).contains(id));
        }
        let leave = choose|leave: u64| #[trigger] listed_at(state.end_epochs, leave).contains(id);
        if leave == epoch {
            assert(state.leaving(epoch).contains(id) && !state.active.contains_key(id)
                && !state.joining(epoch).contains(id));
        }
        assert(listed_at(next.end_epochs, leave).contains(id));
    }
    assert forall|id: NodeId| #[trigger] next.active.contains_key(id) implies listed(
        next.end_epochs,
        id,
    ) by {
        if state.active.contains_key(id) {
        } else {
            assert(listed_at(state.start_epochs, epoch).contains(id));
        }
        let leave = choose|leave: u64| #[trigger] listed_at(state.end_epochs, leave).contains(id);
        assert(listed_at(next.end_epochs, leave).contains(id));
    }
    assert forall|e: u64, id: NodeId| #[trigger]
        listed_at(next.end_epochs, e).contains(id) implies next.knows(id) by {
        assert(listed_at(state.end_epochs, e).contains(id));
        assert(state.knows(id));
        if state.leaving(epoch).contains(id) {
            assert(listed_at(state.end_epochs, epoch).contains(id));
        }
    }
}

/// A queue that lost the promoted nodes holds the nodes that are still
/// pending, each once.
pub proof fn lemma_filtered_queue(state: ChainView, next: ChainView, epoch: u64)
    requires
        state.queue_wf(),
        next.pending == state.pending.remove_keys(state.joining(epoch)),
        next.queue == state.queue.filter(|id: NodeId| !state.joining(epoch).contains(id)),
    ensures
        next.queue_wf(),
{
    let joining = state.joining(epoch);
    let keep = |id: NodeId| !joining.contains(id);
    lemma_filter_keeps_distinct(state.queue, keep);
    assert forall|id: NodeId| next.queue.contains(id) <==> next.pending.contains_key(id) by {
        if next.queue.contains(id) {
            state.queue.lemma_filter_contains_rev(keep, id);
            let i = choose|i: int| 0 <= i < next.queue.len() && next.queue[i] == id;
            state.queue.lemma_filter_pred(keep, i);
        }
        if next.pending.contains_key(id) {
            assert(state.queue.contains(id));
            let i = choose|i: int| 0 <= i < state.queue.len() && state.queue[i] == id;
            state.queue.lemma_filter_contains(keep, i);
        }
    }
}

/// Filtering by a test that every node passes changes nothing.
pub proof fn lemma_filter_keeps_all(queue: Seq<NodeId>, keep: spec_fn(NodeId) -> bool)
    requires
        forall|id: NodeId| #[trigger] keep(id),
    ensures
        queue.filter(keep) == queue,
    decreases queue.len(),
{
    reveal(Seq::filter);
    if queue.len() > 0 {
        lemma_filter_keeps_all(queue.drop_last(), keep);
        assert(queue.drop_last().push(queue.last()) =~= queue);
    }
}

/// Filtering a sequence without repetitions gives one without repetitions.
pub proof fn lemma_filter_keeps_distinct(queue: Seq<NodeId>, keep: spec_fn(NodeId) -> bool)
    requires
        queue.no_duplicates(),
    ensures
        queue.filter(keep).no_duplicates(),
    decreases queue.len(),
{
    reveal(Seq::filter);
    if queue.len() > 0 {
        let rest = queue.drop_last();
        lemma_filter_keeps_distinct(rest, keep);
        if keep(queue.last()) {
            let kept = rest.filter(keep);
            assert forall|i: int, j: int|
                0 <= i < kept.len() + 1 && 0 <= j < kept.len() + 1 && i != j implies kept.push(
                queue.last(),
            )[i] != kept.push(queue.last())[j] by {
                if i < kept.len() && j == kept.len() {
                    assert(kept.contains(kept[i]));
                    rest.lemma_filter_contains_rev(keep, kept[i]);
                    let k = choose|k: int| 0 <= k < rest.len() && rest[k] == kept[i];
                    assert(queue[k] == kept[i]);
                }
                if j < kept.len() && i == kept.len() {
                    assert(kept.contains(kept[j]));
                    rest.lemma_filter_contains_rev(keep, kept[j]);
                    let k = choose|k: int| 0 <= k < rest.len() && rest[k] == kept[j];
                    assert(queue[k] == kept[j]);
                }
            }
        }
    }
}

/// The invariant does not depend on the height, the difficulty or the proof
/// size.
pub proof fn lemma_parameters_leave_invariant(
    state: ChainView,
    height: u64,
    difficulty: u64,
    edge_bits: u8,
)
    requires
        state.wf(),
    ensures
        state.with_parameters(height, difficulty, edge_bits).wf(),
{
    let next = state.with_parameters(height, difficulty, edge_bits);
    assert forall|epoch: u64| next.departure_at(epoch) == state.departure_at(epoch) by {
        if state.departure_at(epoch) {
            let id = choose|id: NodeId| #[trigger]
                listed_at(state.end_epochs, epoch).contains(id) && state.active.contains_key(id);
            assert(listed_at(next.end_epochs, epoch).contains(id));
        }
        if next.departure_at(epoch) {
            let id = choose|id: NodeId| #[trigger]
                listed_at(next.end_epochs, epoch).contains(id) && next.active.contains_key(id);
            assert(listed_at(state.end_epochs, epoch).contains(id));
        }
    }
}

/// In a state that meets the invariant no node is both pending and active.
pub proof fn lemma_pending_and_active_exclude(state: ChainView, id: NodeId)
    requires
        state.wf(),
    ensures
        !(state.active.contains_key(id) && state.pending.contains_key(id)),
{
}

/// In a state that meets the invariant each address set has as many members
/// as its lookup table has entries, and its members are exactly the
/// addresses of those entries.
pub proof fn lemma_addresses_mirror_lookups(state: ChainView)
    requires
        state.wf(),
    ensures
        state.active_ips.len() == state.active.len(),
        state.pending_ips.len() == state.pending.len(),
        state.active_ips == addresses_of(state.active),
        state.pending_ips == addresses_of(state.pending),
{
    assert(state.active_ips =~= addresses_of(state.active));
    assert(state.pending_ips =~= addresses_of(state.pending));
}

/// In a state that meets the invariant the two end epochs are both absent
/// exactly when there is no active validator, and the first is not after the
/// last.
pub proof fn lemma_end_epochs_bound_active_set(state: ChainView)
    requires
        state.wf(),
    ensures
        state.first_end_epoch is None <==> state.active.dom() =~= Set::<NodeId>::empty(),
        state.last_end_epoch is None <==> state.active.dom() =~= Set::<NodeId>::empty(),
        state.first_end_epoch is Some ==> state.first_end_epoch->0 <= state.last_end_epoch->0,
{
    if exists|id: NodeId| state.active.contains_key(id) {
        let id = choose|id: NodeId| state.active.contains_key(id);
        let epoch = choose|epoch: u64| #[trigger] listed_at(state.end_epochs, epoch).contains(id);
        assert(state.departure_at(epoch));
    }
    if state.first_end_epoch is Some {
        assert(state.departure_at(state.first_end_epoch->0));
        let id = choose|id: NodeId| #[trigger]
            listed_at(state.end_epochs, state.first_end_epoch->0).contains(id)
                && state.active.contains_key(id);
        assert(state.active.dom().contains(id));
    }
    if state.last_end_epoch is Some {
        assert(state.departure_at(state.last_end_epoch->0));
        let id = choose|id: NodeId| #[trigger]
            listed_at(state.end_epochs, state.last_end_epoch->0).contains(id)
                && state.active.contains_key(id);
        assert(state.active.dom().contains(id));
    }
}

/// An admission that is not refused keeps the invariant.
pub proof fn lemma_admission_keeps_invariant(state: ChainView, entry: ValidatorEntry)
    requires
        state.wf(),
        state.admission_refusal(entry) is None,
    ensures
        state.with_admitted(entry).wf(),
{
    let next = state.with_admitted(entry);
    let id = entry.node_id;
    lemma_mirrors_insert(state.pending, state.pending_ips, entry);
    assert(next.pool_wf());
    assert(next.queue_wf()) by {
        assert(!state.queue.contains(id));
        assert forall|i: int, j: int|
            0 <= i < next.queue.len() && 0 <= j < next.queue.len() && i != j implies next.queue[i]
            != next.queue[j] by {
            if i < state.queue.len() {
                assert(state.queue.contains(state.queue[i]));
            }
            if j < state.queue.len() {
                assert(state.queue.contains(state.queue[j]));
            }
        }
        assert forall|other: NodeId|
            next.queue.contains(other) <==> next.pending.contains_key(other) by {
            if next.queue.contains(other) {
                let i = choose|i: int| 0 <= i < next.queue.len() && next.queue[i] == other;
                if i < state.queue.len() {
                    assert(state.queue.contains(other));
                }
            }
            if next.pending.contains_key(other) {
                if other == id {
                    assert(next.queue[state.queue.len() as int] == id);
                } else {
                    assert(state.queue.contains(other));
                    let i = choose|i: int| 0 <= i < state.queue.len() && state.queue[i] == other;
                    assert(next.queue[i] == other);
                }
            }
        }
    }
    assert(next.schedule_wf()) by {
        assert forall|epoch: u64, other: NodeId| #[trigger]
            listed_at(next.end_epochs, epoch).contains(other) implies next.knows(other) by {
            assert(state.knows(other));
        }
    }
    assert(next.bounds_wf()) by {
        assert forall|epoch: u64| next.departure_at(epoch) == state.departure_at(epoch) by {}
    }
}

/// A scheduling that is not refused keeps the invariant.
pub proof fn lemma_scheduling_keeps_invariant(
    state: ChainView,
    id: NodeId,
    start_epoch: u64,
    end_epoch: u64,
)
    requires
        state.wf(),
        state.scheduling_refusal(id) is None,
    ensures
        state.with_scheduled(id, start_epoch, end_epoch).wf(),
{
    let next = state.with_scheduled(id, start_epoch, end_epoch);
    lemma_listing_added(state.start_epochs, start_epoch, id);
    lemma_listing_added(state.end_epochs, end_epoch, id);
    assert(listed_once(next.start_epochs)) by {
        assert forall|e1: u64, e2: u64, other: NodeId|
            #[trigger] listed_at(next.start_epochs, e1).contains(other) && #[trigger] listed_at(
                next.start_epochs,
                e2,
            ).contains(other) implies e1 == e2 by {
            if other == id {
                assert(!listed_at(state.start_epochs, e1).contains(id));
                assert(!listed_at(state.start_epochs, e2).contains(id));
            }
        }
    }
    assert(listed_once(next.end_epochs)) by {
        assert forall|e1: u64, e2: u64, other: NodeId|
            #[trigger] listed_at(next.end_epochs, e1).contains(other) && #[trigger] listed_at(
                next.end_epochs,
                e2,
            ).contains(other) implies e1 == e2 by {
            if other == id {
                assert(!listed_at(state.end_epochs, e1).contains(id));
                assert(!listed_at(state.end_epochs, e2).contains(id));
            }
        }
    }
    assert forall|epoch: u64, other: NodeId| #[trigger]
        listed_at(next.start_epochs, epoch).contains(other) implies next.pending.contains_key(other)
        && listed(next.end_epochs, other) by {
        if other == id {
            assert(listed_at(next.end_epochs, end_epoch).contains(id));
        } else {
            assert(listed_at(state.start_epochs, epoch).contains(other));
            let leave = choose|leave: u64| #[trigger]
                listed_at(state.end_epochs, leave).contains(other);
            assert(listed_at(next.end_epochs, leave).contains(other));
        }
    }
    assert forall|other: NodeId| #[trigger] next.active.contains_key(other) implies listed(
        next.end_epochs,
        other,
    ) by {
        let leave = choose|leave: u64| #[trigger] listed_at(state.end_epochs, leave).contains(other);
        assert(listed_at(next.end_epochs, leave).contains(other));
    }
    assert(next.bounds_wf()) by {
        assert forall|epoch: u64| next.departure_at(epoch) == state.departure_at(epoch) by {
            if next.departure_at(epoch) {
                let x = choose|x: NodeId| #[trigger]
                    listed_at(next.end_epochs, epoch).contains(x) && next.active.contains_key(x);
                assert(listed_at(state.end_epochs, epoch).contains(x) && state.active.contains_key(
                    x,
                ));
            }
            if state.departure_at(epoch) {
                let x = choose|x: NodeId| #[trigger]
                    listed_at(state.end_epochs, epoch).contains(x) && state.active.contains_key(x);
                assert(listed_at(next.end_epochs, epoch).contains(x) && next.active.contains_key(x));
            }
        }
    }
}

/// What a table lists after one more listing: the new node under its epoch,
/// and everything that was listed before.
pub proof fn lemma_listing_added(table: Map<u64, Set<NodeId>>, epoch: u64, id: NodeId)
    ensures
        forall|e: u64, other: NodeId| #[trigger]
            listed_at(with_listing(table, epoch, id), e).contains(other) <==> (listed_at(
                table,
                e,
            ).contains(other) || (e == epoch && other == id)),
{
}

} // verus!
