//! The state of the proof-of-work chain: its height, its difficulty, the
//! proof size in force, and the pool of validators with the epochs in which
//! they join and leave.

use crate::chain_model::{
    addresses_of, lemma_admission_keeps_invariant, lemma_filter_keeps_all,
    lemma_filtered_queue, lemma_parameters_leave_invariant, lemma_promotion_keeps_pool,
    lemma_retirement_keeps_pool, lemma_scheduling_keeps_invariant,
    lemma_transition_keeps_schedule, listed, listed_at, with_listing, ChainView,
};
use crate::collections::{AddressSet, EpochTable, NodeSet, ShareTable, ValidatorTable};
use crate::retarget::RetargetPolicy;
use crate::types::{BlockHash, NodeId};
use crate::validator_entry::ValidatorEntry;
use std::collections::VecDeque;
use vstd::prelude::*;

verus! {

/// The smallest proof size that the chain accepts, in edge bits; the one in
/// force at genesis.
pub const MIN_EDGE_BITS: u8 = 24;

/// Why an operation on the chain state was refused.
#[derive(Clone, Copy, Debug, PartialEq, Eq, Structural)]
pub enum ConsensusError {
    /// The node is already in the pool, pending or active.
    DuplicateValidator,
    /// The address is already used by a validator of the pool.
    DuplicateIp,
    /// A node that the operation names is not where the operation needs it.
    UnknownValidator,
    /// The state contradicts itself, or the request contradicts the state.
    InconsistentState,
}

/// Chain state associated with the proof-of-work chain.
#[derive(Debug)]
pub struct PowChainState {
    /// The current chain height.
    pub height: u64,
    /// The current difficulty.
    pub difficulty: u64,
    /// The current proof size, in edge bits.
    pub edge_bits: u8,
    /// The first epoch in which a validator leaves the active set; `None`
    /// while there is no active validator.
    pub first_end_epoch: Option<u64>,
    /// The last epoch in which a validator of the current active set leaves
    /// it; `None` while there is no active validator.
    pub last_end_epoch: Option<u64>,
    /// The ids of the validators that await admission, first come first.
    pub pending_validators: VecDeque<NodeId>,
    /// Lookup table between node ids and active validator entries.
    pub active_validator_lookup: ValidatorTable,
    /// Lookup table between node ids and pending validator entries.
    pub pending_validator_lookup: ValidatorTable,
    /// The addresses of the active validators.
    pub active_validator_ips: AddressSet,
    /// The addresses of the pending validators.
    pub pending_validator_ips: AddressSet,
    /// Mapping between epochs and the nodes that join in them.
    pub start_epochs_mapping: EpochTable,
    /// Mapping between epochs and the nodes that leave in them.
    pub end_epochs_mapping: EpochTable,
}

impl View for PowChainState {
    type V = ChainView;

    open spec fn view(&self) -> ChainView {
        ChainView {
            height: self.height,
            difficulty: self.difficulty,
            edge_bits: self.edge_bits,
            first_end_epoch: self.first_end_epoch,
            last_end_epoch: self.last_end_epoch,
            queue: self.pending_validators@,
            active: self.active_validator_lookup@,
            pending: self.pending_validator_lookup@,
            active_ips: self.active_validator_ips@,
            pending_ips: self.pending_validator_ips@,
            start_epochs: self.start_epochs_mapping@,
            end_epochs: self.end_epochs_mapping@,
        }
    }
}

/// Lists `id` under `epoch` in `table`, beside what is listed there.
fn list_under(table: &mut EpochTable, epoch: u64, id: NodeId)
    ensures
        final(table)@ == with_listing(old(table)@, epoch, id),
{
    let mut set = match table.take(epoch) {
        Some(set) => set,
        None => NodeSet::empty(),
    };
    set.add(id);
    table.put(epoch, set);
    assert(table@ =~= with_listing(old(table)@, epoch, id));
}

/// Whether `table` lists `id` under some epoch.
fn is_listed(table: &EpochTable, id: &NodeId) -> (found: bool)
    ensures
        found == listed(table@, *id),
{
    let epochs = table.epochs();
    let mut i: usize = 0;
    while i < epochs.len()
        invariant
            i <= epochs.len(),
            epochs@.to_set() == table@.dom(),
            forall|j: int| 0 <= j < i ==> !listed_at(table@, #[trigger] epochs@[j]).contains(*id),
        decreases epochs.len() - i,
    {
        let epoch = epochs[i];
        let here = match table.lookup(epoch) {
            Some(set) => set.has(id),
            None => false,
        };
        if here {
            assert(listed_at(table@, epoch).contains(*id));
            return true;
        }
        i = i + 1;
    }
    proof {
        assert forall|epoch: u64| !#[trigger] listed_at(table@, epoch).contains(*id) by {
            if table@.contains_key(epoch) {
                assert(epochs@.to_set().contains(epoch));
                assert(epochs@.contains(epoch));
                let j = choose|j: int| 0 <= j < epochs@.len() && epochs@[j] == epoch;
                assert(!listed_at(table@, epochs@[j]).contains(*id));
            }
        }
    }
    false
}

impl PowChainState {
    /// The invariant of the chain state: no node is both pending and active,
    /// the address sets mirror the lookup tables, the queue holds the pending
    /// nodes, the schedules name nodes of the pool only, and the two end
    /// epochs bound the departures of the active validators.
    pub open spec fn wf(&self) -> bool {
        self@.wf()
    }

    /// The state at genesis.
    pub fn genesis() -> (state: PowChainState)
        ensures
            state@ == ChainView::genesis(MIN_EDGE_BITS),
            state.wf(),
    {
        let state = PowChainState {
            height: 0,
            difficulty: 0,
            edge_bits: MIN_EDGE_BITS,
            first_end_epoch: None,
            last_end_epoch: None,
            pending_validators: VecDeque::new(),
            active_validator_lookup: ValidatorTable::empty(),
            pending_validator_lookup: ValidatorTable::empty(),
            active_validator_ips: AddressSet::empty(),
            pending_validator_ips: AddressSet::empty(),
            start_epochs_mapping: EpochTable::empty(),
            end_epochs_mapping: EpochTable::empty(),
        };
        assert(state@ =~= ChainView::genesis(MIN_EDGE_BITS));
        state
    }

    /// The number of active validators.
    pub fn active_validator_count(&self) -> (count: u64)
        ensures
            count == self@.active.len(),
    {
        self.active_validator_lookup.count() as u64
    }

    /// The number of validators that wait to join the active set.
    pub fn pending_validator_count(&self) -> (count: u64)
        ensures
            count == self@.pending.len(),
    {
        self.pending_validator_lookup.count() as u64
    }

    /// Whether the node with the given id is in the pool, active or waiting
    /// to join.
    pub fn is_pending_or_active(&self, node_id: &NodeId) -> (known: bool)
        ensures
            known == self@.knows(*node_id),
    {
        self.active_validator_lookup.lookup(node_id).is_some()
            || self.pending_validator_lookup.lookup(node_id).is_some()
    }

    /// The active validators, each with its allocated share.
    pub fn get_active_validator_set(&self) -> (shares: ShareTable)
        ensures
            shares@ == self@.active.map_values(|entry: ValidatorEntry| entry.total_allocated),
    {
        let ids = self.active_validator_lookup.ids();
        let mut shares = ShareTable::empty();
        let mut i: usize = 0;
        while i < ids.len()
            invariant
                i <= ids.len(),
                ids@.to_set() == self@.active.dom(),
                forall|j: int| 0 <= j < i ==> shares@.contains_key(#[trigger] ids@[j]),
                forall|id: NodeId| #[trigger]
                    shares@.contains_key(id) ==> self@.active.contains_key(id) && shares@[id]
                        == self@.active[id].total_allocated,
            decreases ids.len() - i,
        {
            let id = ids[i];
            assert(ids@.contains(id));
            assert(ids@.to_set().contains(id));
            match self.active_validator_lookup.lookup(&id) {
                Some(entry) => {
                    assert(self@.active.contains_key(id));
                    assert(*entry == self@.active[id]);
                    let ghost before = shares@;
                    shares.put(id, entry.total_allocated);
                    assert(shares@ == before.insert(id, self@.active[id].total_allocated));
                },
                None => {},
            }
            i = i + 1;
        }
        proof {
            assert forall|id: NodeId| self@.active.contains_key(id) implies shares@.contains_key(
                id,
            ) by {
                assert(ids@.to_set().contains(id));
                assert(ids@.contains(id));
                let j = choose|j: int| 0 <= j < ids@.len() && ids@[j] == id;
                assert(shares@.contains_key(ids@[j]));
            }
            assert(shares@ =~= self@.active.map_values(
                |entry: ValidatorEntry| entry.total_allocated,
            ));
        }
        shares
    }

    /// The proof-of-work block that marks the admission of the validator with
    /// the given id, pending or active; nothing for a node that is not in
    /// the pool. A node that both lookup tables hold has no answer.
    pub fn get_start_pow_block(&self, id: &NodeId) -> (block: Option<BlockHash>)
        requires
            !(self@.active.contains_key(*id) && self@.pending.contains_key(*id)),
        ensures
            self@.active.contains_key(*id) ==> block == Some(self@.active[*id].start_pow_block),
            self@.pending.contains_key(*id) ==> block == Some(self@.pending[*id].start_pow_block),
            !self@.knows(*id) ==> block is None,
    {
        let active_result = self.active_validator_lookup.lookup(id);
        let pending_result = self.pending_validator_lookup.lookup(id);
        match (active_result, pending_result) {
            (Some(entry), _) => Some(entry.start_pow_block),
            (None, Some(entry)) => Some(entry.start_pow_block),
            (None, None) => None,
        }
    }

    /// As `get_start_pow_block`, for any state: a node that both lookup
    /// tables hold is reported as `InconsistentState`.
    pub fn try_get_start_pow_block(&self, id: &NodeId) -> (r: Result<
        Option<BlockHash>,
        ConsensusError,
    >)
        ensures
            r is Err <==> self@.active.contains_key(*id) && self@.pending.contains_key(*id),
            r matches Err(e) ==> e == ConsensusError::InconsistentState,
            r matches Ok(block) ==> {
                &&& self@.active.contains_key(*id) ==> block == Some(
                    self@.active[*id].start_pow_block,
                )
                &&& self@.pending.contains_key(*id) ==> block == Some(
                    self@.pending[*id].start_pow_block,
                )
                &&& !self@.knows(*id) ==> block is None
            },
    {
        if self.active_validator_lookup.lookup(id).is_some()
            && self.pending_validator_lookup.lookup(id).is_some() {
            return Err(ConsensusError::InconsistentState);
        }
        Ok(self.get_start_pow_block(id))
    }

    /// Admits `entry` to the pool as a pending validator: it enters the
    /// pending lookup table, its address the pending address set, and its
    /// node the end of the queue.
    ///
    /// The request is refused, and the state left as it was, with
    /// `InconsistentState` where both lookup tables hold the node, with
    /// `DuplicateValidator` where one of them does, and with `DuplicateIp`
    /// where the address is in one of the address sets.
    pub fn admit_pending(&mut self, entry: ValidatorEntry) -> (r: Result<(), ConsensusError>)
        ensures
            r == (match old(self)@.admission_refusal(entry) {
                Some(e) => Err(e),
                None => Ok(()),
            }),
            r is Err ==> final(self)@ == old(self)@,
            r is Ok ==> final(self)@ == old(self)@.with_admitted(entry),
            old(self).wf() ==> final(self).wf(),
    {
        let in_active = self.active_validator_lookup.lookup(&entry.node_id).is_some();
        let in_pending = self.pending_validator_lookup.lookup(&entry.node_id).is_some();
        if in_active && in_pending {
            return Err(ConsensusError::InconsistentState);
        }
        if in_active || in_pending {
            return Err(ConsensusError::DuplicateValidator);
        }
        if self.active_validator_ips.has(&entry.ip) || self.pending_validator_ips.has(&entry.ip) {
            return Err(ConsensusError::DuplicateIp);
        }
        self.pending_validator_lookup.put(entry.node_id, entry);
        self.pending_validator_ips.add(entry.ip);
        self.pending_validators.push_back(entry.node_id);
        proof {
            assert(self@ =~= old(self)@.with_admitted(entry));
            if old(self).wf() {
                lemma_admission_keeps_invariant(old(self)@, entry);
            }
        }
        Ok(())
    }

    /// Schedules the pending validator `id` to join the active set in
    /// `start_epoch` and to leave it in `end_epoch`.
    ///
    /// The request is refused, and the state left as it was, with
    /// `UnknownValidator` where the node is not pending, and with
    /// `DuplicateValidator` where it is scheduled already.
    pub fn schedule(&mut self, id: &NodeId, start_epoch: u64, end_epoch: u64) -> (r: Result<
        (),
        ConsensusError,
    >)
        ensures
            r == (match old(self)@.scheduling_refusal(*id) {
                Some(e) => Err(e),
                None => Ok(()),
            }),
            r is Err ==> final(self)@ == old(self)@,
            r is Ok ==> final(self)@ == old(self)@.with_scheduled(*id, start_epoch, end_epoch),
            old(self).wf() ==> final(self).wf(),
    {
        if self.pending_validator_lookup.lookup(id).is_none() {
            return Err(ConsensusError::UnknownValidator);
        }
        if is_listed(&self.start_epochs_mapping, id) || is_listed(&self.end_epochs_mapping, id) {
            return Err(ConsensusError::DuplicateValidator);
        }
        list_under(&mut self.start_epochs_mapping, start_epoch, *id);
        list_under(&mut self.end_epochs_mapping, end_epoch, *id);
        proof {
            assert(self@ =~= old(self)@.with_scheduled(*id, start_epoch, end_epoch));
            if old(self).wf() {
                lemma_scheduling_keeps_invariant(old(self)@, *id, start_epoch, end_epoch);
            }
        }
        Ok(())
    }

    /// Whether the transition of `epoch` is blocked: a node scheduled to leave
    /// in it is not active and does not join in it.
    fn is_blocked(&self, epoch: u64) -> (blocked: bool)
        ensures
            blocked == self@.blocked_at(epoch),
    {
        let leaving = match self.end_epochs_mapping.lookup(epoch) {
            Some(set) => set.members(),
            None => Vec::new(),
        };
        assert(leaving@.to_set() =~= self@.leaving(epoch));
        let joining = self.start_epochs_mapping.lookup(epoch);
        let mut i: usize = 0;
        while i < leaving.len()
            invariant
                i <= leaving.len(),
                leaving@.to_set() == self@.leaving(epoch),
                joining is Some <==> self@.start_epochs.contains_key(epoch),
                joining is Some ==> joining->0@ == self@.start_epochs[epoch],
                forall|j: int|
                    0 <= j < i ==> self@.active.contains_key(#[trigger] leaving@[j])
                        || self@.joining(epoch).contains(leaving@[j]),
            decreases leaving.len() - i,
        {
            let id = leaving[i];
            let joins = match joining {
                Some(set) => set.has(&id),
                None => false,
            };
            if self.active_validator_lookup.lookup(&id).is_none() && !joins {
                proof {
                    assert(leaving@.contains(id));
                    assert(leaving@.to_set().contains(id));
                }
                return true;
            }
            i = i + 1;
        }
        proof {
            if self@.blocked_at(epoch) {
                let id = choose|id: NodeId| #[trigger]
                    self@.leaving(epoch).contains(id) && !self@.active.contains_key(id)
                        && !self@.joining(epoch).contains(id);
                assert(leaving@.to_set().contains(id));
                assert(leaving@.contains(id));
            }
        }
        false
    }

    /// Moves the nodes of `ids` from the pending tables to the active ones.
    fn promote(&mut self, ids: &Vec<NodeId>)
        requires
            old(self)@.pool_wf(),
            ids@.no_duplicates(),
            forall|id: NodeId| ids@.contains(id) ==> old(self)@.pending.contains_key(id),
        ensures
            final(self)@.pool_wf(),
            final(self)@.active == old(self)@.active.union_prefer_right(
                old(self)@.pending.restrict(ids@.to_set()),
            ),
            final(self)@.pending == old(self)@.pending.remove_keys(ids@.to_set()),
            final(self)@ == (ChainView {
                active: final(self)@.active,
                active_ips: final(self)@.active_ips,
                pending: final(self)@.pending,
                pending_ips: final(self)@.pending_ips,
                ..old(self)@
            }),
    {
        let mut i: usize = 0;
        while i < ids.len()
            invariant
                i <= ids.len(),
                ids@.no_duplicates(),
                forall|id: NodeId| ids@.contains(id) ==> old(self)@.pending.contains_key(id),
                old(self)@.pool_wf(),
                self@.pool_wf(),
                self@.active == old(self)@.active.union_prefer_right(
                    old(self)@.pending.restrict(ids@.take(i as int).to_set()),
                ),
                self@.pending == old(self)@.pending.remove_keys(ids@.take(i as int).to_set()),
                self@ == (ChainView {
                    active: self@.active,
                    active_ips: self@.active_ips,
                    pending: self@.pending,
                    pending_ips: self@.pending_ips,
                    ..old(self)@
                }),
            decreases ids.len() - i,
        {
            let id = ids[i];
            let ghost before = self@;
            let ghost done = ids@.take(i as int).to_set();
            proof {
                assert(ids@.contains(id));
                assert(!done.contains(id)) by {
                    if done.contains(id) {
                        assert(ids@.take(i as int).contains(id));
                        let j = choose|j: int| 0 <= j < i && ids@.take(i as int)[j] == id;
                        assert(ids@[j] == ids@[i as int]);
                    }
                }
                assert(before.pending.contains_key(id));
                ids@.lemma_take_succ_push(i as int);
                ids@.take(i as int).lemma_push_to_set_commute(id);
                lemma_promotion_keeps_pool(before, id);
            }
            match self.pending_validator_lookup.take(&id) {
                Some(entry) => {
                    self.pending_validator_ips.discard(&entry.ip);
                    self.active_validator_lookup.put(id, entry);
                    self.active_validator_ips.add(entry.ip);
                },
                None => {},
            }
            proof {
                assert(self@ =~= before.with_promoted(id));
                assert(self@.active =~= old(self)@.active.union_prefer_right(
                    old(self)@.pending.restrict(done.insert(id)),
                ));
                assert(self@.pending =~= old(self)@.pending.remove_keys(done.insert(id)));
            }
            i = i + 1;
        }
        proof {
            assert(ids@.take(ids@.len() as int) =~= ids@);
            assert(ids@.take(0).to_set() =~= Set::<NodeId>::empty());
        }
    }

    /// Removes the nodes of `ids` from the active tables.
    fn retire(&mut self, ids: &Vec<NodeId>)
        requires
            old(self)@.pool_wf(),
            ids@.no_duplicates(),
            forall|id: NodeId| ids@.contains(id) ==> old(self)@.active.contains_key(id),
        ensures
            final(self)@.pool_wf(),
            final(self)@.active == old(self)@.active.remove_keys(ids@.to_set()),
            final(self)@ == (ChainView {
                active: final(self)@.active,
                active_ips: final(self)@.active_ips,
                ..old(self)@
            }),
    {
        let mut i: usize = 0;
        while i < ids.len()
            invariant
                i <= ids.len(),
                ids@.no_duplicates(),
                forall|id: NodeId| ids@.contains(id) ==> old(self)@.active.contains_key(id),
                self@.pool_wf(),
                self@.active == old(self)@.active.remove_keys(ids@.take(i as int).to_set()),
                self@ == (ChainView {
                    active: self@.active,
                    active_ips: self@.active_ips,
                    ..old(self)@
                }),
            decreases ids.len() - i,
        {
            let id = ids[i];
            let ghost before = self@;
            let ghost done = ids@.take(i as int).to_set();
            proof {
                assert(ids@.contains(id));
                assert(!done.contains(id)) by {
                    if done.contains(id) {
                        assert(ids@.take(i as int).contains(id));
                        let j = choose|j: int| 0 <= j < i && ids@.take(i as int)[j] == id;
                        assert(ids@[j] == ids@[i as int]);
                    }
                }
                assert(before.active.contains_key(id));
                ids@.lemma_take_succ_push(i as int);
                ids@.take(i as int).lemma_push_to_set_commute(id);
                lemma_retirement_keeps_pool(before, id);
            }
            match self.active_validator_lookup.take(&id) {
                Some(entry) => {
                    self.active_validator_ips.discard(&entry.ip);
                },
                None => {},
            }
            proof {
                assert(self@ =~= before.with_retired(id));
                assert(self@.active =~= old(self)@.active.remove_keys(done.insert(id)));
            }
            i = i + 1;
        }
        proof {
            assert(ids@.take(ids@.len() as int) =~= ids@);
            assert(ids@.take(0).to_set() =~= Set::<NodeId>::empty());
        }
    }

    /// Takes the nodes of `promoted` out of the queue; the others keep their
    /// order.
    fn dequeue(&mut self, promoted: &NodeSet)
        ensures
            final(self)@ == (ChainView {
                queue: old(self)@.queue.filter(|id: NodeId| !promoted@.contains(id)),
                ..old(self)@
            }),
    {
        let ghost keep = |id: NodeId| !promoted@.contains(id);
        let mut kept: VecDeque<NodeId> = VecDeque::new();
        let mut i: usize = 0;
        proof {
            assert(self.pending_validators@.take(0) =~= Seq::<NodeId>::empty());
            reveal(Seq::filter);
        }
        while i < self.pending_validators.len()
            invariant
                i <= self.pending_validators@.len(),
                self@ == old(self)@,
                keep == (|id: NodeId| !promoted@.contains(id)),
                kept@ == self.pending_validators@.take(i as int).filter(keep),
            decreases self.pending_validators@.len() - i,
        {
            let id = self.pending_validators[i];
            proof {
                self.pending_validators@.lemma_take_succ_push(i as int);
                self.pending_validators@.take(i as int).lemma_filter_push(id, keep);
            }
            if !promoted.has(&id) {
                kept.push_back(id);
            }
            i = i + 1;
        }
        proof {
            assert(self.pending_validators@.take(self.pending_validators@.len() as int)
                =~= self.pending_validators@);
        }
        self.pending_validators = kept;
    }

    /// Whether one of `ids` is an active validator.
    fn any_active(&self, ids: &Vec<NodeId>) -> (found: bool)
        ensures
            found == exists|id: NodeId| #[trigger]
                ids@.to_set().contains(id) && self@.active.contains_key(id),
    {
        let mut i: usize = 0;
        while i < ids.len()
            invariant
                i <= ids.len(),
                forall|j: int| 0 <= j < i ==> !self@.active.contains_key(#[trigger] ids@[j]),
            decreases ids.len() - i,
        {
            if self.active_validator_lookup.lookup(&ids[i]).is_some() {
                proof {
                    assert(ids@.contains(ids@[i as int]));
                    assert(ids@.to_set().contains(ids@[i as int]));
                }
                return true;
            }
            i = i + 1;
        }
        proof {
            assert forall|id: NodeId| #[trigger]
                ids@.to_set().contains(id) implies !self@.active.contains_key(id) by {
                assert(ids@.contains(id));
            }
        }
        false
    }

    /// Sets the two end epochs to the first and the last epoch in which an
    /// active validator is scheduled to leave.
    fn recompute_bounds(&mut self)
        ensures
            final(self)@.bounds_wf(),
            final(self)@ == (ChainView {
                first_end_epoch: final(self)@.first_end_epoch,
                last_end_epoch: final(self)@.last_end_epoch,
                ..old(self)@
            }),
    {
        let epochs = self.end_epochs_mapping.epochs();
        let mut first: Option<u64> = None;
        let mut last: Option<u64> = None;
        let mut i: usize = 0;
        while i < epochs.len()
            invariant
                i <= epochs.len(),
                self@ == old(self)@,
                epochs@.to_set() == self@.end_epochs.dom(),
                first is Some <==> last is Some,
                first matches Some(f) ==> self@.departure_at(f),
                last matches Some(l) ==> self@.departure_at(l),
                forall|j: int|
                    0 <= j < i && self@.departure_at(#[trigger] epochs@[j]) ==> first is Some
                        && first->0 <= epochs@[j] <= last->0,
            decreases epochs.len() - i,
        {
            let epoch = epochs[i];
            proof {
                assert(epochs@.contains(epoch));
                assert(epochs@.to_set().contains(epoch));
            }
            let members = match self.end_epochs_mapping.lookup(epoch) {
                Some(set) => set.members(),
                None => Vec::new(),
            };
            assert(members@.to_set() == listed_at(self@.end_epochs, epoch));
            if self.any_active(&members) {
                first = match first {
                    Some(f) => Some(if epoch < f { epoch } else { f }),
                    None => Some(epoch),
                };
                last = match last {
                    Some(l) => Some(if epoch > l { epoch } else { l }),
                    None => Some(epoch),
                };
            }
            i = i + 1;
        }
        proof {
            assert forall|epoch: u64| #[trigger] self@.departure_at(epoch) implies first is Some
                && first->0 <= epoch <= last->0 by {
                assert(self@.end_epochs.contains_key(epoch));
                assert(epochs@.to_set().contains(epoch));
                assert(epochs@.contains(epoch));
                let j = choose|j: int| 0 <= j < epochs@.len() && epochs@[j] == epoch;
                assert(self@.departure_at(epochs@[j]));
            }
        }
        let ghost before = self@;
        self.first_end_epoch = first;
        self.last_end_epoch = last;
        proof {
            assert forall|epoch: u64| self@.departure_at(epoch) == before.departure_at(epoch) by {
                if before.departure_at(epoch) {
                    let id = choose|id: NodeId| #[trigger]
                        listed_at(before.end_epochs, epoch).contains(id)
                            && before.active.contains_key(id);
                    assert(listed_at(self@.end_epochs, epoch).contains(id));
                }
                if self@.departure_at(epoch) {
                    let id = choose|id: NodeId| #[trigger]
                        listed_at(self@.end_epochs, epoch).contains(id)
                            && self@.active.contains_key(id);
                    assert(listed_at(before.end_epochs, epoch).contains(id));
                }
            }
        }
    }

    /// Makes the transition of `epoch`: the nodes scheduled to join in it move
    /// from pending to active, the nodes scheduled to leave in it are deleted
    /// from the active set, both schedules lose the epoch, and the two end
    /// epochs are computed anew.
    ///
    /// The transition is refused with `UnknownValidator`, and the state left
    /// as it was, where a node is scheduled to leave in `epoch` that is not
    /// active and does not join in `epoch` either.
    pub fn apply_epoch_transition(&mut self, epoch: u64) -> (r: Result<(), ConsensusError>)
        requires
            old(self).wf(),
        ensures
            final(self).wf(),
            r is Err <==> old(self)@.blocked_at(epoch),
            r matches Err(e) ==> e == ConsensusError::UnknownValidator && final(self)@ == old(self)@,
            r is Ok ==> old(self)@.transition_to(final(self)@, epoch),
    {
        if self.is_blocked(epoch) {
            return Err(ConsensusError::UnknownValidator);
        }
        let ghost before = self@;
        let ghost joining = before.joining(epoch);
        let ghost leaving = before.leaving(epoch);
        match self.start_epochs_mapping.take(epoch) {
            Some(set) => {
                let ids = set.members();
                proof {
                    assert forall|id: NodeId| ids@.contains(id) implies before.pending.contains_key(
                        id,
                    ) by {
                        assert(ids@.to_set().contains(id));
                        assert(listed_at(before.start_epochs, epoch).contains(id));
                    }
                }
                self.promote(&ids);
                self.dequeue(&set);
            },
            None => {
                proof {
                    assert(self@.active =~= before.active.union_prefer_right(
                        before.pending.restrict(joining),
                    ));
                    assert(self@.pending =~= before.pending.remove_keys(joining));
                    assert(self@.start_epochs =~= before.start_epochs.remove(epoch));
                    lemma_filter_keeps_all(before.queue, |id: NodeId| !joining.contains(id));
                }
            },
        }
        let ghost promoted = self@;
        let members = match self.end_epochs_mapping.take(epoch) {
            Some(set) => set.members(),
            None => Vec::new(),
        };
        proof {
            assert(members@.to_set() =~= leaving);
            assert(self@.end_epochs =~= before.end_epochs.remove(epoch));
            assert forall|id: NodeId| members@.contains(id) implies self@.active.contains_key(
                id,
            ) by {
                assert(members@.to_set().contains(id));
                assert(before.leaving(epoch).contains(id));
            }
        }
        self.retire(&members);
        self.recompute_bounds();
        proof {
            lemma_transition_keeps_schedule(before, self@, epoch);
            lemma_filtered_queue(before, self@, epoch);
            assert(self@.active_ips =~= addresses_of(self@.active));
            assert(self@.pending_ips =~= addresses_of(self@.pending));
        }
        Ok(())
    }

    /// Takes the chain to the block at `height`, which arrived
    /// `observed_interval` after its parent: the height becomes `height`, the
    /// difficulty and the proof size become what `policy` gives, and where
    /// `height` is a multiple of `epoch_length` the transition of the epoch
    /// `height / epoch_length` is made. An `epoch_length` of zero means that
    /// there are no epochs.
    ///
    /// The block is refused, and the state left as it was, with
    /// `InconsistentState` where `height` is not the height of the state plus
    /// one, and with `UnknownValidator` where the transition is blocked.
    pub fn advance<P: RetargetPolicy>(
        &mut self,
        height: u64,
        observed_interval: u64,
        policy: &P,
        epoch_length: u64,
    ) -> (r: Result<(), ConsensusError>)
        requires
            old(self).wf(),
        ensures
            final(self).wf(),
            r == old(self)@.advance_verdict(height, epoch_length),
            r is Err ==> final(self)@ == old(self)@,
            r is Ok ==> old(self)@.advances_to(
                final(self)@,
                height,
                epoch_length,
                policy.next_target(
                    old(self).difficulty,
                    old(self).edge_bits,
                    height,
                    observed_interval,
                ),
            ),
    {
        if self.height == u64::MAX || height != self.height + 1 {
            return Err(ConsensusError::InconsistentState);
        }
        if epoch_length > 0 && height % epoch_length == 0 {
            match self.apply_epoch_transition(height / epoch_length) {
                Ok(()) => {},
                Err(e) => {
                    return Err(e);
                },
            }
        }
        let target = policy.retarget(self.difficulty, self.edge_bits, height, observed_interval);
        self.height = height;
        self.difficulty = target.0;
        self.edge_bits = target.1;
        proof {
            lemma_parameters_leave_invariant(
                self@.with_parameters(old(self).height, old(self).difficulty, old(self).edge_bits),
                height,
                target.0,
                target.1,
            );
            assert(self@ =~= self@.with_parameters(
                old(self).height,
                old(self).difficulty,
                old(self).edge_bits,
            ).with_parameters(height, target.0, target.1));
        }
        Ok(())
    }

    /// Hands the state to durable storage. At this layer there is nothing to
    /// do: the call succeeds and changes nothing.
    pub fn flush(&mut self) -> (r: Result<(), ConsensusError>)
        ensures
            r is Ok,
            final(self)@ == old(self)@,
    {
        Ok(())
    }
}

} // verus!
