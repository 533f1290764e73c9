use purple_core::chain_state::{ConsensusError, PowChainState, MIN_EDGE_BITS};
use purple_core::retarget::ClampedRetarget;
use purple_core::types::{NodeId, SocketAddress};
use purple_core::validator_entry::ValidatorEntry;

fn node(n: u8) -> NodeId {
    [n; 32]
}

fn address(n: u8) -> SocketAddress {
    (0x7f00_0000 + n as u128, 44034)
}

fn entry(n: u8, share: u64) -> ValidatorEntry {
    ValidatorEntry {
        node_id: node(n),
        ip: address(n),
        start_pow_block: [n.wrapping_add(100); 32],
        total_allocated: share,
    }
}

/// Admits a validator and schedules it at once.
fn admit_scheduled(
    state: &mut PowChainState,
    entry: ValidatorEntry,
    start_epoch: u64,
    end_epoch: u64,
) -> Result<(), ConsensusError> {
    state.admit_pending(entry)?;
    state.schedule(&entry.node_id, start_epoch, end_epoch)
}

fn policy() -> ClampedRetarget {
    ClampedRetarget {
        target_interval: 60,
        max_adjustment: 4,
        min_edge_bits: MIN_EDGE_BITS,
        max_edge_bits: 31,
    }
}

/// No node in both lookups; each address set as large as its lookup and
/// holding the address of every entry of it.
fn assert_pool_consistent(state: &PowChainState, nodes: &[u8]) {
    assert_eq!(
        state.active_validator_ips.len(),
        state.active_validator_lookup.len()
    );
    assert_eq!(
        state.pending_validator_ips.len(),
        state.pending_validator_lookup.len()
    );
    assert_eq!(
        state.pending_validators.len(),
        state.pending_validator_lookup.len()
    );
    for n in nodes.iter() {
        let active = state.active_validator_lookup.get(&node(*n));
        let pending = state.pending_validator_lookup.get(&node(*n));
        assert!(!(active.is_some() && pending.is_some()));
        assert_eq!(active.is_some(), state.active_validator_ips.contains(&address(*n)));
        assert_eq!(pending.is_some(), state.pending_validator_ips.contains(&address(*n)));
        assert_eq!(pending.is_some(), state.pending_validators.contains(&node(*n)));
        if let Some(e) = active {
            assert_eq!(e.ip, address(*n));
        }
        if let Some(e) = pending {
            assert_eq!(e.ip, address(*n));
        }
    }
}

#[test]
fn genesis_is_zeroed() {
    let state = PowChainState::genesis();
    assert_eq!(state.height, 0);
    assert_eq!(state.difficulty, 0);
    assert_eq!(state.edge_bits, MIN_EDGE_BITS);
    assert_eq!(state.first_end_epoch, None);
    assert_eq!(state.last_end_epoch, None);
    assert_eq!(state.active_validator_count(), 0);
    assert_eq!(state.pending_validator_count(), 0);
    assert!(state.pending_validators.is_empty());
    assert_eq!(state.active_validator_ips.len(), 0);
    assert_eq!(state.pending_validator_ips.len(), 0);
    assert_eq!(state.get_active_validator_set().len(), 0);
    assert!(!state.is_pending_or_active(&node(1)));
    assert_eq!(state.get_start_pow_block(&node(1)), None);
}

#[test]
fn admitted_validator_is_pending() {
    let mut state = PowChainState::genesis();
    assert_eq!(admit_scheduled(&mut state, entry(1, 10), 2, 5), Ok(()));
    assert_eq!(state.pending_validator_count(), 1);
    assert_eq!(state.active_validator_count(), 0);
    assert!(state.is_pending_or_active(&node(1)));
    assert!(!state.is_pending_or_active(&node(2)));
    assert_eq!(state.pending_validator_lookup.get(&node(1)), Some(entry(1, 10)));
    assert!(state.pending_validator_ips.contains(&address(1)));
    assert_eq!(state.pending_validators.len(), 1);
    assert_eq!(state.pending_validators[0], node(1));
    assert!(state.start_epochs_mapping.lists(2, &node(1)));
    assert!(!state.start_epochs_mapping.lists(5, &node(1)));
    assert!(state.end_epochs_mapping.lists(5, &node(1)));
    assert_eq!(state.get_start_pow_block(&node(1)), Some([101; 32]));
    assert_eq!(state.first_end_epoch, None);
    assert_eq!(state.last_end_epoch, None);
    assert_pool_consistent(&state, &[1, 2]);
}

#[test]
fn admission_alone_schedules_nothing() {
    let mut state = PowChainState::genesis();
    assert_eq!(state.admit_pending(entry(1, 10)), Ok(()));
    assert_eq!(state.pending_validator_count(), 1);
    assert_eq!(state.pending_validators.len(), 1);
    assert!(state.pending_validator_ips.contains(&address(1)));
    for epoch in 0..10u64 {
        assert!(!state.start_epochs_mapping.lists(epoch, &node(1)));
        assert!(!state.end_epochs_mapping.lists(epoch, &node(1)));
        assert_eq!(state.apply_epoch_transition(epoch), Ok(()));
    }
    assert_eq!(state.pending_validator_count(), 1);
    assert_eq!(state.active_validator_count(), 0);
}

#[test]
fn scheduling_lists_the_node_under_both_epochs() {
    let mut state = PowChainState::genesis();
    assert_eq!(state.admit_pending(entry(1, 10)), Ok(()));
    assert_eq!(state.schedule(&node(1), 3, 8), Ok(()));
    assert!(state.start_epochs_mapping.lists(3, &node(1)));
    assert!(state.end_epochs_mapping.lists(8, &node(1)));
    assert!(!state.start_epochs_mapping.lists(8, &node(1)));
    assert!(!state.end_epochs_mapping.lists(3, &node(1)));
    assert_eq!(state.pending_validator_count(), 1);
    assert_eq!(state.first_end_epoch, None);
}

#[test]
fn scheduling_an_unknown_validator_is_refused() {
    let mut state = PowChainState::genesis();
    assert_eq!(
        state.schedule(&node(1), 3, 8),
        Err(ConsensusError::UnknownValidator)
    );
    assert!(!state.start_epochs_mapping.lists(3, &node(1)));
    assert!(!state.end_epochs_mapping.lists(8, &node(1)));
}

#[test]
fn scheduling_an_active_validator_is_refused() {
    let mut state = PowChainState::genesis();
    assert_eq!(admit_scheduled(&mut state, entry(1, 10), 2, 5), Ok(()));
    assert_eq!(state.apply_epoch_transition(2), Ok(()));
    assert_eq!(
        state.schedule(&node(1), 3, 8),
        Err(ConsensusError::UnknownValidator)
    );
    assert!(state.end_epochs_mapping.lists(5, &node(1)));
    assert!(!state.end_epochs_mapping.lists(8, &node(1)));
}

#[test]
fn scheduling_twice_is_refused() {
    let mut state = PowChainState::genesis();
    assert_eq!(admit_scheduled(&mut state, entry(1, 10), 2, 5), Ok(()));
    assert_eq!(
        state.schedule(&node(1), 3, 8),
        Err(ConsensusError::DuplicateValidator)
    );
    assert_eq!(
        state.schedule(&node(1), 2, 5),
        Err(ConsensusError::DuplicateValidator)
    );
    assert!(state.start_epochs_mapping.lists(2, &node(1)));
    assert!(!state.start_epochs_mapping.lists(3, &node(1)));
    assert!(!state.end_epochs_mapping.lists(8, &node(1)));
}

#[test]
fn queue_keeps_the_order_of_admission() {
    let mut state = PowChainState::genesis();
    for n in [5u8, 3, 9, 1] {
        assert_eq!(admit_scheduled(&mut state, entry(n, 1), 4, 8), Ok(()));
    }
    let queue: Vec<NodeId> = state.pending_validators.iter().copied().collect();
    assert_eq!(queue, vec![node(5), node(3), node(9), node(1)]);
}

#[test]
fn duplicate_validator_is_refused() {
    let mut state = PowChainState::genesis();
    assert_eq!(admit_scheduled(&mut state, entry(1, 10), 2, 5), Ok(()));
    let mut again = entry(1, 99);
    again.ip = address(50);
    assert_eq!(
        admit_scheduled(&mut state, again, 3, 6),
        Err(ConsensusError::DuplicateValidator)
    );
    assert_eq!(state.pending_validator_count(), 1);
    assert_eq!(state.pending_validator_lookup.get(&node(1)), Some(entry(1, 10)));
    assert!(!state.pending_validator_ips.contains(&address(50)));
    assert!(!state.start_epochs_mapping.lists(3, &node(1)));
    assert_eq!(state.pending_validators.len(), 1);
}

#[test]
fn active_validator_is_a_duplicate_too() {
    let mut state = PowChainState::genesis();
    assert_eq!(admit_scheduled(&mut state, entry(1, 10), 2, 5), Ok(()));
    assert_eq!(state.apply_epoch_transition(2), Ok(()));
    let mut again = entry(1, 10);
    again.ip = address(50);
    assert_eq!(
        admit_scheduled(&mut state, again, 3, 6),
        Err(ConsensusError::DuplicateValidator)
    );
}

#[test]
fn duplicate_ip_is_refused() {
    let mut state = PowChainState::genesis();
    assert_eq!(admit_scheduled(&mut state, entry(1, 10), 2, 5), Ok(()));
    assert_eq!(admit_scheduled(&mut state, entry(2, 10), 2, 5), Ok(()));
    assert_eq!(state.apply_epoch_transition(2), Ok(()));
    assert_eq!(admit_scheduled(&mut state, entry(3, 10), 4, 9), Ok(()));
    let mut active_ip = entry(4, 10);
    active_ip.ip = address(1);
    assert_eq!(
        admit_scheduled(&mut state, active_ip, 4, 9),
        Err(ConsensusError::DuplicateIp)
    );
    let mut pending_ip = entry(4, 10);
    pending_ip.ip = address(3);
    assert_eq!(
        admit_scheduled(&mut state, pending_ip, 4, 9),
        Err(ConsensusError::DuplicateIp)
    );
    assert!(!state.is_pending_or_active(&node(4)));
    assert_pool_consistent(&state, &[1, 2, 3, 4]);
}

#[test]
fn node_in_both_lookups_is_inconsistent() {
    let mut promoted = PowChainState::genesis();
    assert_eq!(admit_scheduled(&mut promoted, entry(1, 10), 2, 5), Ok(()));
    assert_eq!(promoted.apply_epoch_transition(2), Ok(()));
    let mut state = PowChainState::genesis();
    assert_eq!(admit_scheduled(&mut state, entry(1, 10), 2, 5), Ok(()));
    state.active_validator_lookup = promoted.active_validator_lookup;
    assert_eq!(
        admit_scheduled(&mut state, entry(1, 10), 2, 5),
        Err(ConsensusError::InconsistentState)
    );
    assert_eq!(state.pending_validator_count(), 1);
    assert_eq!(
        state.try_get_start_pow_block(&node(1)),
        Err(ConsensusError::InconsistentState)
    );
    assert_eq!(state.try_get_start_pow_block(&node(2)), Ok(None));
}

#[test]
fn start_pow_block_of_pending_and_active_validators() {
    let mut state = PowChainState::genesis();
    assert_eq!(admit_scheduled(&mut state, entry(1, 10), 2, 5), Ok(()));
    assert_eq!(admit_scheduled(&mut state, entry(2, 10), 3, 5), Ok(()));
    assert_eq!(state.apply_epoch_transition(2), Ok(()));
    assert_eq!(state.get_start_pow_block(&node(1)), Some([101; 32]));
    assert_eq!(state.get_start_pow_block(&node(2)), Some([102; 32]));
    assert_eq!(state.get_start_pow_block(&node(3)), None);
    assert_eq!(state.try_get_start_pow_block(&node(1)), Ok(Some([101; 32])));
    assert_eq!(state.try_get_start_pow_block(&node(2)), Ok(Some([102; 32])));
    assert_eq!(state.try_get_start_pow_block(&node(3)), Ok(None));
}

#[test]
fn transition_promotes_and_retires() {
    let mut state = PowChainState::genesis();
    assert_eq!(admit_scheduled(&mut state, entry(1, 10), 2, 5), Ok(()));
    assert_eq!(admit_scheduled(&mut state, entry(2, 20), 2, 7), Ok(()));
    assert_eq!(admit_scheduled(&mut state, entry(3, 30), 3, 7), Ok(()));
    assert_pool_consistent(&state, &[1, 2, 3]);

    assert_eq!(state.apply_epoch_transition(2), Ok(()));
    assert_eq!(state.active_validator_count(), 2);
    assert_eq!(state.pending_validator_count(), 1);
    assert_eq!(state.active_validator_lookup.get(&node(1)), Some(entry(1, 10)));
    assert_eq!(state.active_validator_lookup.get(&node(2)), Some(entry(2, 20)));
    assert_eq!(state.pending_validator_lookup.get(&node(3)), Some(entry(3, 30)));
    assert_eq!(state.first_end_epoch, Some(5));
    assert_eq!(state.last_end_epoch, Some(7));
    assert_eq!(state.pending_validators.len(), 1);
    assert_eq!(state.pending_validators[0], node(3));
    assert!(!state.start_epochs_mapping.lists(2, &node(1)));
    assert!(state.start_epochs_mapping.lists(3, &node(3)));
    assert_pool_consistent(&state, &[1, 2, 3]);

    assert_eq!(state.apply_epoch_transition(3), Ok(()));
    assert_eq!(state.active_validator_count(), 3);
    assert_eq!(state.pending_validator_count(), 0);
    assert!(state.pending_validators.is_empty());
    assert_pool_consistent(&state, &[1, 2, 3]);

    assert_eq!(state.apply_epoch_transition(5), Ok(()));
    assert_eq!(state.active_validator_count(), 2);
    assert!(!state.is_pending_or_active(&node(1)));
    assert_eq!(state.get_start_pow_block(&node(1)), None);
    assert_eq!(state.get_start_pow_block(&node(2)), Some([102; 32]));
    assert!(!state.active_validator_ips.contains(&address(1)));
    assert_eq!(state.first_end_epoch, Some(7));
    assert_eq!(state.last_end_epoch, Some(7));
    assert_pool_consistent(&state, &[1, 2, 3]);

    assert_eq!(state.apply_epoch_transition(7), Ok(()));
    assert_eq!(state.active_validator_count(), 0);
    assert_eq!(state.first_end_epoch, None);
    assert_eq!(state.last_end_epoch, None);
    assert_pool_consistent(&state, &[1, 2, 3]);
}

#[test]
fn transition_of_an_empty_epoch_changes_nothing() {
    let mut state = PowChainState::genesis();
    assert_eq!(admit_scheduled(&mut state, entry(1, 10), 2, 5), Ok(()));
    assert_eq!(state.apply_epoch_transition(1), Ok(()));
    assert_eq!(state.apply_epoch_transition(4), Ok(()));
    assert_eq!(state.pending_validator_count(), 1);
    assert_eq!(state.active_validator_count(), 0);
    assert_eq!(state.pending_validators.len(), 1);
    assert_eq!(state.first_end_epoch, None);
}

#[test]
fn joining_and_leaving_in_one_epoch() {
    let mut state = PowChainState::genesis();
    assert_eq!(admit_scheduled(&mut state, entry(1, 10), 3, 3), Ok(()));
    assert_eq!(state.apply_epoch_transition(3), Ok(()));
    assert!(!state.is_pending_or_active(&node(1)));
    assert_eq!(state.active_validator_count(), 0);
    assert_eq!(state.pending_validator_count(), 0);
    assert_eq!(state.first_end_epoch, None);
    assert_pool_consistent(&state, &[1]);
}

#[test]
fn leaving_before_joining_is_unknown_validator() {
    let mut state = PowChainState::genesis();
    assert_eq!(admit_scheduled(&mut state, entry(1, 10), 4, 6), Ok(()));
    assert_eq!(admit_scheduled(&mut state, entry(2, 10), 4, 9), Ok(()));
    assert_eq!(
        state.apply_epoch_transition(6),
        Err(ConsensusError::UnknownValidator)
    );
    assert_eq!(state.pending_validator_count(), 2);
    assert_eq!(state.active_validator_count(), 0);
    assert!(state.end_epochs_mapping.lists(6, &node(1)));
    assert_eq!(state.apply_epoch_transition(4), Ok(()));
    assert_eq!(state.apply_epoch_transition(6), Ok(()));
    assert_eq!(state.active_validator_count(), 1);
    assert!(state.is_pending_or_active(&node(2)));
    assert!(!state.is_pending_or_active(&node(1)));
    assert_pool_consistent(&state, &[1, 2]);
}

#[test]
fn end_epochs_ignore_pending_validators() {
    let mut state = PowChainState::genesis();
    assert_eq!(admit_scheduled(&mut state, entry(1, 10), 2, 9), Ok(()));
    assert_eq!(admit_scheduled(&mut state, entry(2, 10), 5, 6), Ok(()));
    assert_eq!(admit_scheduled(&mut state, entry(3, 10), 5, 12), Ok(()));
    assert_eq!(state.apply_epoch_transition(2), Ok(()));
    assert_eq!(state.first_end_epoch, Some(9));
    assert_eq!(state.last_end_epoch, Some(9));
    assert_eq!(state.apply_epoch_transition(5), Ok(()));
    assert_eq!(state.first_end_epoch, Some(6));
    assert_eq!(state.last_end_epoch, Some(12));
}

#[test]
fn active_validator_set_is_the_active_lookup() {
    let mut state = PowChainState::genesis();
    assert_eq!(admit_scheduled(&mut state, entry(1, 10), 2, 5), Ok(()));
    assert_eq!(admit_scheduled(&mut state, entry(2, 20), 2, 7), Ok(()));
    assert_eq!(admit_scheduled(&mut state, entry(3, 30), 3, 7), Ok(()));
    assert_eq!(state.get_active_validator_set().len(), 0);
    assert_eq!(state.apply_epoch_transition(2), Ok(()));
    let shares = state.get_active_validator_set();
    assert_eq!(shares.len(), 2);
    assert_eq!(shares.get(&node(1)), Some(10));
    assert_eq!(shares.get(&node(2)), Some(20));
    assert_eq!(shares.get(&node(3)), None);
}

#[test]
fn advance_raises_height_and_retargets() {
    let mut state = PowChainState::genesis();
    assert_eq!(state.advance(1, 60, &policy(), 10), Ok(()));
    assert_eq!(state.height, 1);
    assert_eq!(state.difficulty, 1);
    assert_eq!(state.edge_bits, MIN_EDGE_BITS);
    assert_eq!(state.advance(2, 20, &policy(), 10), Ok(()));
    assert_eq!(state.height, 2);
    assert_eq!(state.difficulty, 3);
    assert_eq!(state.advance(3, 1, &policy(), 10), Ok(()));
    assert_eq!(state.difficulty, 12);
}

#[test]
fn advance_refuses_a_height_out_of_turn() {
    let mut state = PowChainState::genesis();
    assert_eq!(
        state.advance(2, 60, &policy(), 10),
        Err(ConsensusError::InconsistentState)
    );
    assert_eq!(
        state.advance(0, 60, &policy(), 10),
        Err(ConsensusError::InconsistentState)
    );
    assert_eq!(state.height, 0);
    assert_eq!(state.difficulty, 0);
    state.height = u64::MAX;
    assert_eq!(
        state.advance(0, 60, &policy(), 10),
        Err(ConsensusError::InconsistentState)
    );
}

#[test]
fn advance_makes_the_transition_at_the_end_of_an_epoch() {
    let mut state = PowChainState::genesis();
    assert_eq!(admit_scheduled(&mut state, entry(1, 10), 1, 2), Ok(()));
    assert_eq!(admit_scheduled(&mut state, entry(2, 10), 2, 3), Ok(()));
    for height in 1..=3u64 {
        assert_eq!(state.advance(height, 60, &policy(), 4), Ok(()));
        assert_eq!(state.active_validator_count(), 0);
    }
    assert_eq!(state.advance(4, 60, &policy(), 4), Ok(()));
    assert_eq!(state.active_validator_count(), 1);
    assert!(state.active_validator_lookup.contains_key(&node(1)));
    for height in 5..=8u64 {
        assert_eq!(state.advance(height, 60, &policy(), 4), Ok(()));
    }
    assert_eq!(state.height, 8);
    assert!(!state.is_pending_or_active(&node(1)));
    assert!(state.active_validator_lookup.contains_key(&node(2)));
    assert_eq!(state.first_end_epoch, Some(3));
    assert_pool_consistent(&state, &[1, 2]);
}

#[test]
fn advance_without_epochs_never_transitions() {
    let mut state = PowChainState::genesis();
    assert_eq!(admit_scheduled(&mut state, entry(1, 10), 1, 2), Ok(()));
    for height in 1..=5u64 {
        assert_eq!(state.advance(height, 60, &policy(), 0), Ok(()));
    }
    assert_eq!(state.height, 5);
    assert_eq!(state.pending_validator_count(), 1);
    assert_eq!(state.active_validator_count(), 0);
}

#[test]
fn blocked_transition_leaves_the_height() {
    let mut state = PowChainState::genesis();
    assert_eq!(admit_scheduled(&mut state, entry(1, 10), 5, 1), Ok(()));
    assert_eq!(
        state.advance(1, 60, &policy(), 1),
        Err(ConsensusError::UnknownValidator)
    );
    assert_eq!(state.height, 0);
    assert_eq!(state.difficulty, 0);
    assert_eq!(state.pending_validator_count(), 1);
}

#[test]
fn flush_changes_nothing() {
    let mut state = PowChainState::genesis();
    assert_eq!(admit_scheduled(&mut state, entry(1, 10), 2, 5), Ok(()));
    assert_eq!(state.flush(), Ok(()));
    assert_eq!(state.pending_validator_count(), 1);
    assert_eq!(state.height, 0);
}

#[test]
fn pool_stays_consistent_under_any_order_of_operations() {
    let mut state = PowChainState::genesis();
    let mut seed: u64 = 0x2545_f491_4f6c_dd1d;
    let mut next = move || {
        seed ^= seed << 13;
        seed ^= seed >> 7;
        seed ^= seed << 17;
        seed
    };
    let nodes: Vec<u8> = (0..24).collect();
    let mut admitted = 0u64;
    let mut refused = 0u64;
    for _ in 0..600 {
        let roll = next();
        if roll % 3 == 0 {
            let epoch = (roll >> 8) % 12;
            let blocked = state.apply_epoch_transition(epoch);
            assert!(blocked == Ok(()) || blocked == Err(ConsensusError::UnknownValidator));
        } else {
            let n = ((roll >> 8) % 24) as u8;
            let start = (roll >> 16) % 12;
            let end = (roll >> 24) % 12;
            let mut candidate = entry(n, roll >> 32);
            if (roll >> 40) % 5 == 0 {
                candidate.ip = address(((roll >> 44) % 24) as u8);
            }
            let known = state.is_pending_or_active(&candidate.node_id);
            let taken = state.active_validator_ips.contains(&candidate.ip)
                || state.pending_validator_ips.contains(&candidate.ip);
            let expected = if known {
                Err(ConsensusError::DuplicateValidator)
            } else if taken {
                Err(ConsensusError::DuplicateIp)
            } else {
                Ok(())
            };
            let result = state.admit_pending(candidate);
            assert_eq!(result, expected);
            if result.is_ok() && (roll >> 50) % 4 != 0 {
                assert_eq!(state.schedule(&candidate.node_id, start, end), Ok(()));
                assert_eq!(
                    state.schedule(&candidate.node_id, end, start),
                    Err(ConsensusError::DuplicateValidator)
                );
            }
            if result.is_ok() {
                admitted += 1;
            } else {
                refused += 1;
            }
        }
        assert_eq!(
            state.active_validator_ips.len(),
            state.active_validator_lookup.len()
        );
        assert_eq!(
            state.pending_validator_ips.len(),
            state.pending_validator_lookup.len()
        );
        assert_eq!(
            state.pending_validators.len(),
            state.pending_validator_lookup.len()
        );
        for n in nodes.iter() {
            let active = state.active_validator_lookup.get(&node(*n));
            let pending = state.pending_validator_lookup.get(&node(*n));
            assert!(!(active.is_some() && pending.is_some()));
            if let Some(e) = active {
                assert!(state.active_validator_ips.contains(&e.ip));
                assert!(!state.pending_validator_ips.contains(&e.ip));
            }
            if let Some(e) = pending {
                assert!(state.pending_validator_ips.contains(&e.ip));
                assert!(!state.active_validator_ips.contains(&e.ip));
            }
        }
        assert_eq!(
            state.first_end_epoch.is_none(),
            state.active_validator_count() == 0
        );
        assert_eq!(state.first_end_epoch.is_none(), state.last_end_epoch.is_none());
        if let (Some(first), Some(last)) = (state.first_end_epoch, state.last_end_epoch) {
            assert!(first <= last);
        }
        let shares = state.get_active_validator_set();
        assert_eq!(shares.len() as u64, state.active_validator_count());
        for n in nodes.iter() {
            assert_eq!(
                shares.get(&node(*n)),
                state.active_validator_lookup.get(&node(*n)).map(|e| e.total_allocated)
            );
        }
    }
    assert!(admitted > 20);
    assert!(refused > 20);
}
