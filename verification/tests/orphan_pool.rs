use stateless_validation::hash::CryptoHash;
use stateless_validation::orphan_witness_pool::OrphanStateWitnessPool;
use stateless_validation::primitives::{
    ChunkStateTransition, ChunkStateWitness, PartialState, ShardChunkHeader,
};

fn hash(n: u8) -> CryptoHash {
    CryptoHash([n; 32])
}

fn witness(height: u64, shard_id: u64, parent: u8) -> ChunkStateWitness {
    ChunkStateWitness {
        chunk_header: ShardChunkHeader {
            chunk_hash: hash(200),
            prev_block_hash: hash(parent),
            shard_id,
            height_created: height,
            height_included: height,
            prev_state_root: hash(0),
            prev_outcome_root: hash(0),
            tx_root: hash(0),
            prev_outgoing_receipts_root: hash(0),
            prev_gas_used: 0,
            gas_limit: 0,
            prev_balance_burnt: 0,
            prev_validator_proposals: vec![],
        },
        main_state_transition: ChunkStateTransition {
            block_hash: hash(parent),
            base_state: PartialState { nodes: vec![] },
            post_state_root: hash(0),
        },
        source_receipt_proofs: vec![],
        transactions: vec![],
        applied_receipts_hash: hash(0),
        implicit_transitions: vec![],
        new_transactions: vec![],
        new_transactions_validation_state: PartialState { nodes: vec![] },
    }
}

fn heights(witnesses: &[ChunkStateWitness]) -> Vec<(u64, u64)> {
    let mut found: Vec<(u64, u64)> = witnesses
        .iter()
        .map(|w| (w.chunk_header.shard_id, w.chunk_header.height_created))
        .collect();
    found.sort();
    found
}

#[test]
fn empty_pool_releases_nothing() {
    let mut pool = OrphanStateWitnessPool::new(8, 2);
    assert!(pool.take_state_witnesses_waiting_for_block(&hash(1)).is_empty());
    let mut pool = OrphanStateWitnessPool::default();
    assert!(pool.take_state_witnesses_waiting_for_block(&hash(1)).is_empty());
}

#[test]
fn a_witness_is_released_once_when_its_parent_arrives() {
    let mut pool = OrphanStateWitnessPool::new(8, 2);
    pool.add_orphan_state_witness(witness(10, 0, 7), "alice".to_string());
    assert!(pool.take_state_witnesses_waiting_for_block(&hash(8)).is_empty());
    let released = pool.take_state_witnesses_waiting_for_block(&hash(7));
    assert_eq!(released, vec![witness(10, 0, 7)]);
    assert!(pool.take_state_witnesses_waiting_for_block(&hash(7)).is_empty());
}

#[test]
fn all_witnesses_of_one_parent_are_released_together() {
    let mut pool = OrphanStateWitnessPool::default();
    let mut expected = Vec::new();
    for producer in 0..128u64 {
        for height in 0..4u64 {
            pool.add_orphan_state_witness(
                witness(100 + height, producer % 3, 9),
                format!("producer{}", producer),
            );
            expected.push(witness(100 + height, producer % 3, 9));
        }
    }
    let released = pool.take_state_witnesses_waiting_for_block(&hash(9));
    assert_eq!(released.len(), 512);
    assert_eq!(released, expected);
    assert!(pool.take_state_witnesses_waiting_for_block(&hash(9)).is_empty());
    pool.add_orphan_state_witness(witness(1, 0, 9), "late".to_string());
    assert_eq!(pool.take_state_witnesses_waiting_for_block(&hash(9)), vec![witness(1, 0, 9)]);
}

#[test]
fn only_the_witnesses_of_the_arrived_block_are_released() {
    let mut pool = OrphanStateWitnessPool::new(8, 4);
    pool.add_orphan_state_witness(witness(1, 0, 1), "alice".to_string());
    pool.add_orphan_state_witness(witness(2, 0, 2), "alice".to_string());
    pool.add_orphan_state_witness(witness(3, 1, 1), "bob".to_string());
    pool.add_orphan_state_witness(witness(4, 1, 3), "bob".to_string());
    let released = pool.take_state_witnesses_waiting_for_block(&hash(1));
    assert_eq!(released, vec![witness(1, 0, 1), witness(3, 1, 1)]);
    assert_eq!(pool.take_state_witnesses_waiting_for_block(&hash(3)), vec![witness(4, 1, 3)]);
    assert_eq!(pool.take_state_witnesses_waiting_for_block(&hash(2)), vec![witness(2, 0, 2)]);
    assert!(pool.take_state_witnesses_waiting_for_block(&hash(1)).is_empty());
}

#[test]
fn a_pool_without_capacity_keeps_nothing() {
    let mut pool = OrphanStateWitnessPool::new(0, 4);
    pool.add_orphan_state_witness(witness(1, 0, 1), "alice".to_string());
    assert!(pool.take_state_witnesses_waiting_for_block(&hash(1)).is_empty());
    let mut pool = OrphanStateWitnessPool::new(4, 0);
    pool.add_orphan_state_witness(witness(1, 0, 1), "alice".to_string());
    assert!(pool.take_state_witnesses_waiting_for_block(&hash(1)).is_empty());
    let mut pool = OrphanStateWitnessPool::new(0, 0);
    pool.add_orphan_state_witness(witness(1, 0, 1), "alice".to_string());
    assert!(pool.take_state_witnesses_waiting_for_block(&hash(1)).is_empty());
}

#[test]
fn a_full_producer_cache_drops_its_least_recent_witness() {
    let mut pool = OrphanStateWitnessPool::new(4, 2);
    pool.add_orphan_state_witness(witness(5, 0, 1), "alice".to_string());
    pool.add_orphan_state_witness(witness(1, 0, 1), "alice".to_string());
    pool.add_orphan_state_witness(witness(7, 0, 1), "alice".to_string());
    let released = pool.take_state_witnesses_waiting_for_block(&hash(1));
    assert_eq!(heights(&released), vec![(0, 1), (0, 7)]);
}

#[test]
fn a_dropped_witness_leaves_no_trace_under_its_parent() {
    let mut pool = OrphanStateWitnessPool::new(4, 1);
    pool.add_orphan_state_witness(witness(5, 0, 1), "alice".to_string());
    pool.add_orphan_state_witness(witness(6, 0, 2), "alice".to_string());
    assert!(pool.take_state_witnesses_waiting_for_block(&hash(1)).is_empty());
    assert_eq!(pool.take_state_witnesses_waiting_for_block(&hash(2)), vec![witness(6, 0, 2)]);
}

#[test]
fn a_witness_of_the_same_height_takes_the_place_of_the_old_one() {
    let mut pool = OrphanStateWitnessPool::new(4, 4);
    pool.add_orphan_state_witness(witness(5, 0, 1), "alice".to_string());
    pool.add_orphan_state_witness(witness(5, 0, 2), "alice".to_string());
    assert!(pool.take_state_witnesses_waiting_for_block(&hash(1)).is_empty());
    assert_eq!(pool.take_state_witnesses_waiting_for_block(&hash(2)), vec![witness(5, 0, 2)]);
}

#[test]
fn a_new_producer_pushes_out_the_least_recent_producer_with_all_its_witnesses() {
    let mut pool = OrphanStateWitnessPool::new(2, 4);
    pool.add_orphan_state_witness(witness(1, 0, 1), "alice".to_string());
    pool.add_orphan_state_witness(witness(2, 0, 2), "alice".to_string());
    pool.add_orphan_state_witness(witness(1, 0, 1), "bob".to_string());
    pool.add_orphan_state_witness(witness(3, 0, 2), "carol".to_string());
    let released = pool.take_state_witnesses_waiting_for_block(&hash(1));
    assert_eq!(released, vec![witness(1, 0, 1)]);
    let released = pool.take_state_witnesses_waiting_for_block(&hash(2));
    assert_eq!(released, vec![witness(3, 0, 2)]);
}

#[test]
fn adding_for_a_producer_counts_as_using_its_cache() {
    let mut pool = OrphanStateWitnessPool::new(2, 4);
    pool.add_orphan_state_witness(witness(1, 0, 1), "alice".to_string());
    pool.add_orphan_state_witness(witness(1, 1, 1), "bob".to_string());
    pool.add_orphan_state_witness(witness(2, 0, 1), "alice".to_string());
    pool.add_orphan_state_witness(witness(1, 2, 1), "carol".to_string());
    let released = pool.take_state_witnesses_waiting_for_block(&hash(1));
    assert_eq!(heights(&released), vec![(0, 1), (0, 2), (2, 1)]);
}

#[test]
fn releasing_a_witness_counts_as_using_its_producer_cache() {
    let mut pool = OrphanStateWitnessPool::new(2, 4);
    pool.add_orphan_state_witness(witness(1, 0, 1), "alice".to_string());
    pool.add_orphan_state_witness(witness(2, 0, 2), "alice".to_string());
    pool.add_orphan_state_witness(witness(1, 1, 2), "bob".to_string());
    assert_eq!(pool.take_state_witnesses_waiting_for_block(&hash(1)), vec![witness(1, 0, 1)]);
    pool.add_orphan_state_witness(witness(1, 2, 3), "carol".to_string());
    let released = pool.take_state_witnesses_waiting_for_block(&hash(2));
    assert_eq!(released, vec![witness(2, 0, 2)]);
    assert_eq!(pool.take_state_witnesses_waiting_for_block(&hash(3)), vec![witness(1, 2, 3)]);
}

#[test]
fn an_emptied_producer_cache_makes_room_for_another_producer() {
    let mut pool = OrphanStateWitnessPool::new(2, 4);
    pool.add_orphan_state_witness(witness(1, 0, 1), "alice".to_string());
    pool.add_orphan_state_witness(witness(1, 1, 2), "bob".to_string());
    assert_eq!(pool.take_state_witnesses_waiting_for_block(&hash(2)), vec![witness(1, 1, 2)]);
    pool.add_orphan_state_witness(witness(1, 2, 3), "carol".to_string());
    assert_eq!(pool.take_state_witnesses_waiting_for_block(&hash(1)), vec![witness(1, 0, 1)]);
    assert_eq!(pool.take_state_witnesses_waiting_for_block(&hash(3)), vec![witness(1, 2, 3)]);
}

#[test]
fn the_same_account_on_two_shards_has_two_caches() {
    let mut pool = OrphanStateWitnessPool::new(4, 1);
    pool.add_orphan_state_witness(witness(1, 0, 1), "alice".to_string());
    pool.add_orphan_state_witness(witness(1, 1, 1), "alice".to_string());
    let released = pool.take_state_witnesses_waiting_for_block(&hash(1));
    assert_eq!(heights(&released), vec![(0, 1), (1, 1)]);
}

#[test]
fn the_default_pool_keeps_four_witnesses_of_each_of_128_producers() {
    let mut pool = OrphanStateWitnessPool::default();
    for height in 0..5u64 {
        pool.add_orphan_state_witness(witness(height, 0, 1), "alice".to_string());
    }
    let released = pool.take_state_witnesses_waiting_for_block(&hash(1));
    assert_eq!(heights(&released), vec![(0, 1), (0, 2), (0, 3), (0, 4)]);
    for producer in 0..129u64 {
        pool.add_orphan_state_witness(witness(producer, 0, 2), format!("producer{}", producer));
    }
    let released = pool.take_state_witnesses_waiting_for_block(&hash(2));
    assert_eq!(released.len(), 128);
    assert!(!heights(&released).contains(&(0, 0)));
    assert!(heights(&released).contains(&(0, 128)));
}

#[test]
fn the_pool_stays_in_step_through_a_long_mixed_run() {
    let mut pool = OrphanStateWitnessPool::new(3, 2);
    let mut state: u64 = 12345;
    for _ in 0..2000 {
        state = state.wrapping_mul(6364136223846793005).wrapping_add(1442695040888963407);
        let producer = (state >> 33) % 5;
        let height = (state >> 40) % 4;
        let parent = ((state >> 45) % 4) as u8;
        if (state >> 50) % 3 == 0 {
            let released = pool.take_state_witnesses_waiting_for_block(&hash(parent));
            for w in released.iter() {
                assert_eq!(w.chunk_header.prev_block_hash, hash(parent));
            }
            assert!(released.len() <= 6);
            assert!(pool.take_state_witnesses_waiting_for_block(&hash(parent)).is_empty());
        } else {
            pool.add_orphan_state_witness(witness(height, 0, parent), format!("producer{}", producer));
        }
    }
    let mut left = 0;
    for parent in 0..4u8 {
        left += pool.take_state_witnesses_waiting_for_block(&hash(parent)).len();
    }
    assert!(left <= 6);
    for parent in 0..4u8 {
        assert!(pool.take_state_witnesses_waiting_for_block(&hash(parent)).is_empty());
    }
}
