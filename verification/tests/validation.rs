use stateless_validation::adapters::{ChainStoreAccess, EpochManagerAdapter};
use stateless_validation::chunk_validation::{ChunkValidationTask, ChunkValidator};
use stateless_validation::client::{get_prev_chunk_header, Client};
use stateless_validation::error::{Error, Failure, WitnessMismatch};
use stateless_validation::hash::CryptoHash;
use stateless_validation::orphan_witness_pool::OrphanStateWitnessPool;
use stateless_validation::mock::{
    compute_digest, IncomingReceipts, MockChainStore, MockCommitments, MockEpochManager,
    MockRuntime, MockSigner, ScriptedResult, StoredChunkExtra, StoredTransition, NOT_IN_SCRIPT,
};
use stateless_validation::pre_validation::{
    collect_receipts_from_response, pre_validate_chunk_state_witness,
};
use stateless_validation::primitives::{
    ApplyChunkBlockContext, ApplyChunkResult, Block, BlockHeader, ChunkEndorsement, ChunkExtra,
    ChunkStateTransition, ChunkStateWitness, Encoded, EpochId, PartialState, ReceiptProof,
    ReceiptProofResponse, ShardChunk, ShardChunkHeader, ShardLayout, ShardUId,
    SourceReceiptProof, StorageContext, StorageDataSource, StoredChunkStateTransitionData,
    ValidatorStake,
};
use stateless_validation::replay_validation::{
    apply_result_to_chunk_extra, validate_chunk_state_witness,
    validate_chunk_with_chunk_extra_and_receipts_root,
};

fn hash(n: u8) -> CryptoHash {
    CryptoHash([n; 32])
}

fn root(n: u8) -> CryptoHash {
    CryptoHash([100 + n; 32])
}

fn encoded(id: u8, data: &[u8]) -> Encoded {
    Encoded { id: hash(id), data: data.to_vec() }
}

fn base_state(n: u8) -> PartialState {
    PartialState { nodes: vec![vec![n, n], vec![n]] }
}

fn transactions() -> Vec<Encoded> {
    vec![encoded(61, b"pay"), encoded(62, b"stake")]
}

fn new_transactions() -> Vec<Encoded> {
    vec![encoded(71, b"call")]
}

fn receipts() -> Vec<Encoded> {
    vec![encoded(81, b"r1"), encoded(82, b"r2")]
}

fn outgoing() -> Vec<Encoded> {
    vec![encoded(91, b"o1")]
}

fn outcomes() -> Vec<Encoded> {
    vec![encoded(95, b"x1")]
}

fn ids(items: &[Encoded]) -> Vec<CryptoHash> {
    items.iter().map(|item| item.id).collect()
}

fn proposals() -> Vec<ValidatorStake> {
    vec![ValidatorStake { account_id: "dave".to_string(), stake: 77 }]
}

fn plain_header(chunk: u8, prev_block: u8, created: u64, included: u64) -> ShardChunkHeader {
    ShardChunkHeader {
        chunk_hash: hash(chunk),
        prev_block_hash: hash(prev_block),
        shard_id: 0,
        height_created: created,
        height_included: included,
        prev_state_root: hash(0),
        prev_outcome_root: hash(0),
        tx_root: hash(0),
        prev_outgoing_receipts_root: hash(0),
        prev_gas_used: 0,
        gas_limit: 1000,
        prev_balance_burnt: 0,
        prev_validator_proposals: vec![],
    }
}

fn block_header(n: u8) -> BlockHeader {
    BlockHeader {
        hash: hash(n),
        prev_hash: hash(n - 1),
        height: n as u64,
        epoch_id: EpochId(hash(99)),
        timestamp: 1000 + n as u64,
        next_gas_price: 10 * n as u128,
        random_value: hash(50 + n),
    }
}

fn block(n: u8, chunk: ShardChunkHeader) -> Block {
    Block { header: block_header(n), chunks: vec![chunk] }
}

fn first_chunk() -> ShardChunkHeader {
    plain_header(11, 0, 1, 1)
}

fn second_chunk() -> ShardChunkHeader {
    let mut header = plain_header(12, 1, 2, 2);
    header.tx_root = compute_digest(2, &ids(&transactions()));
    header
}

fn result_at(n: u8) -> ApplyChunkResult {
    if n == 2 {
        ApplyChunkResult {
            new_root: root(2),
            outgoing_receipts: outgoing(),
            outcomes: outcomes(),
            validator_proposals: proposals(),
            total_gas_burnt: 7,
            total_balance_burnt: 9,
        }
    } else {
        ApplyChunkResult {
            new_root: root(n),
            outgoing_receipts: vec![],
            outcomes: vec![],
            validator_proposals: vec![],
            total_gas_burnt: 0,
            total_balance_burnt: 0,
        }
    }
}

fn names(list: &[&str]) -> Vec<String> {
    list.iter().map(|name| name.to_string()).collect()
}

struct Scene {
    store: MockChainStore,
    epoch_manager: MockEpochManager,
    runtime: MockRuntime,
    witness: ChunkStateWitness,
    new_chunk: ShardChunk,
}

/// A chain of `2 + skipped` blocks: the shard's chunks are new in blocks 1 and
/// 2, the blocks after that skip the shard, and a chunk is proposed on top.
fn scene(skipped: u8) -> Scene {
    let last = 2 + skipped;
    let mut store = MockChainStore::new();
    store.blocks.push(block(1, first_chunk()));
    store.blocks.push(block(2, second_chunk()));
    for n in 3..=last {
        store.blocks.push(block(n, second_chunk()));
    }
    store.chunks.push(ShardChunk { header: first_chunk(), transactions: vec![] });
    store.chunks.push(ShardChunk { header: second_chunk(), transactions: transactions() });
    store.incoming_receipts.push(IncomingReceipts {
        shard_id: 0,
        block_hash: hash(2),
        last_chunk_height_included: 1,
        responses: vec![ReceiptProofResponse {
            block_hash: hash(1),
            proofs: vec![ReceiptProof {
                receipts: receipts(),
                from_shard_id: 0,
                to_shard_id: 0,
                proof: vec![hash(33)],
            }],
        }],
    });
    let mut script = Vec::new();
    for n in 2..=last {
        store.state_transitions.push(StoredTransition {
            block_hash: hash(n),
            shard_id: 0,
            data: StoredChunkStateTransitionData {
                base_state: base_state(n),
                receipts_hash: compute_digest(1, &ids(&receipts())),
            },
        });
        store.chunk_extras.push(StoredChunkExtra {
            block_hash: hash(n),
            shard_uid: ShardUId { version: 1, shard_id: 0 },
            chunk_extra: ChunkExtra {
                state_root: root(n),
                outcome_root: hash(0),
                validator_proposals: vec![],
                gas_used: 0,
                gas_limit: 1000,
                balance_burnt: 0,
            },
        });
        script.push(ScriptedResult { block_hash: hash(n), result: result_at(n) });
    }
    let height = last as u64 + 1;
    let mut header = plain_header(20, last, height, height);
    header.prev_state_root = root(last);
    header.prev_outcome_root = compute_digest(2, &ids(&outcomes()));
    header.prev_validator_proposals = proposals();
    header.prev_gas_used = 7;
    header.prev_balance_burnt = 9;
    header.tx_root = compute_digest(2, &ids(&new_transactions()));
    header.prev_outgoing_receipts_root =
        compute_digest(4, &[compute_digest(3, &ids(&outgoing()))].to_vec());
    let mut implicit_transitions = Vec::new();
    for n in 3..=last {
        implicit_transitions.push(ChunkStateTransition {
            block_hash: hash(n),
            base_state: base_state(n),
            post_state_root: root(n),
        });
    }
    let witness = ChunkStateWitness {
        chunk_header: header.clone(),
        main_state_transition: ChunkStateTransition {
            block_hash: hash(2),
            base_state: base_state(2),
            post_state_root: root(2),
        },
        source_receipt_proofs: vec![SourceReceiptProof {
            chunk_hash: hash(11),
            proof: ReceiptProof {
                receipts: receipts(),
                from_shard_id: 0,
                to_shard_id: 0,
                proof: vec![hash(33)],
            },
        }],
        transactions: transactions(),
        applied_receipts_hash: compute_digest(1, &ids(&receipts())),
        implicit_transitions,
        new_transactions: new_transactions(),
        new_transactions_validation_state: PartialState { nodes: vec![] },
    };
    Scene {
        store,
        epoch_manager: MockEpochManager {
            epoch_id: EpochId(hash(99)),
            chunk_validation: true,
            chunk_validators: names(&["alice", "bob"]),
            first_height: height,
            block_producers: names(&["bp0", "bp1", "bp2", "bp3", "bp4", "bp5", "bp6"]),
            shard_layout: ShardLayout { version: 1, num_shards: 1 },
        },
        runtime: MockRuntime { script },
        witness,
        new_chunk: ShardChunk { header, transactions: new_transactions() },
    }
}

fn make_validator(scene: Scene, account: Option<&str>) -> (
    ChunkValidator<MockSigner, MockEpochManager, MockRuntime, MockCommitments>,
    MockChainStore,
    ChunkStateWitness,
) {
    let signer = account.map(|name| MockSigner { account_id: name.to_string() });
    (
        ChunkValidator::new(signer, scene.epoch_manager, scene.runtime, MockCommitments {}),
        scene.store,
        scene.witness,
    )
}

fn context(n: u8) -> ApplyChunkBlockContext {
    ApplyChunkBlockContext {
        height: n as u64,
        block_hash: hash(n),
        prev_block_hash: hash(n - 1),
        block_timestamp: 1000 + n as u64,
        gas_price: 10 * (n as u128 - 1),
        random_seed: hash(50 + n),
    }
}

#[test]
fn receipts_are_collected_block_by_block_and_proof_by_proof() {
    let proof = |list: Vec<Encoded>| ReceiptProof {
        receipts: list,
        from_shard_id: 0,
        to_shard_id: 1,
        proof: vec![],
    };
    let responses = vec![
        ReceiptProofResponse {
            block_hash: hash(1),
            proofs: vec![proof(vec![encoded(1, b"a")]), proof(vec![]), proof(vec![encoded(2, b"b")])],
        },
        ReceiptProofResponse { block_hash: hash(2), proofs: vec![] },
        ReceiptProofResponse {
            block_hash: hash(3),
            proofs: vec![proof(vec![encoded(3, b"c"), encoded(4, b"d")])],
        },
    ];
    let collected = collect_receipts_from_response(&responses);
    assert_eq!(
        collected,
        vec![encoded(1, b"a"), encoded(2, b"b"), encoded(3, b"c"), encoded(4, b"d")]
    );
    assert!(collect_receipts_from_response(&vec![]).is_empty());
}

#[test]
fn pre_validation_builds_the_replay_requests() {
    let s = scene(0);
    let output = pre_validate_chunk_state_witness(
        &s.witness,
        &s.store,
        &s.epoch_manager,
        &MockCommitments {},
    )
    .unwrap();
    let main = &output.main_transition_params;
    assert_eq!(main.chunk_header, second_chunk());
    assert_eq!(main.transactions, transactions());
    assert_eq!(main.receipts, receipts());
    assert_eq!(main.block, context(2));
    assert!(!main.is_first_block_with_chunk_of_version);
    assert_eq!(
        main.storage_context,
        StorageContext {
            storage_data_source: StorageDataSource::Recorded(base_state(2)),
            record_storage: false,
        }
    );
    assert!(output.implicit_transition_params.is_empty());
}

#[test]
fn pre_validation_lists_the_skipped_blocks_oldest_first() {
    let s = scene(3);
    let output = pre_validate_chunk_state_witness(
        &s.witness,
        &s.store,
        &s.epoch_manager,
        &MockCommitments {},
    )
    .unwrap();
    assert_eq!(output.main_transition_params.block, context(2));
    assert_eq!(output.main_transition_params.chunk_header, second_chunk());
    assert_eq!(output.implicit_transition_params, vec![context(3), context(4), context(5)]);
}

#[test]
fn pre_validation_refuses_a_wrong_receipts_hash() {
    let mut s = scene(1);
    s.witness.applied_receipts_hash = hash(1);
    let result = pre_validate_chunk_state_witness(
        &s.witness,
        &s.store,
        &s.epoch_manager,
        &MockCommitments {},
    );
    assert_eq!(
        result,
        Err(Error::InvalidChunkStateWitness(WitnessMismatch::ReceiptsHash {
            actual: compute_digest(1, &ids(&receipts())),
            expected: hash(1),
        }))
    );
}

#[test]
fn pre_validation_refuses_receipts_that_the_chain_does_not_report() {
    let mut s = scene(0);
    s.store.incoming_receipts[0].responses[0].proofs[0].receipts.pop();
    let result = pre_validate_chunk_state_witness(
        &s.witness,
        &s.store,
        &s.epoch_manager,
        &MockCommitments {},
    );
    assert_eq!(
        result,
        Err(Error::InvalidChunkStateWitness(WitnessMismatch::ReceiptsHash {
            actual: compute_digest(1, &ids(&receipts()[..1])),
            expected: compute_digest(1, &ids(&receipts())),
        }))
    );
}

#[test]
fn pre_validation_refuses_wrong_transactions() {
    let mut s = scene(0);
    s.witness.transactions.reverse();
    let mut reversed = transactions();
    reversed.reverse();
    let result = pre_validate_chunk_state_witness(
        &s.witness,
        &s.store,
        &s.epoch_manager,
        &MockCommitments {},
    );
    assert_eq!(
        result,
        Err(Error::InvalidChunkStateWitness(WitnessMismatch::TransactionRoot {
            actual: compute_digest(2, &ids(&reversed)),
            expected: compute_digest(2, &ids(&transactions())),
        }))
    );
}

#[test]
fn pre_validation_refuses_a_shard_that_a_block_does_not_have() {
    let mut s = scene(2);
    s.witness.chunk_header.shard_id = 1;
    let result = pre_validate_chunk_state_witness(
        &s.witness,
        &s.store,
        &s.epoch_manager,
        &MockCommitments {},
    );
    assert_eq!(
        result,
        Err(Error::InvalidChunkStateWitness(WitnessMismatch::ShardNotInBlock {
            shard_id: 1,
            block_hash: hash(4),
        }))
    );
}

#[test]
fn pre_validation_passes_on_what_the_chain_store_cannot_find() {
    let mut s = scene(0);
    s.witness.chunk_header.prev_block_hash = hash(42);
    let result = pre_validate_chunk_state_witness(
        &s.witness,
        &s.store,
        &s.epoch_manager,
        &MockCommitments {},
    );
    assert_eq!(result, Err(Error::DBNotFound(hash(42))));

    let mut s = scene(0);
    s.store.blocks.remove(0);
    let result = pre_validate_chunk_state_witness(
        &s.witness,
        &s.store,
        &s.epoch_manager,
        &MockCommitments {},
    );
    assert_eq!(result, Err(Error::DBNotFound(hash(1))));
}

#[test]
fn pre_validation_refuses_a_block_without_chunks() {
    let mut s = scene(0);
    s.store.blocks[1].chunks.clear();
    let result = pre_validate_chunk_state_witness(
        &s.witness,
        &s.store,
        &s.epoch_manager,
        &MockCommitments {},
    );
    assert_eq!(
        result,
        Err(Error::InvalidChunkStateWitness(WitnessMismatch::ShardNotInBlock {
            shard_id: 0,
            block_hash: hash(2),
        }))
    );
}

fn replay(s: Scene) -> Result<(), Error> {
    let output = pre_validate_chunk_state_witness(
        &s.witness,
        &s.store,
        &s.epoch_manager,
        &MockCommitments {},
    )
    .unwrap();
    validate_chunk_state_witness(s.witness, output, &s.epoch_manager, &s.runtime, &MockCommitments {})
}

#[test]
fn a_correct_witness_replays() {
    assert_eq!(replay(scene(0)), Ok(()));
    assert_eq!(replay(scene(1)), Ok(()));
    assert_eq!(replay(scene(4)), Ok(()));
}

#[test]
fn replay_refuses_a_wrong_main_state_root() {
    for skipped in [0u8, 2] {
        let mut s = scene(skipped);
        s.witness.main_state_transition.post_state_root = hash(1);
        assert_eq!(
            replay(s),
            Err(Error::InvalidChunkStateWitness(WitnessMismatch::MainPostStateRoot {
                actual: root(2),
                expected: hash(1),
            }))
        );
    }
}

#[test]
fn replay_fails_at_the_implicit_transition_with_the_wrong_root() {
    for wrong in 0..4usize {
        let mut s = scene(4);
        s.witness.implicit_transitions[wrong].post_state_root = hash(1);
        assert_eq!(
            replay(s),
            Err(Error::InvalidChunkStateWitness(WitnessMismatch::ImplicitPostStateRoot {
                actual: root(3 + wrong as u8),
                block_hash: hash(3 + wrong as u8),
                expected: hash(1),
            }))
        );
    }
}

#[test]
fn replay_reports_the_first_of_two_wrong_roots() {
    let mut s = scene(3);
    s.witness.implicit_transitions[1].post_state_root = hash(1);
    s.witness.implicit_transitions[2].post_state_root = hash(2);
    assert_eq!(
        replay(s),
        Err(Error::InvalidChunkStateWitness(WitnessMismatch::ImplicitPostStateRoot {
            actual: root(4),
            block_hash: hash(4),
            expected: hash(1),
        }))
    );
}

#[test]
fn replay_passes_on_a_failure_of_the_runtime() {
    let mut s = scene(2);
    s.runtime.script.remove(1);
    assert_eq!(replay(s), Err(Error::Other(Failure::Collaborator { code: NOT_IN_SCRIPT })));
    let mut s = scene(0);
    s.runtime.script.clear();
    assert_eq!(replay(s), Err(Error::Other(Failure::Collaborator { code: NOT_IN_SCRIPT })));
}

#[test]
fn replay_holds_the_outcome_against_the_chunk_header() {
    let mut s = scene(1);
    s.witness.chunk_header.prev_state_root = hash(1);
    assert_eq!(replay(s), Err(Error::InvalidStateRoot));
    let mut s = scene(1);
    s.witness.chunk_header.prev_outcome_root = hash(1);
    assert_eq!(replay(s), Err(Error::InvalidOutcomesProof));
    let mut s = scene(1);
    s.witness.chunk_header.prev_validator_proposals[0].stake = 78;
    assert_eq!(replay(s), Err(Error::InvalidValidatorProposals));
    let mut s = scene(1);
    s.witness.chunk_header.prev_validator_proposals.clear();
    assert_eq!(replay(s), Err(Error::InvalidValidatorProposals));
    let mut s = scene(1);
    s.witness.chunk_header.gas_limit = 999;
    assert_eq!(replay(s), Err(Error::InvalidGasLimit));
    let mut s = scene(1);
    s.witness.chunk_header.prev_gas_used = 8;
    assert_eq!(replay(s), Err(Error::InvalidGasUsed));
    let mut s = scene(1);
    s.witness.chunk_header.prev_balance_burnt = 10;
    assert_eq!(replay(s), Err(Error::InvalidBalanceBurnt));
    let mut s = scene(1);
    s.witness.chunk_header.prev_outgoing_receipts_root = hash(1);
    assert_eq!(replay(s), Err(Error::InvalidReceiptsProof));
}

#[test]
fn the_header_check_reports_the_first_field_that_differs() {
    let extra = ChunkExtra {
        state_root: hash(1),
        outcome_root: hash(2),
        validator_proposals: proposals(),
        gas_used: 3,
        gas_limit: 4,
        balance_burnt: 5,
    };
    let mut header = plain_header(1, 1, 1, 1);
    header.prev_state_root = hash(1);
    header.prev_outcome_root = hash(2);
    header.prev_validator_proposals = proposals();
    header.prev_gas_used = 3;
    header.gas_limit = 4;
    header.prev_balance_burnt = 5;
    header.prev_outgoing_receipts_root = hash(6);
    assert_eq!(validate_chunk_with_chunk_extra_and_receipts_root(&extra, &header, &hash(6)), Ok(()));
    assert_eq!(
        validate_chunk_with_chunk_extra_and_receipts_root(&extra, &header, &hash(7)),
        Err(Error::InvalidReceiptsProof)
    );
    header.prev_gas_used = 9;
    header.prev_outcome_root = hash(9);
    assert_eq!(
        validate_chunk_with_chunk_extra_and_receipts_root(&extra, &header, &hash(7)),
        Err(Error::InvalidOutcomesProof)
    );
}

#[test]
fn a_chunk_extra_takes_over_what_the_application_returned() {
    let header = plain_header(1, 1, 1, 1);
    let extra = apply_result_to_chunk_extra(result_at(2), &header, &MockCommitments {});
    assert_eq!(
        extra,
        ChunkExtra {
            state_root: root(2),
            outcome_root: compute_digest(2, &ids(&outcomes())),
            validator_proposals: proposals(),
            gas_used: 7,
            gas_limit: 1000,
            balance_burnt: 9,
        }
    );
}

#[test]
fn a_node_without_a_signer_is_no_validator() {
    let (validator, store, witness) = make_validator(scene(0), None);
    assert_eq!(validator.start_validating_chunk(witness, &store), Err(Error::NotAValidator));
}

#[test]
fn a_validator_that_is_not_assigned_is_turned_away() {
    let mut s = scene(0);
    s.witness.applied_receipts_hash = hash(1);
    s.runtime.script.clear();
    let (validator, store, witness) = make_validator(s, Some("mallory"));
    assert_eq!(validator.start_validating_chunk(witness, &store), Err(Error::NotAChunkValidator));
}

#[test]
fn every_validator_validates_when_nobody_is_assigned() {
    let mut s = scene(0);
    s.epoch_manager.chunk_validators.clear();
    let (validator, store, witness) = make_validator(s, Some("mallory"));
    assert!(validator.start_validating_chunk(witness, &store).is_ok());
}

#[test]
fn a_tampered_witness_is_refused_before_anything_is_replayed() {
    let mut s = scene(2);
    s.witness.applied_receipts_hash = hash(1);
    s.runtime.script.clear();
    let (validator, store, witness) = make_validator(s, Some("alice"));
    assert_eq!(
        validator.start_validating_chunk(witness, &store),
        Err(Error::InvalidChunkStateWitness(WitnessMismatch::ReceiptsHash {
            actual: compute_digest(1, &ids(&receipts())),
            expected: hash(1),
        }))
    );
}

#[test]
fn the_task_names_the_next_five_block_producers() {
    let s = scene(1);
    let expected_witness = scene(1).witness;
    let (validator, store, witness) = make_validator(s, Some("alice"));
    let task = validator.start_validating_chunk(witness, &store).unwrap();
    assert_eq!(task.block_producers, names(&["bp0", "bp1", "bp2", "bp3", "bp4"]));
    assert_eq!(task.chunk_header, expected_witness.chunk_header);
    assert_eq!(task.state_witness, expected_witness);
    assert_eq!(task.pre_validation_result.implicit_transition_params, vec![context(3)]);
}

#[test]
fn the_block_producers_end_where_the_epoch_ends() {
    let mut s = scene(0);
    s.epoch_manager.block_producers.truncate(2);
    let (validator, store, witness) = make_validator(s, Some("alice"));
    let task = validator.start_validating_chunk(witness, &store).unwrap();
    assert_eq!(task.block_producers, names(&["bp0", "bp1"]));

    let mut s = scene(0);
    s.epoch_manager.first_height = 1;
    let (validator, store, witness) = make_validator(s, Some("bob"));
    let task = validator.start_validating_chunk(witness, &store).unwrap();
    assert_eq!(task.block_producers, names(&["bp2", "bp3", "bp4", "bp5", "bp6"]));

}

#[test]
fn a_broken_epoch_manager_shows_in_the_prepared_validation() {
    let mut s = scene(0);
    s.epoch_manager.first_height = 100;
    let (validator, store, witness) = make_validator(s, Some("bob"));
    let prepared = validator.prepare_validating_chunk(witness, &store).unwrap();
    assert!(prepared.block_producers.is_empty());
    assert_eq!(prepared.chunk_header, scene(0).witness.chunk_header);
}

#[test]
fn a_prepared_validation_with_producers_becomes_the_task() {
    let (validator, store, witness) = make_validator(scene(2), Some("bob"));
    let prepared = validator.prepare_validating_chunk(witness, &store).unwrap();
    assert_eq!(prepared.block_producers, names(&["bp0", "bp1", "bp2", "bp3", "bp4"]));
    let (validator, store, witness) = make_validator(scene(2), Some("bob"));
    let task = validator.start_validating_chunk(witness, &store).unwrap();
    assert_eq!(prepared.into_task(), task);

    let (validator, store, mut witness) = make_validator(scene(2), Some("mallory"));
    witness.applied_receipts_hash = hash(1);
    assert_eq!(
        validator.prepare_validating_chunk(witness, &store),
        Err(Error::NotAChunkValidator)
    );
}

#[test]
fn replay_refuses_a_witness_with_the_wrong_number_of_implicit_transitions() {
    let mut s = scene(2);
    s.witness.implicit_transitions.pop();
    s.witness.chunk_header.prev_state_root = root(3);
    assert_eq!(
        replay(s),
        Err(Error::InvalidChunkStateWitness(WitnessMismatch::ImplicitTransitionCount {
            actual: 1,
            expected: 2,
        }))
    );

    let mut s = scene(2);
    s.witness.implicit_transitions.push(ChunkStateTransition {
        block_hash: hash(5),
        base_state: base_state(5),
        post_state_root: root(5),
    });
    assert_eq!(
        replay(s),
        Err(Error::InvalidChunkStateWitness(WitnessMismatch::ImplicitTransitionCount {
            actual: 3,
            expected: 2,
        }))
    );

    let mut s = scene(0);
    s.witness.implicit_transitions.push(ChunkStateTransition {
        block_hash: hash(3),
        base_state: base_state(3),
        post_state_root: root(2),
    });
    s.runtime.script.clear();
    assert_eq!(
        replay(s),
        Err(Error::InvalidChunkStateWitness(WitnessMismatch::ImplicitTransitionCount {
            actual: 1,
            expected: 0,
        }))
    );

    let mut s = scene(1);
    s.witness.implicit_transitions.clear();
    s.witness.chunk_header.prev_state_root = root(2);
    let (validator, store, witness) = make_validator(s, Some("alice"));
    let task = validator.start_validating_chunk(witness, &store).unwrap();
    assert_eq!(
        run(task, &scene(1), "alice"),
        Err(Error::InvalidChunkStateWitness(WitnessMismatch::ImplicitTransitionCount {
            actual: 0,
            expected: 1,
        }))
    );
}

#[test]
fn a_witness_without_its_parent_block_is_parked_until_the_block_is_known() {
    let s = scene(1);
    let witness = s.witness;
    let mut node = client(scene(1), Some("alice"));
    let parent = node.chain.blocks.pop().unwrap();
    let mut pool = OrphanStateWitnessPool::new(4, 2);
    assert_eq!(
        node.process_chunk_state_witness_or_park(witness, "producer".to_string(), &mut pool),
        Ok(None)
    );
    assert!(pool.take_state_witnesses_waiting_for_block(&hash(1)).is_empty());
    node.chain.blocks.push(parent);
    let mut ready = pool.take_state_witnesses_waiting_for_block(&hash(3));
    assert_eq!(ready.len(), 1);
    let prepared = node
        .process_chunk_state_witness_or_park(ready.pop().unwrap(), "producer".to_string(), &mut pool)
        .unwrap()
        .unwrap();
    assert_eq!(prepared.block_producers, names(&["bp0", "bp1", "bp2", "bp3", "bp4"]));
    assert_eq!(prepared.state_witness, scene(1).witness);
    assert!(pool.take_state_witnesses_waiting_for_block(&hash(3)).is_empty());

    let mut stranger = client(scene(1), None);
    assert_eq!(
        stranger.process_chunk_state_witness_or_park(
            scene(1).witness,
            "producer".to_string(),
            &mut pool
        ),
        Err(Error::NotAValidator)
    );
}

fn run(task: ChunkValidationTask, s: &Scene, account: &str) -> Result<Vec<(String, ChunkEndorsement)>, Error> {
    task.run(
        &MockSigner { account_id: account.to_string() },
        &s.epoch_manager,
        &s.runtime,
        &MockCommitments {},
    )
}

#[test]
fn a_valid_witness_is_endorsed_to_the_next_five_block_producers() {
    for skipped in [0u8, 3] {
        let (validator, store, witness) = make_validator(scene(skipped), Some("alice"));
        let task = validator.start_validating_chunk(witness, &store).unwrap();
        let messages = run(task, &scene(skipped), "alice").unwrap();
        let endorsement = ChunkEndorsement {
            chunk_hash: hash(20),
            account_id: "alice".to_string(),
            signature: vec![20; 32],
        };
        let expected: Vec<(String, ChunkEndorsement)> = names(&["bp0", "bp1", "bp2", "bp3", "bp4"])
            .into_iter()
            .map(|producer| (producer, endorsement.clone()))
            .collect();
        assert_eq!(messages, expected);
    }
}

#[test]
fn a_witness_that_fails_the_replay_is_not_endorsed() {
    let mut s = scene(2);
    s.witness.implicit_transitions[1].post_state_root = hash(1);
    let (validator, store, witness) = make_validator(s, Some("alice"));
    let task = validator.start_validating_chunk(witness, &store).unwrap();
    assert_eq!(
        run(task, &scene(2), "alice"),
        Err(Error::InvalidChunkStateWitness(WitnessMismatch::ImplicitPostStateRoot {
            actual: root(4),
            block_hash: hash(4),
            expected: hash(1),
        }))
    );
}

fn endorsement(chunk: u8, account: &str) -> ChunkEndorsement {
    ChunkEndorsement {
        chunk_hash: hash(chunk),
        account_id: account.to_string(),
        signature: vec![chunk; 32],
    }
}

#[test]
fn an_endorsement_is_recorded_once() {
    let (mut validator, store, _) = make_validator(scene(0), Some("alice"));
    assert_eq!(validator.endorsement_count(&hash(12)), 0);
    assert!(!validator.has_endorsement(&hash(12), &"alice".to_string()));
    assert_eq!(validator.process_chunk_endorsement(endorsement(12, "alice"), &store), Ok(()));
    assert_eq!(validator.endorsement_count(&hash(12)), 1);
    assert!(validator.has_endorsement(&hash(12), &"alice".to_string()));
    assert_eq!(validator.process_chunk_endorsement(endorsement(12, "alice"), &store), Ok(()));
    assert_eq!(validator.endorsement_count(&hash(12)), 1);
    assert_eq!(validator.process_chunk_endorsement(endorsement(12, "bob"), &store), Ok(()));
    assert_eq!(validator.endorsement_count(&hash(12)), 2);
    assert!(validator.has_endorsement(&hash(12), &"bob".to_string()));
    assert_eq!(validator.process_chunk_endorsement(endorsement(12, "bob"), &store), Ok(()));
    assert_eq!(validator.process_chunk_endorsement(endorsement(12, "alice"), &store), Ok(()));
    assert_eq!(validator.endorsement_count(&hash(12)), 2);
    assert_eq!(validator.endorsement_count(&hash(11)), 0);
}

#[test]
fn a_known_endorsement_is_accepted_without_another_look() {
    let (mut validator, mut store, _) = make_validator(scene(0), Some("alice"));
    assert_eq!(validator.process_chunk_endorsement(endorsement(12, "alice"), &store), Ok(()));
    store.chunks.clear();
    let mut forged = endorsement(12, "alice");
    forged.signature = vec![0; 32];
    assert_eq!(validator.process_chunk_endorsement(forged, &store), Ok(()));
    assert_eq!(validator.endorsement_count(&hash(12)), 1);
    assert_eq!(
        validator.process_chunk_endorsement(endorsement(12, "bob"), &store),
        Err(Error::DBNotFound(hash(12)))
    );
}

#[test]
fn an_endorsement_that_does_not_verify_is_refused() {
    let (mut validator, store, _) = make_validator(scene(0), Some("alice"));
    let mut forged = endorsement(12, "alice");
    forged.signature = vec![0; 32];
    assert_eq!(
        validator.process_chunk_endorsement(forged, &store),
        Err(Error::InvalidChunkEndorsement)
    );
    assert_eq!(
        validator.process_chunk_endorsement(endorsement(12, "mallory"), &store),
        Err(Error::InvalidChunkEndorsement)
    );
    let mut short = endorsement(12, "alice");
    short.signature.pop();
    assert_eq!(
        validator.process_chunk_endorsement(short, &store),
        Err(Error::InvalidChunkEndorsement)
    );
    assert_eq!(validator.endorsement_count(&hash(12)), 0);
    assert_eq!(
        validator.process_chunk_endorsement(endorsement(77, "alice"), &store),
        Err(Error::DBNotFound(hash(77)))
    );
}

#[test]
fn the_endorsements_of_the_least_recent_chunk_make_room() {
    let (mut validator, mut store, _) = make_validator(scene(0), Some("alice"));
    for chunk in 101..=201u8 {
        store.chunks.push(ShardChunk { header: plain_header(chunk, 1, 1, 1), transactions: vec![] });
    }
    for chunk in 101..=200u8 {
        assert_eq!(validator.process_chunk_endorsement(endorsement(chunk, "alice"), &store), Ok(()));
    }
    assert_eq!(validator.endorsement_count(&hash(101)), 1);
    assert_eq!(validator.process_chunk_endorsement(endorsement(101, "bob"), &store), Ok(()));
    assert_eq!(validator.process_chunk_endorsement(endorsement(201, "alice"), &store), Ok(()));
    assert_eq!(validator.endorsement_count(&hash(101)), 2);
    assert_eq!(validator.endorsement_count(&hash(102)), 0);
    assert_eq!(validator.endorsement_count(&hash(103)), 1);
    assert_eq!(validator.endorsement_count(&hash(201)), 1);
}

fn client(s: Scene, account: Option<&str>) -> Client<MockChainStore, MockSigner, MockEpochManager, MockRuntime, MockCommitments> {
    let signer = account.map(|name| MockSigner { account_id: name.to_string() });
    Client {
        chain: s.store,
        chunk_validator: ChunkValidator::new(signer, s.epoch_manager, s.runtime, MockCommitments {}),
    }
}

#[test]
fn the_previous_chunk_is_the_one_the_block_carries() {
    let b = block(3, second_chunk());
    assert_eq!(get_prev_chunk_header(&b, 0), Ok(second_chunk()));
    assert_eq!(get_prev_chunk_header(&b, 1), Err(Error::InvalidShardId(1)));
}

#[test]
fn a_producer_builds_the_witness_that_a_validator_accepts() {
    for skipped in [0u8, 2] {
        let s = scene(skipped);
        let prev_block = block(2 + skipped, second_chunk());
        let new_chunk = ShardChunk {
            header: s.new_chunk.header.clone(),
            transactions: s.new_chunk.transactions.clone(),
        };
        let expected = scene(skipped).witness;
        let mut producer = client(s, Some("producer"));
        let sent = producer
            .send_chunk_state_witness_to_chunk_validators(&EpochId(hash(99)), &prev_block, &new_chunk)
            .unwrap()
            .unwrap();
        assert_eq!(sent.0, names(&["alice", "bob"]));
        assert_eq!(sent.1, expected);

        let mut bob = client(scene(skipped), Some("bob"));
        let task = bob.process_chunk_state_witness(sent.1).unwrap();
        let messages = run(task, &scene(skipped), "bob").unwrap();
        assert_eq!(messages.len(), 5);
        assert_eq!(messages[0].0, "bp0");
        assert_eq!(messages[4].0, "bp4");
        for (_, message) in messages.iter() {
            assert_eq!(*message, endorsement(20, "bob"));
        }
        let mut alice = client(scene(skipped), Some("alice"));
        alice.chain.chunks.push(ShardChunk {
            header: scene(skipped).new_chunk.header,
            transactions: new_transactions(),
        });
        assert_eq!(alice.process_chunk_endorsement(messages[0].1.clone()), Ok(()));
        assert_eq!(alice.chunk_validator.endorsement_count(&hash(20)), 1);
    }
}

#[test]
fn nothing_is_sent_without_chunk_validation_or_right_after_genesis() {
    let mut s = scene(0);
    s.epoch_manager.chunk_validation = false;
    let chunk = ShardChunk { header: s.new_chunk.header.clone(), transactions: vec![] };
    let mut producer = client(s, None);
    assert_eq!(
        producer.send_chunk_state_witness_to_chunk_validators(
            &EpochId(hash(99)),
            &block(2, second_chunk()),
            &chunk
        ),
        Ok(None)
    );

    let s = scene(0);
    let mut after_genesis = first_chunk();
    after_genesis.prev_block_hash = CryptoHash::default();
    let mut producer = client(s, None);
    assert_eq!(
        producer.send_chunk_state_witness_to_chunk_validators(
            &EpochId(hash(99)),
            &block(1, after_genesis),
            &chunk
        ),
        Ok(None)
    );
}

#[test]
fn the_producer_reports_what_it_cannot_collect() {
    let s = scene(1);
    let chunk = ShardChunk { header: s.new_chunk.header.clone(), transactions: vec![] };
    let prev_block = block(3, second_chunk());

    let mut producer = client(scene(1), None);
    producer.chain.state_transitions.remove(1);
    assert_eq!(
        producer.send_chunk_state_witness_to_chunk_validators(&EpochId(hash(99)), &prev_block, &chunk),
        Err(Error::Other(Failure::MissingStateProof { block_hash: hash(3), shard_id: 0 }))
    );

    let mut producer = client(scene(1), None);
    producer.chain.chunk_extras.remove(0);
    assert_eq!(
        producer.send_chunk_state_witness_to_chunk_validators(&EpochId(hash(99)), &prev_block, &chunk),
        Err(Error::DBNotFound(hash(2)))
    );

    let mut producer = client(scene(1), None);
    producer.chain.chunks.clear();
    assert_eq!(
        producer.send_chunk_state_witness_to_chunk_validators(&EpochId(hash(99)), &prev_block, &chunk),
        Err(Error::DBNotFound(hash(12)))
    );

    let mut producer = client(scene(1), None);
    let twice = producer.chain.incoming_receipts[0].responses[0].proofs[0].clone();
    producer.chain.incoming_receipts[0].responses[0].proofs.push(twice);
    assert_eq!(
        producer.send_chunk_state_witness_to_chunk_validators(&EpochId(hash(99)), &prev_block, &chunk),
        Err(Error::Other(Failure::DuplicateReceiptProof { chunk_hash: hash(11) }))
    );

    let mut producer = client(scene(1), None);
    producer.chain.incoming_receipts[0].responses[0].proofs[0].from_shard_id = 5;
    assert_eq!(
        producer.send_chunk_state_witness_to_chunk_validators(&EpochId(hash(99)), &prev_block, &chunk),
        Err(Error::InvalidShardId(5))
    );

    let mut producer = client(scene(1), None);
    assert_eq!(
        producer.send_chunk_state_witness_to_chunk_validators(
            &EpochId(hash(99)),
            &Block { header: block_header(3), chunks: vec![] },
            &chunk
        ),
        Err(Error::InvalidShardId(0))
    );
}

#[test]
fn the_producer_collects_the_transitions_behind_a_chunk() {
    let s = scene(2);
    let header = s.new_chunk.header.clone();
    let mut producer = client(s, None);
    let (main, implicit, receipts_hash) =
        producer.collect_state_transition_data(&header, second_chunk()).unwrap();
    assert_eq!(
        main,
        ChunkStateTransition { block_hash: hash(2), base_state: base_state(2), post_state_root: root(2) }
    );
    assert_eq!(
        implicit,
        vec![
            ChunkStateTransition { block_hash: hash(3), base_state: base_state(3), post_state_root: root(3) },
            ChunkStateTransition { block_hash: hash(4), base_state: base_state(4), post_state_root: root(4) },
        ]
    );
    assert_eq!(receipts_hash, compute_digest(1, &ids(&receipts())));
    let proofs = producer
        .collect_source_receipt_proofs(&block(4, second_chunk()), &second_chunk())
        .unwrap();
    assert_eq!(proofs, scene(2).witness.source_receipt_proofs);
}

#[test]
fn digests_depend_on_tag_order_and_number() {
    let a = [hash(1), hash(2)].to_vec();
    let b = [hash(2), hash(1)].to_vec();
    assert_ne!(compute_digest(1, &a), compute_digest(1, &b));
    assert_ne!(compute_digest(1, &a), compute_digest(2, &a));
    assert_ne!(compute_digest(1, &a), compute_digest(1, &a[..1].to_vec()));
    assert_eq!(compute_digest(7, &vec![]), CryptoHash([7; 32]));
    assert_eq!(compute_digest(7, &[hash(1)].to_vec()), CryptoHash([23; 32]));
    assert_eq!(compute_digest(100, &[hash(200)].to_vec()), CryptoHash([245; 32]));
}

#[test]
fn hashes_compare_byte_by_byte() {
    let mut bytes = [3u8; 32];
    assert_eq!(CryptoHash::new(bytes), hash(3));
    bytes[31] = 4;
    assert_ne!(CryptoHash::new(bytes), hash(3));
    assert_eq!(CryptoHash::default(), hash(0));
    assert_eq!(hash(5).as_bytes(), &[5u8; 32]);
}

#[test]
fn the_epoch_manager_knows_no_producer_beyond_its_list() {
    let s = scene(0);
    let epoch = EpochId(hash(99));
    assert_eq!(s.epoch_manager.get_block_producer(&epoch, 3), Ok("bp0".to_string()));
    assert_eq!(s.epoch_manager.get_block_producer(&epoch, 9), Ok("bp6".to_string()));
    assert_eq!(s.epoch_manager.get_block_producer(&epoch, 10), Err(Error::EpochOutOfBounds));
    assert_eq!(s.epoch_manager.get_block_producer(&epoch, 2), Err(Error::EpochOutOfBounds));
    assert_eq!(
        s.epoch_manager.shard_id_to_uid(7, &epoch),
        Ok(ShardUId { version: 1, shard_id: 7 })
    );
    assert_eq!(
        s.epoch_manager.shard_id_to_uid(1 << 40, &epoch),
        Err(Error::InvalidShardId(1 << 40))
    );
}

#[test]
fn the_chain_store_lists_the_blocks_back_to_a_height() {
    let s = scene(3);
    assert_eq!(
        s.store.get_blocks_until_height(hash(5), 2, true),
        Ok(vec![hash(5), hash(4), hash(3), hash(2)])
    );
    assert_eq!(
        s.store.get_blocks_until_height(hash(5), 2, false),
        Ok(vec![hash(5), hash(4), hash(3)])
    );
    assert_eq!(s.store.get_blocks_until_height(hash(5), 5, true), Ok(vec![hash(5)]));
    assert_eq!(s.store.get_blocks_until_height(hash(5), 6, true), Ok(vec![]));
    assert_eq!(s.store.get_blocks_until_height(hash(4), 0, true), Err(Error::DBNotFound(hash(0))));
    assert_eq!(
        s.store.get_blocks_until_height(hash(5), 0, true),
        Err(Error::Other(Failure::ChainWalkExhausted))
    );
    assert_eq!(s.store.get_previous_header(&block_header(3)), Ok(block_header(2)));
    assert_eq!(s.store.get_block_header(&hash(9)), Err(Error::DBNotFound(hash(9))));
}

#[test]
fn the_producer_gives_up_on_a_chain_without_the_blocks_it_needs() {
    let s = scene(1);
    let header = s.new_chunk.header.clone();
    let mut too_late = second_chunk();
    too_late.height_included = 9;
    let mut producer = client(s, None);
    assert_eq!(
        producer.collect_state_transition_data(&header, too_late),
        Err(Error::Other(Failure::NoBlocksSinceChunk))
    );

    let s = scene(1);
    let mut producer = client(s, None);
    producer.chain.blocks[2].header.prev_hash = hash(3);
    assert_eq!(
        producer.collect_state_transition_data(&header, second_chunk()),
        Err(Error::Other(Failure::ChainWalkExhausted))
    );
}
