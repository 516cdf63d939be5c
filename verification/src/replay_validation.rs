//! Replay validation of a state witness: re-execute the main transition and
//! every implicit one in order, compare the state root after each step with
//! the one the witness declares, and hold the outcome against the chunk
//! header.

use vstd::prelude::*;
use crate::adapters::{Commitments, EpochManagerAdapter, RuntimeAdapter};
use crate::error::{Error, WitnessMismatch};
use crate::hash::CryptoHash;
use crate::pre_validation::{PreValidationOutput, PreValidationOutputView};
use crate::primitives::{
    proposals_match, recorded_storage, ApplyChunkBlockContext, ApplyChunkResult,
    ApplyChunkResultView, ChunkExtra, ChunkExtraView, ChunkStateTransitionView,
    ChunkStateWitness, ChunkStateWitnessView, OldChunkData, OldChunkDataView,
    ShardChunkHeader, ShardChunkHeaderView, ShardContext, ShardUId, StorageContext,
    StorageDataSource,
};

verus! {

/// How the shard takes part in the replay of its new chunk.
pub open spec fn new_chunk_shard_context(shard_uid: ShardUId) -> ShardContext {
    ShardContext {
        shard_uid,
        cares_about_shard_this_epoch: true,
        will_shard_layout_change: false,
        should_apply_chunk: true,
        need_to_reshard: false,
    }
}

/// How the shard takes part in the replay of a block that skipped it.
pub open spec fn old_chunk_shard_context(shard_uid: ShardUId) -> ShardContext {
    ShardContext {
        shard_uid,
        cares_about_shard_this_epoch: true,
        will_shard_layout_change: false,
        should_apply_chunk: false,
        need_to_reshard: false,
    }
}

/// What a chunk application leaves behind: its new state root, the root of
/// its outcomes, its proposals and totals, under the chunk's gas limit.
pub open spec fn chunk_extra_of<H: Commitments>(
    result: ApplyChunkResultView,
    gas_limit: u64,
    hasher: &H,
) -> ChunkExtraView {
    ChunkExtraView {
        state_root: result.new_root,
        outcome_root: hasher.merkle_root(result.outcomes),
        validator_proposals: result.validator_proposals,
        gas_used: result.total_gas_burnt,
        gas_limit,
        balance_burnt: result.total_balance_burnt,
    }
}

/// Folds the result of a chunk application into what the next one starts
/// from.
pub fn apply_result_to_chunk_extra<H: Commitments>(
    apply_result: ApplyChunkResult,
    chunk: &ShardChunkHeader,
    hasher: &H,
) -> (extra: ChunkExtra)
    ensures
        extra.deep_view() == chunk_extra_of(apply_result.deep_view(), chunk.gas_limit, hasher),
{
    let outcome_root = hasher.merklize(&apply_result.outcomes);
    ChunkExtra::new(
        &apply_result.new_root,
        outcome_root,
        apply_result.validator_proposals,
        apply_result.total_gas_burnt,
        chunk.gas_limit(),
        apply_result.total_balance_burnt,
    )
}

/// Whether a chunk header commits to exactly what the replay reached: the
/// first committed field that differs decides the error.
pub open spec fn header_checked(
    extra: ChunkExtraView,
    header: ShardChunkHeaderView,
    outgoing_receipts_root: CryptoHash,
) -> Result<(), Error> {
    if extra.state_root != header.prev_state_root {
        Err(Error::InvalidStateRoot)
    } else if extra.outcome_root != header.prev_outcome_root {
        Err(Error::InvalidOutcomesProof)
    } else if extra.validator_proposals != header.prev_validator_proposals {
        Err(Error::InvalidValidatorProposals)
    } else if extra.gas_limit != header.gas_limit {
        Err(Error::InvalidGasLimit)
    } else if extra.gas_used != header.prev_gas_used {
        Err(Error::InvalidGasUsed)
    } else if extra.balance_burnt != header.prev_balance_burnt {
        Err(Error::InvalidBalanceBurnt)
    } else if outgoing_receipts_root != header.prev_outgoing_receipts_root {
        Err(Error::InvalidReceiptsProof)
    } else {
        Ok(())
    }
}

/// Holds what a replay left behind, and the root of its outgoing receipts,
/// against the fields that the chunk header commits to.
pub fn validate_chunk_with_chunk_extra_and_receipts_root(
    prev_chunk_extra: &ChunkExtra,
    chunk_header: &ShardChunkHeader,
    outgoing_receipts_root: &CryptoHash,
) -> (r: Result<(), Error>)
    ensures
        r == header_checked(
            prev_chunk_extra.deep_view(),
            chunk_header.deep_view(),
            *outgoing_receipts_root,
        ),
{
    if prev_chunk_extra.state_root != chunk_header.prev_state_root {
        return Err(Error::InvalidStateRoot);
    }
    if prev_chunk_extra.outcome_root != chunk_header.prev_outcome_root {
        return Err(Error::InvalidOutcomesProof);
    }
    if !proposals_match(
        &prev_chunk_extra.validator_proposals,
        &chunk_header.prev_validator_proposals,
    ) {
        return Err(Error::InvalidValidatorProposals);
    }
    if prev_chunk_extra.gas_limit != chunk_header.gas_limit {
        return Err(Error::InvalidGasLimit);
    }
    if prev_chunk_extra.gas_used != chunk_header.prev_gas_used {
        return Err(Error::InvalidGasUsed);
    }
    if prev_chunk_extra.balance_burnt != chunk_header.prev_balance_burnt {
        return Err(Error::InvalidBalanceBurnt);
    }
    if *outgoing_receipts_root != chunk_header.prev_outgoing_receipts_root {
        return Err(Error::InvalidReceiptsProof);
    }
    Ok(())
}

/// The request that replays implicit transition `step` on top of `extra`.
pub open spec fn implicit_request(
    extra: ChunkExtraView,
    contexts: Seq<ApplyChunkBlockContext>,
    transitions: Seq<ChunkStateTransitionView>,
    step: int,
) -> OldChunkDataView {
    OldChunkDataView {
        prev_chunk_extra: extra,
        block: contexts[step],
        storage_context: recorded_storage(transitions[step].base_state),
    }
}

/// The implicit transitions from `step` on, replayed in order on top of
/// `extra`, one for each block context. Each starts from what the one before
/// left behind, and must reach the state root that the witness declares for
/// it; the first that does not, or that the runtime fails, ends the replay.
pub open spec fn implicit_replayed<R: RuntimeAdapter>(
    runtime: &R,
    shard_uid: ShardUId,
    extra: ChunkExtraView,
    contexts: Seq<ApplyChunkBlockContext>,
    transitions: Seq<ChunkStateTransitionView>,
    step: int,
) -> Result<ChunkExtraView, Error>
    decreases contexts.len() - step,
{
    if step < 0 || step >= contexts.len() {
        Ok(extra)
    } else {
        match runtime.old_chunk_result(
            implicit_request(extra, contexts, transitions, step),
            old_chunk_shard_context(shard_uid),
        ) {
            Err(error) => Err(error),
            Ok(result) => if result.new_root != transitions[step].post_state_root {
                Err(
                    Error::InvalidChunkStateWitness(
                        WitnessMismatch::ImplicitPostStateRoot {
                            actual: result.new_root,
                            block_hash: contexts[step].block_hash,
                            expected: transitions[step].post_state_root,
                        },
                    ),
                )
            } else {
                implicit_replayed(
                    runtime,
                    shard_uid,
                    ChunkExtraView { state_root: result.new_root, ..extra },
                    contexts,
                    transitions,
                    step + 1,
                )
            },
        }
    }
}

/// What replay validation returns once the main transition has been replayed
/// with `result`.
pub open spec fn validated_after_main<E: EpochManagerAdapter, R: RuntimeAdapter, H: Commitments>(
    witness: ChunkStateWitnessView,
    pre_validation_output: PreValidationOutputView,
    shard_uid: ShardUId,
    result: ApplyChunkResultView,
    epoch_manager: &E,
    runtime: &R,
    hasher: &H,
) -> Result<(), Error> {
    let main = pre_validation_output.main_transition_params;
    let extra = chunk_extra_of(result, main.chunk_header.gas_limit, hasher);
    if extra.state_root != witness.main_state_transition.post_state_root {
        Err(
            Error::InvalidChunkStateWitness(
                WitnessMismatch::MainPostStateRoot {
                    actual: extra.state_root,
                    expected: witness.main_state_transition.post_state_root,
                },
            ),
        )
    } else {
        match implicit_replayed(
            runtime,
            shard_uid,
            extra,
            pre_validation_output.implicit_transition_params,
            witness.implicit_transitions,
            0,
        ) {
            Err(error) => Err(error),
            Ok(last_extra) => match epoch_manager.shard_layout_from_prev_block(
                witness.chunk_header.prev_block_hash,
            ) {
                Err(error) => Err(error),
                Ok(layout) => header_checked(
                    last_extra,
                    witness.chunk_header,
                    hasher.hashes_root(hasher.receipts_hashes(result.outgoing_receipts, layout)),
                ),
            },
        }
    }
}

/// What replay validation returns for a witness and the output of its
/// pre-validation. A witness that does not declare exactly one implicit
/// transition for each block that skipped the shard is refused before
/// anything is replayed.
pub open spec fn validated<E: EpochManagerAdapter, R: RuntimeAdapter, H: Commitments>(
    witness: ChunkStateWitnessView,
    pre_validation_output: PreValidationOutputView,
    epoch_manager: &E,
    runtime: &R,
    hasher: &H,
) -> Result<(), Error> {
    let main = pre_validation_output.main_transition_params;
    if witness.implicit_transitions.len()
        != pre_validation_output.implicit_transition_params.len() {
        Err(
            Error::InvalidChunkStateWitness(
                WitnessMismatch::ImplicitTransitionCount {
                    actual: witness.implicit_transitions.len() as usize,
                    expected: pre_validation_output.implicit_transition_params.len() as usize,
                },
            ),
        )
    } else {
        replayed(witness, pre_validation_output, epoch_manager, runtime, hasher)
    }
}

/// What the replay of a witness returns that declares one implicit transition
/// for each block that skipped the shard.
pub open spec fn replayed<E: EpochManagerAdapter, R: RuntimeAdapter, H: Commitments>(
    witness: ChunkStateWitnessView,
    pre_validation_output: PreValidationOutputView,
    epoch_manager: &E,
    runtime: &R,
    hasher: &H,
) -> Result<(), Error> {
    let main = pre_validation_output.main_transition_params;
    match epoch_manager.epoch_id(main.block.block_hash) {
        Err(error) => Err(error),
        Ok(epoch_id) => match epoch_manager.shard_uid(main.chunk_header.shard_id, epoch_id) {
            Err(error) => Err(error),
            Ok(shard_uid) => match runtime.new_chunk_result(
                main,
                new_chunk_shard_context(shard_uid),
            ) {
                Err(error) => Err(error),
                Ok(result) => validated_after_main(
                    witness,
                    pre_validation_output,
                    shard_uid,
                    result,
                    epoch_manager,
                    runtime,
                    hasher,
                ),
            },
        },
    }
}

/// Replays a pre-validated witness.
///
/// The witness must declare one implicit transition for each block that
/// skipped the shard. The main transition is replayed first and must reach
/// the declared state root. Each implicit transition is then replayed on what the step before
/// left behind, against its own recorded proof, and must reach its declared
/// state root; the first mismatch ends the replay. Last, what the replay left
/// behind and the root of the outgoing receipts are held against the chunk
/// header. The witness's new transactions are not checked.
#[verifier::loop_isolation(false)]
pub fn validate_chunk_state_witness<E: EpochManagerAdapter, R: RuntimeAdapter, H: Commitments>(
    state_witness: ChunkStateWitness,
    pre_validation_output: PreValidationOutput,
    epoch_manager: &E,
    runtime_adapter: &R,
    hasher: &H,
) -> (r: Result<(), Error>)
    ensures
        r == validated(
            state_witness.deep_view(),
            pre_validation_output.deep_view(),
            epoch_manager,
            runtime_adapter,
            hasher,
        ),
{
    let ghost witness = state_witness.deep_view();
    let ghost pre = pre_validation_output.deep_view();
    if state_witness.implicit_transitions.len()
        != pre_validation_output.implicit_transition_params.len() {
        return Err(
            Error::InvalidChunkStateWitness(
                WitnessMismatch::ImplicitTransitionCount {
                    actual: state_witness.implicit_transitions.len(),
                    expected: pre_validation_output.implicit_transition_params.len(),
                },
            ),
        );
    }
    let main_transition = pre_validation_output.main_transition_params;
    let implicit_transition_params = pre_validation_output.implicit_transition_params;
    let chunk_header = main_transition.chunk_header.clone();
    let epoch_id = match epoch_manager.get_epoch_id(&main_transition.block.block_hash) {
        Ok(epoch_id) => epoch_id,
        Err(error) => {
            return Err(error);
        },
    };
    let shard_uid = match epoch_manager.shard_id_to_uid(
        main_transition.chunk_header.shard_id(),
        &epoch_id,
    ) {
        Ok(shard_uid) => shard_uid,
        Err(error) => {
            return Err(error);
        },
    };
    let main_apply_result = match runtime_adapter.apply_new_chunk(
        main_transition,
        ShardContext {
            shard_uid,
            cares_about_shard_this_epoch: true,
            will_shard_layout_change: false,
            should_apply_chunk: true,
            need_to_reshard: false,
        },
    ) {
        Ok(result) => result,
        Err(error) => {
            return Err(error);
        },
    };
    let ghost main_result = main_apply_result.deep_view();
    let ApplyChunkResult {
        new_root,
        outgoing_receipts,
        outcomes,
        validator_proposals,
        total_gas_burnt,
        total_balance_burnt,
    } = main_apply_result;
    let mut chunk_extra = apply_result_to_chunk_extra(
        ApplyChunkResult {
            new_root,
            outgoing_receipts: Vec::new(),
            outcomes,
            validator_proposals,
            total_gas_burnt,
            total_balance_burnt,
        },
        &chunk_header,
        hasher,
    );
    assert(chunk_extra.deep_view() == chunk_extra_of(
        main_result,
        pre.main_transition_params.chunk_header.gas_limit,
        hasher,
    ));
    if chunk_extra.state_root != state_witness.main_state_transition.post_state_root {
        return Err(
            Error::InvalidChunkStateWitness(
                WitnessMismatch::MainPostStateRoot {
                    actual: chunk_extra.state_root,
                    expected: state_witness.main_state_transition.post_state_root,
                },
            ),
        );
    }
    let ghost whole = implicit_replayed(
        runtime_adapter,
        shard_uid,
        chunk_extra.deep_view(),
        pre.implicit_transition_params,
        witness.implicit_transitions,
        0,
    );
    let steps = implicit_transition_params.len();
    let mut step: usize = 0;
    while step < steps
        invariant
            step <= steps,
            steps == pre.implicit_transition_params.len(),
            steps == witness.implicit_transitions.len(),
            implicit_transition_params@ == pre.implicit_transition_params,
            whole == implicit_replayed(
                runtime_adapter,
                shard_uid,
                chunk_extra.deep_view(),
                pre.implicit_transition_params,
                witness.implicit_transitions,
                step as int,
            ),
        decreases steps - step,
    {
        let block = implicit_transition_params[step];
        let transition = &state_witness.implicit_transitions[step];
        assert(transition.deep_view() == witness.implicit_transitions[step as int]);
        let block_hash = block.block_hash;
        let old_chunk_data = OldChunkData {
            prev_chunk_extra: chunk_extra.clone(),
            block,
            storage_context: StorageContext {
                storage_data_source: StorageDataSource::Recorded(transition.base_state.clone()),
                record_storage: false,
            },
        };
        assert(old_chunk_data.deep_view() == implicit_request(
            chunk_extra.deep_view(),
            pre.implicit_transition_params,
            witness.implicit_transitions,
            step as int,
        ));
        let apply_result = match runtime_adapter.apply_old_chunk(
            old_chunk_data,
            ShardContext {
                shard_uid,
                cares_about_shard_this_epoch: true,
                will_shard_layout_change: false,
                should_apply_chunk: false,
                need_to_reshard: false,
            },
        ) {
            Ok(result) => result,
            Err(error) => {
                return Err(error);
            },
        };
        chunk_extra.state_root = apply_result.new_root;
        if chunk_extra.state_root != transition.post_state_root {
            return Err(
                Error::InvalidChunkStateWitness(
                    WitnessMismatch::ImplicitPostStateRoot {
                        actual: chunk_extra.state_root,
                        block_hash,
                        expected: transition.post_state_root,
                    },
                ),
            );
        }
        step += 1;
    }
    let shard_layout = match epoch_manager.get_shard_layout_from_prev_block(
        &state_witness.chunk_header.prev_block_hash,
    ) {
        Ok(layout) => layout,
        Err(error) => {
            return Err(error);
        },
    };
    let outgoing_receipts_hashes = hasher.build_receipts_hashes(&outgoing_receipts, &shard_layout);
    let outgoing_receipts_root = hasher.merklize_hashes(&outgoing_receipts_hashes);
    validate_chunk_with_chunk_extra_and_receipts_root(
        &chunk_extra,
        &state_witness.chunk_header,
        &outgoing_receipts_root,
    )
}

/// The witness with another state root declared for implicit transition
/// `index`.
pub open spec fn with_implicit_root(
    witness: ChunkStateWitnessView,
    index: int,
    root: CryptoHash,
) -> ChunkStateWitnessView {
    ChunkStateWitnessView {
        implicit_transitions: witness.implicit_transitions.update(
            index,
            ChunkStateTransitionView {
                post_state_root: root,
                ..witness.implicit_transitions[index]
            },
        ),
        ..witness
    }
}

/// The witness with another state root declared for the main transition.
pub open spec fn with_main_root(witness: ChunkStateWitnessView, root: CryptoHash) -> ChunkStateWitnessView {
    ChunkStateWitnessView {
        main_state_transition: ChunkStateTransitionView {
            post_state_root: root,
            ..witness.main_state_transition
        },
        ..witness
    }
}

/// If the implicit transitions replay from `step` on, then with a wrong state
/// root declared for transition `index` the replay fails at that transition:
/// the steps before it pass as they did, and the error names the block of
/// that transition, the root that the replay reached there and the wrong root.
pub proof fn lemma_wrong_implicit_root_fails_at_its_step<R: RuntimeAdapter>(
    runtime: &R,
    shard_uid: ShardUId,
    extra: ChunkExtraView,
    contexts: Seq<ApplyChunkBlockContext>,
    transitions: Seq<ChunkStateTransitionView>,
    step: int,
    index: int,
    wrong_root: CryptoHash,
)
    requires
        contexts.len() == transitions.len(),
        0 <= step <= index < transitions.len(),
        implicit_replayed(runtime, shard_uid, extra, contexts, transitions, step) is Ok,
        wrong_root != transitions[index].post_state_root,
    ensures
        implicit_replayed(
            runtime,
            shard_uid,
            extra,
            contexts,
            transitions.update(
                index,
                ChunkStateTransitionView { post_state_root: wrong_root, ..transitions[index] },
            ),
            step,
        ) == Err::<ChunkExtraView, Error>(
            Error::InvalidChunkStateWitness(
                WitnessMismatch::ImplicitPostStateRoot {
                    actual: transitions[index].post_state_root,
                    block_hash: contexts[index].block_hash,
                    expected: wrong_root,
                },
            ),
        ),
    decreases index - step,
{
    let changed = transitions.update(
        index,
        ChunkStateTransitionView { post_state_root: wrong_root, ..transitions[index] },
    );
    assert(changed.len() == transitions.len());
    assert(implicit_request(extra, contexts, changed, step) == implicit_request(
        extra,
        contexts,
        transitions,
        step,
    ));
    let result = runtime.old_chunk_result(
        implicit_request(extra, contexts, transitions, step),
        old_chunk_shard_context(shard_uid),
    ).unwrap();
    if step < index {
        lemma_wrong_implicit_root_fails_at_its_step(
            runtime,
            shard_uid,
            ChunkExtraView { state_root: result.new_root, ..extra },
            contexts,
            transitions,
            step + 1,
            index,
            wrong_root,
        );
    }
}

/// A witness that validates fails with a wrong state root declared for one of
/// the implicit transitions that are replayed, at that transition.
pub proof fn lemma_wrong_implicit_root_is_rejected<
    E: EpochManagerAdapter,
    R: RuntimeAdapter,
    H: Commitments,
>(
    witness: ChunkStateWitnessView,
    pre_validation_output: PreValidationOutputView,
    epoch_manager: &E,
    runtime: &R,
    hasher: &H,
    index: int,
    wrong_root: CryptoHash,
)
    requires
        validated(witness, pre_validation_output, epoch_manager, runtime, hasher) is Ok,
        0 <= index < witness.implicit_transitions.len(),
        wrong_root != witness.implicit_transitions[index].post_state_root,
    ensures
        validated(
            with_implicit_root(witness, index, wrong_root),
            pre_validation_output,
            epoch_manager,
            runtime,
            hasher,
        ) == Err::<(), Error>(
            Error::InvalidChunkStateWitness(
                WitnessMismatch::ImplicitPostStateRoot {
                    actual: witness.implicit_transitions[index].post_state_root,
                    block_hash: pre_validation_output.implicit_transition_params[index].block_hash,
                    expected: wrong_root,
                },
            ),
        ),
{
    let main = pre_validation_output.main_transition_params;
    let epoch_id = epoch_manager.epoch_id(main.block.block_hash).unwrap();
    let shard_uid = epoch_manager.shard_uid(main.chunk_header.shard_id, epoch_id).unwrap();
    let result = runtime.new_chunk_result(main, new_chunk_shard_context(shard_uid)).unwrap();
    let extra = chunk_extra_of(result, main.chunk_header.gas_limit, hasher);
    lemma_wrong_implicit_root_fails_at_its_step(
        runtime,
        shard_uid,
        extra,
        pre_validation_output.implicit_transition_params,
        witness.implicit_transitions,
        0,
        index,
        wrong_root,
    );
}

/// A witness that validates fails with a wrong state root declared for the
/// main transition, before any implicit transition is replayed.
pub proof fn lemma_wrong_main_root_is_rejected<
    E: EpochManagerAdapter,
    R: RuntimeAdapter,
    H: Commitments,
>(
    witness: ChunkStateWitnessView,
    pre_validation_output: PreValidationOutputView,
    epoch_manager: &E,
    runtime: &R,
    hasher: &H,
    wrong_root: CryptoHash,
)
    requires
        validated(witness, pre_validation_output, epoch_manager, runtime, hasher) is Ok,
        wrong_root != witness.main_state_transition.post_state_root,
    ensures
        validated(
            with_main_root(witness, wrong_root),
            pre_validation_output,
            epoch_manager,
            runtime,
            hasher,
        ) == Err::<(), Error>(
            Error::InvalidChunkStateWitness(
                WitnessMismatch::MainPostStateRoot {
                    actual: witness.main_state_transition.post_state_root,
                    expected: wrong_root,
                },
            ),
        ),
{
}

/// Without blocks that skipped the shard, a witness validates exactly when the replay
/// of its main transition succeeds and reaches the declared state root, the
/// shard layout of its parent block is known, and the chunk header commits to
/// what the replay left behind.
pub proof fn lemma_no_implicit_transitions<
    E: EpochManagerAdapter,
    R: RuntimeAdapter,
    H: Commitments,
>(
    witness: ChunkStateWitnessView,
    pre_validation_output: PreValidationOutputView,
    shard_uid: ShardUId,
    result: ApplyChunkResultView,
    epoch_manager: &E,
    runtime: &R,
    hasher: &H,
)
    requires
        pre_validation_output.implicit_transition_params.len() == 0,
    ensures
        validated_after_main(
            witness,
            pre_validation_output,
            shard_uid,
            result,
            epoch_manager,
            runtime,
            hasher,
        ) is Ok <==> {
            &&& result.new_root == witness.main_state_transition.post_state_root
            &&& epoch_manager.shard_layout_from_prev_block(witness.chunk_header.prev_block_hash)
                is Ok
            &&& header_checked(
                chunk_extra_of(
                    result,
                    pre_validation_output.main_transition_params.chunk_header.gas_limit,
                    hasher,
                ),
                witness.chunk_header,
                hasher.hashes_root(
                    hasher.receipts_hashes(
                        result.outgoing_receipts,
                        epoch_manager.shard_layout_from_prev_block(
                            witness.chunk_header.prev_block_hash,
                        ).unwrap(),
                    ),
                ),
            ) is Ok
        },
{
}

} // verus!
