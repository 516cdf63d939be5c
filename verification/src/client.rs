//! The client's side of stateless validation: what a chunk producer collects
//! into the state witness of a chunk, and the entry points for witnesses and
//! endorsements that arrive.

use vstd::prelude::*;
use crate::adapters::{
    ChainStoreAccess, Commitments, EpochManagerAdapter, RuntimeAdapter, ValidatorSigner,
};
use crate::chunk_validation::{
    processed, started, ChunkValidationTask, ChunkValidationTaskView, ChunkValidator,
    PreparedValidation,
};
use crate::error::{Error, Failure};
use crate::hash::CryptoHash;
use crate::orphan_witness_pool::OrphanStateWitnessPool;
use crate::pre_validation::walk_limit;
use crate::primitives::{
    clone_encoded, result_view, AccountId, Block, BlockHeader, BlockHeight, BlockView,
    ChunkEndorsement, ChunkStateTransition, ChunkStateTransitionView, ChunkStateWitness,
    ChunkStateWitnessView, EpochId, PartialState, ReceiptProofResponseView, ReceiptProofView, ShardChunk, ShardChunkHeader,
    ShardChunkHeaderView, ShardChunkView, ShardId, ShardUId, SourceReceiptProof,
    SourceReceiptProofView,
};

verus! {

/// The header of the chunk that a block carries for a shard.
pub open spec fn prev_chunk_header_of(block: BlockView, shard_id: ShardId) -> Result<
    ShardChunkHeaderView,
    Error,
> {
    if shard_id < block.chunks.len() {
        Ok(block.chunks[shard_id as int])
    } else {
        Err(Error::InvalidShardId(shard_id))
    }
}

/// The header of the chunk that the block carries for the shard: that of the
/// shard's latest chunk as of this block.
pub fn get_prev_chunk_header(prev_block: &Block, shard_id: ShardId) -> (r: Result<
    ShardChunkHeader,
    Error,
>)
    ensures
        result_view(r) == prev_chunk_header_of(prev_block.deep_view(), shard_id),
{
    if shard_id < prev_block.chunks.len() as u64 {
        Ok(prev_block.chunks[shard_id as usize].clone())
    } else {
        Err(Error::InvalidShardId(shard_id))
    }
}

/// The recorded transition of a shard across a block, and the hash of the
/// receipts that it applied.
pub open spec fn transition_at<C: ChainStoreAccess>(
    store: &C,
    block_hash: CryptoHash,
    shard_id: ShardId,
    shard_uid: ShardUId,
) -> Result<(ChunkStateTransitionView, CryptoHash), Error> {
    match store.state_transition_data(block_hash, shard_id) {
        Err(error) => Err(error),
        Ok(None) => Err(Error::Other(Failure::MissingStateProof { block_hash, shard_id })),
        Ok(Some(stored)) => match store.chunk_extra(block_hash, shard_uid) {
            Err(error) => Err(error),
            Ok(extra) => Ok(
                (
                    ChunkStateTransitionView {
                        block_hash,
                        base_state: stored.base_state,
                        post_state_root: extra.state_root,
                    },
                    stored.receipts_hash,
                ),
            ),
        },
    }
}

/// The recorded transitions across the blocks, in their order; the first
/// failure ends it.
pub open spec fn transitions_at<C: ChainStoreAccess>(
    store: &C,
    block_hashes: Seq<CryptoHash>,
    shard_id: ShardId,
    shard_uid: ShardUId,
) -> Result<Seq<ChunkStateTransitionView>, Error>
    decreases block_hashes.len(),
{
    if block_hashes.len() == 0 {
        Ok(Seq::empty())
    } else {
        match transitions_at(store, block_hashes.drop_last(), shard_id, shard_uid) {
            Err(error) => Err(error),
            Ok(transitions) => match transition_at(
                store,
                block_hashes.last(),
                shard_id,
                shard_uid,
            ) {
                Err(error) => Err(error),
                Ok(transition) => Ok(transitions.push(transition.0)),
            },
        }
    }
}

/// A failure within the first `n` blocks is the failure of the whole list.
pub proof fn lemma_transitions_fail<C: ChainStoreAccess>(
    store: &C,
    block_hashes: Seq<CryptoHash>,
    shard_id: ShardId,
    shard_uid: ShardUId,
    n: int,
)
    requires
        0 <= n <= block_hashes.len(),
        transitions_at(store, block_hashes.take(n), shard_id, shard_uid) is Err,
    ensures
        transitions_at(store, block_hashes, shard_id, shard_uid) == transitions_at(
            store,
            block_hashes.take(n),
            shard_id,
            shard_uid,
        ),
    decreases block_hashes.len() - n,
{
    if n == block_hashes.len() {
        assert(block_hashes.take(n) =~= block_hashes);
    } else {
        let next = block_hashes.take(n + 1);
        assert(next.drop_last() =~= block_hashes.take(n));
        lemma_transitions_fail(store, block_hashes, shard_id, shard_uid, n + 1);
    }
}

/// What a chunk producer has recorded of the state transitions behind a
/// chunk.
pub struct StateTransitionDataView {
    pub main_transition: ChunkStateTransitionView,
    pub implicit_transitions: Seq<ChunkStateTransitionView>,
    pub receipts_hash: CryptoHash,
}

/// The blocks that skipped the shard, oldest first: all blocks of the list
/// but its last, read backwards.
pub open spec fn implicit_block_hashes(prev_blocks: Seq<CryptoHash>) -> Seq<CryptoHash> {
    Seq::new(
        (prev_blocks.len() - 1) as nat,
        |i: int| prev_blocks[prev_blocks.len() - 2 - i],
    )
}

/// The state transitions behind the chunk with `chunk_header`, whose shard
/// had the chunk with `prev_chunk_header` before: the main transition across
/// the block that first included that chunk, and one implicit transition for
/// each later block up to the new chunk's parent.
pub open spec fn state_transition_data<C: ChainStoreAccess, E: EpochManagerAdapter>(
    chunk_header: ShardChunkHeaderView,
    prev_chunk_header: ShardChunkHeaderView,
    store: &C,
    epoch_manager: &E,
) -> Result<StateTransitionDataView, Error> {
    let shard_id = chunk_header.shard_id;
    match epoch_manager.epoch_id_from_prev_block(chunk_header.prev_block_hash) {
        Err(error) => Err(error),
        Ok(epoch_id) => match epoch_manager.shard_uid(shard_id, epoch_id) {
            Err(error) => Err(error),
            Ok(shard_uid) => match store.blocks_until_height(
                chunk_header.prev_block_hash,
                prev_chunk_header.height_included,
                true,
            ) {
                Err(error) => Err(error),
                Ok(prev_blocks) => if prev_blocks.len() == 0 {
                    Err(Error::Other(Failure::NoBlocksSinceChunk))
                } else {
                    match transition_at(store, prev_blocks.last(), shard_id, shard_uid) {
                        Err(error) => Err(error),
                        Ok(main) => match transitions_at(
                            store,
                            implicit_block_hashes(prev_blocks),
                            shard_id,
                            shard_uid,
                        ) {
                            Err(error) => Err(error),
                            Ok(implicit_transitions) => Ok(
                                StateTransitionDataView {
                                    main_transition: main.0,
                                    implicit_transitions,
                                    receipts_hash: main.1,
                                },
                            ),
                        },
                    }
                },
            },
        },
    }
}

/// The view of what `collect_state_transition_data` returns.
pub open spec fn state_transition_data_view(
    r: Result<(ChunkStateTransition, Vec<ChunkStateTransition>, CryptoHash), Error>,
) -> Result<StateTransitionDataView, Error> {
    match r {
        Err(error) => Err(error),
        Ok(data) => Ok(
            StateTransitionDataView {
                main_transition: data.0.deep_view(),
                implicit_transitions: data.1.deep_view(),
                receipts_hash: data.2,
            },
        ),
    }
}

/// The block from `header` back in which the chunk included at
/// `height_included` is new, while `fuel` more headers may be looked up.
pub open spec fn inclusion_block<C: ChainStoreAccess>(
    store: &C,
    header: BlockHeader,
    height_included: BlockHeight,
    fuel: nat,
) -> Result<BlockHeader, Error>
    decreases fuel,
{
    if header.height == height_included {
        Ok(header)
    } else if fuel == 0 {
        Err(Error::Other(Failure::ChainWalkExhausted))
    } else {
        match store.block_header(header.prev_hash) {
            Err(error) => Err(error),
            Ok(prev_header) => inclusion_block(
                store,
                prev_header,
                height_included,
                (fuel - 1) as nat,
            ),
        }
    }
}

/// Whether a proof is filed under the chunk already.
pub open spec fn has_source(proofs: Seq<SourceReceiptProofView>, chunk_hash: CryptoHash) -> bool {
    exists|i: int| 0 <= i < proofs.len() && (#[trigger] proofs[i]).chunk_hash == chunk_hash
}

/// The proofs with `proof` filed under the chunk of `from_block` that sent
/// it. The shard that the proof names must be one of the block's, and its
/// chunk must not have a proof yet.
pub open spec fn with_proof(
    proofs: Seq<SourceReceiptProofView>,
    from_block: BlockView,
    proof: ReceiptProofView,
) -> Result<Seq<SourceReceiptProofView>, Error> {
    if proof.from_shard_id > usize::MAX {
        Err(Error::Other(Failure::ShardIdConversion))
    } else if proof.from_shard_id >= from_block.chunks.len() {
        Err(Error::InvalidShardId(proof.from_shard_id))
    } else {
        let chunk_hash = from_block.chunks[proof.from_shard_id as int].chunk_hash;
        if has_source(proofs, chunk_hash) {
            Err(Error::Other(Failure::DuplicateReceiptProof { chunk_hash }))
        } else {
            Ok(proofs.push(SourceReceiptProofView { chunk_hash, proof }))
        }
    }
}

/// The proofs with each of `more` filed in turn; the first failure ends it.
pub open spec fn with_proofs(
    proofs: Seq<SourceReceiptProofView>,
    from_block: BlockView,
    more: Seq<ReceiptProofView>,
) -> Result<Seq<SourceReceiptProofView>, Error>
    decreases more.len(),
{
    if more.len() == 0 {
        Ok(proofs)
    } else {
        match with_proofs(proofs, from_block, more.drop_last()) {
            Err(error) => Err(error),
            Ok(filed) => with_proof(filed, from_block, more.last()),
        }
    }
}

/// The proofs with those of each response filed in turn, each under the
/// chunks of the block that the response names.
pub open spec fn with_responses<C: ChainStoreAccess>(
    store: &C,
    proofs: Seq<SourceReceiptProofView>,
    responses: Seq<ReceiptProofResponseView>,
) -> Result<Seq<SourceReceiptProofView>, Error>
    decreases responses.len(),
{
    if responses.len() == 0 {
        Ok(proofs)
    } else {
        match with_responses(store, proofs, responses.drop_last()) {
            Err(error) => Err(error),
            Ok(filed) => match store.block(responses.last().block_hash) {
                Err(error) => Err(error),
                Ok(from_block) => with_proofs(filed, from_block, responses.last().proofs),
            },
        }
    }
}

/// A failure within the first `n` proofs is the failure of the whole list.
pub proof fn lemma_proofs_fail(
    proofs: Seq<SourceReceiptProofView>,
    from_block: BlockView,
    more: Seq<ReceiptProofView>,
    n: int,
)
    requires
        0 <= n <= more.len(),
        with_proofs(proofs, from_block, more.take(n)) is Err,
    ensures
        with_proofs(proofs, from_block, more) == with_proofs(proofs, from_block, more.take(n)),
    decreases more.len() - n,
{
    if n == more.len() {
        assert(more.take(n) =~= more);
    } else {
        let next = more.take(n + 1);
        assert(next.drop_last() =~= more.take(n));
        lemma_proofs_fail(proofs, from_block, more, n + 1);
    }
}

/// A failure within the first `n` responses is the failure of the whole
/// list.
pub proof fn lemma_responses_fail<C: ChainStoreAccess>(
    store: &C,
    proofs: Seq<SourceReceiptProofView>,
    responses: Seq<ReceiptProofResponseView>,
    n: int,
)
    requires
        0 <= n <= responses.len(),
        with_responses(store, proofs, responses.take(n)) is Err,
    ensures
        with_responses(store, proofs, responses) == with_responses(
            store,
            proofs,
            responses.take(n),
        ),
    decreases responses.len() - n,
{
    if n == responses.len() {
        assert(responses.take(n) =~= responses);
    } else {
        let next = responses.take(n + 1);
        assert(next.drop_last() =~= responses.take(n));
        lemma_responses_fail(store, proofs, responses, n + 1);
    }
}

/// The receipts that came in for the chunk with `prev_chunk_header`, each
/// proof filed under the chunk that sent it: those of the blocks from the one
/// that first included the chunk back to the one that first included the
/// shard's chunk before it.
pub open spec fn source_receipt_proofs<C: ChainStoreAccess>(
    store: &C,
    prev_block: BlockView,
    prev_chunk_header: ShardChunkHeaderView,
) -> Result<Seq<SourceReceiptProofView>, Error> {
    match inclusion_block(
        store,
        prev_block.header,
        prev_chunk_header.height_included,
        walk_limit(),
    ) {
        Err(error) => Err(error),
        Ok(prev_chunk_inclusion_block) => match store.block(prev_chunk_inclusion_block.prev_hash) {
            Err(error) => Err(error),
            Ok(prev_prev_chunk_block) => match prev_chunk_header_of(
                prev_prev_chunk_block,
                prev_chunk_header.shard_id,
            ) {
                Err(error) => Err(error),
                Ok(prev_prev_chunk_header) => match store.incoming_receipts_for_shard(
                    prev_chunk_header.shard_id,
                    prev_chunk_inclusion_block.hash,
                    prev_prev_chunk_header.height_included,
                ) {
                    Err(error) => Err(error),
                    Ok(responses) => with_responses(store, Seq::empty(), responses),
                },
            },
        },
    }
}

/// The witness of a chunk, addressed to the validators that are to check it.
pub struct WitnessBroadcastView {
    pub chunk_validators: Seq<Seq<char>>,
    pub witness: ChunkStateWitnessView,
}

/// What a chunk producer sends for a chunk on top of `prev_block`: nothing in
/// an epoch without chunk validation, nothing for the first chunk after
/// genesis, else the witness for the validators assigned to the chunk.
pub open spec fn witness_for_validators<C: ChainStoreAccess, E: EpochManagerAdapter>(
    store: &C,
    epoch_manager: &E,
    epoch_id: EpochId,
    prev_block: BlockView,
    chunk: ShardChunkView,
) -> Result<Option<WitnessBroadcastView>, Error> {
    match epoch_manager.chunk_validation_enabled(epoch_id) {
        Err(error) => Err(error),
        Ok(enabled) => if !enabled {
            Ok(None)
        } else {
            match prev_chunk_header_of(prev_block, chunk.header.shard_id) {
                Err(error) => Err(error),
                Ok(prev_chunk_header) => if prev_chunk_header.prev_block_hash == CryptoHash::zero() {
                    Ok(None)
                } else {
                    match epoch_manager.chunk_validator_assignments(
                        epoch_id,
                        chunk.header.shard_id,
                        chunk.header.height_created,
                    ) {
                        Err(error) => Err(error),
                        Ok(chunk_validators) => match store.chunk(prev_chunk_header.chunk_hash) {
                            Err(error) => Err(error),
                            Ok(prev_chunk) => match source_receipt_proofs(
                                store,
                                prev_block,
                                prev_chunk_header,
                            ) {
                                Err(error) => Err(error),
                                Ok(proofs) => match state_transition_data(
                                    chunk.header,
                                    prev_chunk_header,
                                    store,
                                    epoch_manager,
                                ) {
                                    Err(error) => Err(error),
                                    Ok(data) => Ok(
                                        Some(
                                            WitnessBroadcastView {
                                                chunk_validators,
                                                witness: ChunkStateWitnessView {
                                                    chunk_header: chunk.header,
                                                    main_state_transition: data.main_transition,
                                                    source_receipt_proofs: proofs,
                                                    transactions: prev_chunk.transactions,
                                                    applied_receipts_hash: data.receipts_hash,
                                                    implicit_transitions: data.implicit_transitions,
                                                    new_transactions: chunk.transactions,
                                                    new_transactions_validation_state: Seq::empty(),
                                                },
                                            },
                                        ),
                                    ),
                                },
                            },
                        },
                    }
                },
            }
        },
    }
}

/// The view of what `send_chunk_state_witness_to_chunk_validators` returns.
pub open spec fn broadcast_view(r: Result<Option<(Vec<AccountId>, ChunkStateWitness)>, Error>) -> Result<
    Option<WitnessBroadcastView>,
    Error,
> {
    match r {
        Err(error) => Err(error),
        Ok(None) => Ok(None),
        Ok(Some(broadcast)) => Ok(
            Some(
                WitnessBroadcastView {
                    chunk_validators: broadcast.0.deep_view(),
                    witness: broadcast.1.deep_view(),
                },
            ),
        ),
    }
}

/// Whether a proof is filed under the chunk already.
fn has_source_proof(proofs: &Vec<SourceReceiptProof>, chunk_hash: &CryptoHash) -> (found: bool)
    ensures
        found == has_source(proofs.deep_view(), *chunk_hash),
{
    let mut i: usize = 0;
    while i < proofs.len()
        invariant
            i <= proofs.len(),
            forall|j: int| 0 <= j < i ==> (#[trigger] proofs.deep_view()[j]).chunk_hash != *chunk_hash,
        decreases proofs.len() - i,
    {
        if proofs[i].chunk_hash == *chunk_hash {
            assert(proofs.deep_view()[i as int].chunk_hash == *chunk_hash);
            return true;
        }
        i += 1;
    }
    false
}

/// A node's view of the chain together with its chunk validator.
pub struct Client<
    C: ChainStoreAccess,
    S: ValidatorSigner,
    E: EpochManagerAdapter,
    R: RuntimeAdapter,
    H: Commitments,
> {
    pub chain: C,
    pub chunk_validator: ChunkValidator<S, E, R, H>,
}

impl<
    C: ChainStoreAccess,
    S: ValidatorSigner,
    E: EpochManagerAdapter,
    R: RuntimeAdapter,
    H: Commitments,
> Client<C, S, E, R, H> {
    /// Answers a state witness that a chunk producer sent: the task for the
    /// worker that replays it, or why there is none.
    pub fn process_chunk_state_witness(&mut self, witness: ChunkStateWitness) -> (r: Result<
        ChunkValidationTask,
        Error,
    >)
        requires
            started(
                witness.deep_view(),
                old(self).chunk_validator.signer_account(),
                &old(self).chain,
                &old(self).chunk_validator.epoch_manager,
                &old(self).chunk_validator.hasher,
            ) matches Ok(task) ==> task.block_producers.len() > 0,
        ensures
            *final(self) == *old(self),
            r matches Ok(task) ==> task.block_producers.len() > 0,
            result_view(r) == started(
                witness.deep_view(),
                old(self).chunk_validator.signer_account(),
                &old(self).chain,
                &old(self).chunk_validator.epoch_manager,
                &old(self).chunk_validator.hasher,
            ),
    {
        self.chunk_validator.start_validating_chunk(witness, &self.chain)
    }

    /// Answers a state witness of `chunk_producer` as far as the chain allows:
    /// a witness whose parent block is not known yet is parked in the pool,
    /// any other is checked and prepared for its replay.
    pub fn process_chunk_state_witness_or_park(
        &mut self,
        witness: ChunkStateWitness,
        chunk_producer: AccountId,
        pool: &mut OrphanStateWitnessPool,
    ) -> (r: Result<Option<PreparedValidation>, Error>)
        requires
            old(pool).wf(),
        ensures
            *final(self) == *old(self),
            final(pool).wf(),
            match old(self).chain.block(witness.chunk_header.prev_block_hash) {
                Err(_) => {
                    &&& r == Ok::<Option<PreparedValidation>, Error>(None)
                    &&& final(pool)@ == old(pool)@.added(witness, chunk_producer@)
                },
                Ok(_) => {
                    &&& final(pool)@ == old(pool)@
                    &&& match r {
                        Ok(Some(prepared)) => started(
                            witness.deep_view(),
                            old(self).chunk_validator.signer_account(),
                            &old(self).chain,
                            &old(self).chunk_validator.epoch_manager,
                            &old(self).chunk_validator.hasher,
                        ) == Ok::<ChunkValidationTaskView, Error>(prepared.deep_view()),
                        Ok(None) => false,
                        Err(error) => started(
                            witness.deep_view(),
                            old(self).chunk_validator.signer_account(),
                            &old(self).chain,
                            &old(self).chunk_validator.epoch_manager,
                            &old(self).chunk_validator.hasher,
                        ) == Err::<ChunkValidationTaskView, Error>(error),
                    }
                },
            },
    {
        match self.chain.get_block(&witness.chunk_header.prev_block_hash()) {
            Err(_) => {
                pool.add_orphan_state_witness(witness, chunk_producer);
                Ok(None)
            },
            Ok(_) => match self.chunk_validator.prepare_validating_chunk(witness, &self.chain) {
                Ok(prepared) => Ok(Some(prepared)),
                Err(error) => Err(error),
            },
        }
    }

    /// Collects the recorded state transitions that the witness of the chunk
    /// with `chunk_header` has to carry.
    #[verifier::loop_isolation(false)]
    pub fn collect_state_transition_data(
        &mut self,
        chunk_header: &ShardChunkHeader,
        prev_chunk_header: ShardChunkHeader,
    ) -> (r: Result<(ChunkStateTransition, Vec<ChunkStateTransition>, CryptoHash), Error>)
        ensures
            *final(self) == *old(self),
            state_transition_data_view(r) == state_transition_data(
                chunk_header.deep_view(),
                prev_chunk_header.deep_view(),
                &old(self).chain,
                &old(self).chunk_validator.epoch_manager,
            ),
    {
        let shard_id = chunk_header.shard_id();
        let epoch_id = match self.chunk_validator.epoch_manager.get_epoch_id_from_prev_block(
            &chunk_header.prev_block_hash(),
        ) {
            Ok(epoch_id) => epoch_id,
            Err(error) => {
                return Err(error);
            },
        };
        let shard_uid = match self.chunk_validator.epoch_manager.shard_id_to_uid(
            shard_id,
            &epoch_id,
        ) {
            Ok(shard_uid) => shard_uid,
            Err(error) => {
                return Err(error);
            },
        };
        let prev_chunk_height_included = prev_chunk_header.height_included();
        let prev_blocks = match self.chain.get_blocks_until_height(
            chunk_header.prev_block_hash(),
            prev_chunk_height_included,
            true,
        ) {
            Ok(blocks) => blocks,
            Err(error) => {
                return Err(error);
            },
        };
        if prev_blocks.len() == 0 {
            return Err(Error::Other(Failure::NoBlocksSinceChunk));
        }
        assert(prev_blocks.deep_view() =~= prev_blocks@);
        let count = prev_blocks.len() - 1;
        let main_block = prev_blocks[count];
        let (main_transition, receipts_hash) = match self.state_transition(
            &main_block,
            shard_id,
            &shard_uid,
        ) {
            Ok(found) => found,
            Err(error) => {
                return Err(error);
            },
        };
        let ghost hashes = implicit_block_hashes(prev_blocks@);
        let mut implicit_transitions: Vec<ChunkStateTransition> = Vec::new();
        let mut done: usize = 0;
        assert(hashes.take(0) =~= Seq::empty());
        assert(implicit_transitions.deep_view() =~= Seq::empty());
        while done < count
            invariant
                done <= count,
                count == prev_blocks.len() - 1,
                *self == *old(self),
                hashes == implicit_block_hashes(prev_blocks@),
                transitions_at(&self.chain, hashes.take(done as int), shard_id, shard_uid) == Ok::<
                    Seq<ChunkStateTransitionView>,
                    Error,
                >(implicit_transitions.deep_view()),
            decreases count - done,
        {
            let block_hash = prev_blocks[count - 1 - done];
            assert(block_hash == hashes[done as int]);
            proof {
                let next = hashes.take(done + 1);
                assert(next.drop_last() =~= hashes.take(done as int));
                assert(next.last() == block_hash);
            }
            let ghost before = implicit_transitions.deep_view();
            match self.state_transition(&block_hash, shard_id, &shard_uid) {
                Ok(found) => {
                    implicit_transitions.push(found.0);
                    assert(implicit_transitions.deep_view() =~= before.push(found.0.deep_view()));
                },
                Err(error) => {
                    proof {
                        lemma_transitions_fail(&self.chain, hashes, shard_id, shard_uid, done + 1);
                    }
                    return Err(error);
                },
            }
            done += 1;
        }
        assert(hashes.take(count as int) =~= hashes);
        Ok((main_transition, implicit_transitions, receipts_hash))
    }

    /// The recorded transition of the shard across the block.
    fn state_transition(&self, block_hash: &CryptoHash, shard_id: ShardId, shard_uid: &ShardUId) -> (r:
        Result<(ChunkStateTransition, CryptoHash), Error>)
        ensures
            match r {
                Ok(found) => transition_at(&self.chain, *block_hash, shard_id, *shard_uid) == Ok::<
                    (ChunkStateTransitionView, CryptoHash),
                    Error,
                >((found.0.deep_view(), found.1)),
                Err(error) => transition_at(&self.chain, *block_hash, shard_id, *shard_uid) == Err::<
                    (ChunkStateTransitionView, CryptoHash),
                    Error,
                >(error),
            },
    {
        let stored = match self.chain.get_state_transition_data(block_hash, shard_id) {
            Ok(Some(stored)) => stored,
            Ok(None) => {
                return Err(
                    Error::Other(
                        Failure::MissingStateProof { block_hash: *block_hash, shard_id },
                    ),
                );
            },
            Err(error) => {
                return Err(error);
            },
        };
        let extra = match self.chain.get_chunk_extra(block_hash, shard_uid) {
            Ok(extra) => extra,
            Err(error) => {
                return Err(error);
            },
        };
        Ok(
            (
                ChunkStateTransition {
                    block_hash: *block_hash,
                    base_state: stored.base_state,
                    post_state_root: extra.state_root,
                },
                stored.receipts_hash,
            ),
        )
    }

    /// The header of the block in which the chunk is new, from `header` back.
    fn find_inclusion_block(&self, header: &BlockHeader, prev_chunk_header: &ShardChunkHeader) -> (r:
        Result<BlockHeader, Error>)
        ensures
            r == inclusion_block(
                &self.chain,
                *header,
                prev_chunk_header.height_included,
                walk_limit(),
            ),
    {
        let mut cur_block = *header;
        let mut visited: usize = 0;
        loop
            invariant
                inclusion_block(
                    &self.chain,
                    *header,
                    prev_chunk_header.height_included,
                    walk_limit(),
                ) == inclusion_block(
                    &self.chain,
                    cur_block,
                    prev_chunk_header.height_included,
                    (walk_limit() - visited) as nat,
                ),
            decreases usize::MAX - visited,
        {
            if prev_chunk_header.is_new_chunk(cur_block.height) {
                return Ok(cur_block);
            }
            if visited == usize::MAX {
                return Err(Error::Other(Failure::ChainWalkExhausted));
            }
            cur_block = match self.chain.get_block_header(&cur_block.prev_hash) {
                Ok(header) => header,
                Err(error) => {
                    return Err(error);
                },
            };
            visited += 1;
        }
    }

    /// Collects the receipts that came in for the chunk with
    /// `prev_chunk_header`, with the proofs that they come from the chunks
    /// they name, one proof per source chunk.
    #[verifier::loop_isolation(false)]
    pub fn collect_source_receipt_proofs(
        &self,
        prev_block: &Block,
        prev_chunk_header: &ShardChunkHeader,
    ) -> (r: Result<Vec<SourceReceiptProof>, Error>)
        ensures
            result_view(r) == source_receipt_proofs(
                &self.chain,
                prev_block.deep_view(),
                prev_chunk_header.deep_view(),
            ),
    {
        let prev_chunk_inclusion_block = match self.find_inclusion_block(
            &prev_block.header,
            prev_chunk_header,
        ) {
            Ok(header) => header,
            Err(error) => {
                return Err(error);
            },
        };
        let prev_prev_chunk_block = match self.chain.get_block(
            &prev_chunk_inclusion_block.prev_hash,
        ) {
            Ok(block) => block,
            Err(error) => {
                return Err(error);
            },
        };
        let prev_prev_chunk_header = match get_prev_chunk_header(
            &prev_prev_chunk_block,
            prev_chunk_header.shard_id(),
        ) {
            Ok(header) => header,
            Err(error) => {
                return Err(error);
            },
        };
        let incoming_receipt_proofs = match self.chain.get_incoming_receipts_for_shard(
            prev_chunk_header.shard_id(),
            prev_chunk_inclusion_block.hash,
            prev_prev_chunk_header.height_included(),
        ) {
            Ok(responses) => responses,
            Err(error) => {
                return Err(error);
            },
        };
        let ghost responses = incoming_receipt_proofs.deep_view();
        let mut source_receipt_proofs: Vec<SourceReceiptProof> = Vec::new();
        let mut n: usize = 0;
        assert(responses.take(0) =~= Seq::empty());
        assert(source_receipt_proofs.deep_view() =~= Seq::empty());
        while n < incoming_receipt_proofs.len()
            invariant
                n <= incoming_receipt_proofs.len(),
                responses == incoming_receipt_proofs.deep_view(),
                with_responses(&self.chain, Seq::empty(), responses.take(n as int)) == Ok::<
                    Seq<SourceReceiptProofView>,
                    Error,
                >(source_receipt_proofs.deep_view()),
            decreases incoming_receipt_proofs.len() - n,
        {
            let response = &incoming_receipt_proofs[n];
            let ghost filed = source_receipt_proofs.deep_view();
            proof {
                let next = responses.take(n + 1);
                assert(next.drop_last() =~= responses.take(n as int));
                assert(next.last() == response.deep_view());
            }
            let from_block = match self.chain.get_block(&response.block_hash) {
                Ok(block) => block,
                Err(error) => {
                    proof {
                        lemma_responses_fail(&self.chain, Seq::empty(), responses, n + 1);
                    }
                    return Err(error);
                },
            };
            let ghost proofs = response.proofs.deep_view();
            let mut m: usize = 0;
            assert(proofs.take(0) =~= Seq::empty());
            while m < response.proofs.len()
                invariant
                    m <= response.proofs.len(),
                    proofs == response.proofs.deep_view(),
                    with_proofs(filed, from_block.deep_view(), proofs.take(m as int)) == Ok::<
                        Seq<SourceReceiptProofView>,
                        Error,
                    >(source_receipt_proofs.deep_view()),
                decreases response.proofs.len() - m,
            {
                let proof_item = &response.proofs[m];
                let ghost so_far = source_receipt_proofs.deep_view();
                proof {
                    let next = proofs.take(m + 1);
                    assert(next.drop_last() =~= proofs.take(m as int));
                    assert(next.last() == proof_item.deep_view());
                    assert(from_block.deep_view().chunks.len() == from_block.chunks.len());
                }
                let outcome: Result<CryptoHash, Error> = if proof_item.from_shard_id
                    > usize::MAX as u64 {
                    Err(Error::Other(Failure::ShardIdConversion))
                } else if proof_item.from_shard_id >= from_block.chunks.len() as u64 {
                    Err(Error::InvalidShardId(proof_item.from_shard_id))
                } else {
                    let from_chunk_hash = from_block.chunks[proof_item.from_shard_id
                        as usize].chunk_hash();
                    if has_source_proof(&source_receipt_proofs, &from_chunk_hash) {
                        Err(
                            Error::Other(
                                Failure::DuplicateReceiptProof { chunk_hash: from_chunk_hash },
                            ),
                        )
                    } else {
                        Ok(from_chunk_hash)
                    }
                };
                match outcome {
                    Ok(from_chunk_hash) => {
                        source_receipt_proofs.push(
                            SourceReceiptProof {
                                chunk_hash: from_chunk_hash,
                                proof: proof_item.clone(),
                            },
                        );
                        assert(source_receipt_proofs.deep_view() =~= so_far.push(
                            SourceReceiptProofView {
                                chunk_hash: from_chunk_hash,
                                proof: proof_item.deep_view(),
                            },
                        ));
                    },
                    Err(error) => {
                        proof {
                            lemma_proofs_fail(filed, from_block.deep_view(), proofs, m + 1);
                            lemma_responses_fail(&self.chain, Seq::empty(), responses, n + 1);
                        }
                        return Err(error);
                    },
                }
                m += 1;
            }
            assert(proofs.take(proofs.len() as int) =~= proofs);
            n += 1;
        }
        assert(responses.take(responses.len() as int) =~= responses);
        Ok(source_receipt_proofs)
    }

    /// Builds the state witness of a chunk for the validators that are to
    /// check it. The caller sends it.
    ///
    /// Nothing is to be sent in an epoch without chunk validation, nor for
    /// the first chunk after genesis, which needs no endorsement.
    pub fn send_chunk_state_witness_to_chunk_validators(
        &mut self,
        epoch_id: &EpochId,
        prev_block: &Block,
        chunk: &ShardChunk,
    ) -> (r: Result<Option<(Vec<AccountId>, ChunkStateWitness)>, Error>)
        ensures
            *final(self) == *old(self),
            broadcast_view(r) == witness_for_validators(
                &old(self).chain,
                &old(self).chunk_validator.epoch_manager,
                *epoch_id,
                prev_block.deep_view(),
                chunk.deep_view(),
            ),
    {
        match self.chunk_validator.epoch_manager.is_chunk_validation_enabled(epoch_id) {
            Ok(enabled) => {
                if !enabled {
                    return Ok(None);
                }
            },
            Err(error) => {
                return Err(error);
            },
        }
        let chunk_header = chunk.cloned_header();
        let prev_chunk_header = match get_prev_chunk_header(prev_block, chunk.shard_id()) {
            Ok(header) => header,
            Err(error) => {
                return Err(error);
            },
        };
        if prev_chunk_header.prev_block_hash() == CryptoHash::default() {
            return Ok(None);
        }
        let chunk_validators = match self.chunk_validator.epoch_manager.get_chunk_validator_assignments(
            epoch_id,
            chunk_header.shard_id(),
            chunk_header.height_created(),
        ) {
            Ok(validators) => validators,
            Err(error) => {
                return Err(error);
            },
        };
        let prev_chunk = match self.chain.get_chunk(&prev_chunk_header.chunk_hash()) {
            Ok(chunk) => chunk,
            Err(error) => {
                return Err(error);
            },
        };
        let source_receipt_proofs = match self.collect_source_receipt_proofs(
            prev_block,
            &prev_chunk_header,
        ) {
            Ok(proofs) => proofs,
            Err(error) => {
                return Err(error);
            },
        };
        let (main_state_transition, implicit_transitions, applied_receipts_hash) =
            match self.collect_state_transition_data(&chunk_header, prev_chunk_header) {
            Ok(data) => data,
            Err(error) => {
                return Err(error);
            },
        };
        let witness = ChunkStateWitness {
            chunk_header,
            main_state_transition,
            source_receipt_proofs,
            transactions: clone_encoded(prev_chunk.transactions()),
            applied_receipts_hash,
            implicit_transitions,
            new_transactions: clone_encoded(chunk.transactions()),
            new_transactions_validation_state: PartialState::default(),
        };
        Ok(Some((chunk_validators, witness)))
    }

    /// Processes an endorsement that a chunk validator sent: it is verified,
    /// unless it is known already, and kept for block production.
    pub fn process_chunk_endorsement(&mut self, endorsement: ChunkEndorsement) -> (r: Result<
        (),
        Error,
    >)
        requires
            old(self).chunk_validator.wf(),
        ensures
            final(self).chunk_validator.wf(),
            final(self).chain == old(self).chain,
            final(self).chunk_validator.my_signer == old(self).chunk_validator.my_signer,
            final(self).chunk_validator.epoch_manager == old(self).chunk_validator.epoch_manager,
            final(self).chunk_validator.runtime_adapter == old(
                self,
            ).chunk_validator.runtime_adapter,
            final(self).chunk_validator.hasher == old(self).chunk_validator.hasher,
            (r, final(self).chunk_validator.endorsements()) == processed(
                old(self).chunk_validator.endorsements(),
                old(self).chunk_validator.endorsements_limit(),
                endorsement.deep_view(),
                &old(self).chain,
                &old(self).chunk_validator.epoch_manager,
            ),
    {
        self.chunk_validator.process_chunk_endorsement(endorsement, &self.chain)
    }
}

} // verus!
