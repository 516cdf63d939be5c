//! Pre-validation of a state witness: from chain metadata alone, find what the
//! chunk's execution must have had as inputs, and reject a witness whose
//! commitments say otherwise before anything is replayed.

use vstd::prelude::*;
use crate::adapters::{ChainStoreAccess, Commitments, EpochManagerAdapter};
use crate::error::{Error, Failure, WitnessMismatch};
use crate::hash::CryptoHash;
use crate::primitives::{
    recorded_storage, ApplyChunkBlockContext, Block, BlockHeader, BlockView, ChunkStateWitness,
    ChunkStateWitnessView, EncodedView, NewChunkData, NewChunkDataView, Receipt,
    ReceiptProofResponse, ReceiptProofResponseView, ReceiptProofView, ShardId, StorageContext,
    StorageDataSource,
};

verus! {

/// The blocks that the walk from a witness's parent block collects.
pub struct ChainWalk {
    /// From the parent block back to the block with the shard's most recent
    /// new chunk, that block last.
    pub blocks_after_last_chunk: Seq<BlockView>,
    /// The blocks before those, back to the block with the new chunk before
    /// that one, that block last.
    pub blocks_after_last_last_chunk: Seq<BlockView>,
}

/// The most blocks that a walk visits.
pub open spec fn walk_limit() -> nat {
    usize::MAX as nat
}

/// The walk along `prev_hash` from `block_hash`, when `chunks_seen` new chunks
/// of the shard lie behind it already and `fuel` blocks may still be visited.
/// It ends at the second block that holds a new chunk of the shard.
pub open spec fn walk_back<C: ChainStoreAccess>(
    store: &C,
    shard_id: ShardId,
    block_hash: CryptoHash,
    chunks_seen: nat,
    fuel: nat,
) -> Result<ChainWalk, Error>
    decreases fuel,
{
    if fuel == 0 {
        Err(Error::Other(Failure::ChainWalkExhausted))
    } else {
        match store.block(block_hash) {
            Err(error) => Err(error),
            Ok(block) => if shard_id >= block.chunks.len() {
                Err(
                    Error::InvalidChunkStateWitness(
                        WitnessMismatch::ShardNotInBlock { shard_id, block_hash },
                    ),
                )
            } else {
                let is_new = block.chunks[shard_id as int].is_new_chunk(block.header.height);
                let here = ChainWalk {
                    blocks_after_last_chunk: if chunks_seen == 0 {
                        seq![block]
                    } else {
                        Seq::empty()
                    },
                    blocks_after_last_last_chunk: if chunks_seen == 0 {
                        Seq::empty()
                    } else {
                        seq![block]
                    },
                };
                if is_new && chunks_seen > 0 {
                    Ok(here)
                } else {
                    joined(
                        here,
                        walk_back(
                            store,
                            shard_id,
                            block.header.prev_hash,
                            if is_new {
                                chunks_seen + 1
                            } else {
                                chunks_seen
                            },
                            (fuel - 1) as nat,
                        ),
                    )
                }
            },
        }
    }
}

/// The blocks of `first`, then those of `rest`, if the walk went on without
/// an error.
pub open spec fn joined(first: ChainWalk, rest: Result<ChainWalk, Error>) -> Result<
    ChainWalk,
    Error,
> {
    match rest {
        Err(error) => Err(error),
        Ok(more) => Ok(
            ChainWalk {
                blocks_after_last_chunk: first.blocks_after_last_chunk
                    + more.blocks_after_last_chunk,
                blocks_after_last_last_chunk: first.blocks_after_last_last_chunk
                    + more.blocks_after_last_last_chunk,
            },
        ),
    }
}

/// The receipts of the proofs, in order.
pub open spec fn receipts_of_proofs(proofs: Seq<ReceiptProofView>) -> Seq<EncodedView>
    decreases proofs.len(),
{
    if proofs.len() == 0 {
        Seq::empty()
    } else {
        receipts_of_proofs(proofs.drop_last()) + proofs.last().receipts
    }
}

/// The receipts of the responses, block by block and proof by proof.
pub open spec fn receipts_of_responses(responses: Seq<ReceiptProofResponseView>) -> Seq<
    EncodedView,
>
    decreases responses.len(),
{
    if responses.len() == 0 {
        Seq::empty()
    } else {
        receipts_of_responses(responses.drop_last()) + receipts_of_proofs(responses.last().proofs)
    }
}

/// All receipts that the responses carry, in the order in which they are
/// applied.
pub fn collect_receipts_from_response(responses: &Vec<ReceiptProofResponse>) -> (receipts: Vec<
    Receipt,
>)
    ensures
        receipts.deep_view() == receipts_of_responses(responses.deep_view()),
{
    let mut receipts: Vec<Receipt> = Vec::new();
    let mut i: usize = 0;
    assert(responses.deep_view().take(0) =~= Seq::empty());
    assert(receipts.deep_view() =~= Seq::empty());
    while i < responses.len()
        invariant
            i <= responses.len(),
            receipts.deep_view() == receipts_of_responses(responses.deep_view().take(i as int)),
        decreases responses.len() - i,
    {
        let proofs = &responses[i].proofs;
        let ghost before = receipts.deep_view();
        let mut j: usize = 0;
        assert(proofs.deep_view().take(0) =~= Seq::empty());
        assert(before + Seq::<EncodedView>::empty() =~= before);
        while j < proofs.len()
            invariant
                j <= proofs.len(),
                receipts.deep_view() == before + receipts_of_proofs(
                    proofs.deep_view().take(j as int),
                ),
            decreases proofs.len() - j,
        {
            let items = &proofs[j].receipts;
            let ghost start = receipts.deep_view();
            let mut k: usize = 0;
            assert(start + items.deep_view().take(0) =~= start);
            while k < items.len()
                invariant
                    k <= items.len(),
                    receipts.deep_view() == start + items.deep_view().take(k as int),
                decreases items.len() - k,
            {
                let ghost old_receipts = receipts.deep_view();
                receipts.push(items[k].clone());
                assert(receipts.deep_view() =~= old_receipts.push(items.deep_view()[k as int]));
                assert(start + items.deep_view().take(k + 1) =~= (start + items.deep_view().take(
                    k as int,
                )).push(items.deep_view()[k as int]));
                k += 1;
            }
            assert(items.deep_view().take(items.len() as int) =~= items.deep_view());
            proof {
                let done = proofs.deep_view().take(j + 1);
                assert(done.drop_last() =~= proofs.deep_view().take(j as int));
                assert(done.last().receipts == items.deep_view());
                assert(before + receipts_of_proofs(done) =~= start + items.deep_view());
            }
            j += 1;
        }
        assert(proofs.deep_view().take(proofs.len() as int) =~= proofs.deep_view());
        proof {
            let done = responses.deep_view().take(i + 1);
            assert(done.drop_last() =~= responses.deep_view().take(i as int));
            assert(done.last().proofs == proofs.deep_view());
        }
        i += 1;
    }
    assert(responses.deep_view().take(responses.len() as int) =~= responses.deep_view());
    receipts
}

/// The block-level inputs for a chunk application at `header`: the parent
/// header is looked up first, then the context derived from both.
pub open spec fn block_context<C: ChainStoreAccess, E: EpochManagerAdapter>(
    store: &C,
    epoch_manager: &E,
    header: BlockHeader,
    is_new_chunk: bool,
) -> Result<ApplyChunkBlockContext, Error> {
    match store.previous_header(header) {
        Err(error) => Err(error),
        Ok(prev_header) => epoch_manager.apply_chunk_block_context(
            header,
            prev_header,
            is_new_chunk,
        ),
    }
}

/// The contexts of the blocks that carried the shard without a new chunk, in
/// the order of `headers`; the first failure ends it.
pub open spec fn implicit_block_contexts<C: ChainStoreAccess, E: EpochManagerAdapter>(
    store: &C,
    epoch_manager: &E,
    headers: Seq<BlockHeader>,
) -> Result<Seq<ApplyChunkBlockContext>, Error>
    decreases headers.len(),
{
    if headers.len() == 0 {
        Ok(Seq::empty())
    } else {
        match implicit_block_contexts(store, epoch_manager, headers.drop_last()) {
            Err(error) => Err(error),
            Ok(contexts) => match block_context(store, epoch_manager, headers.last(), false) {
                Err(error) => Err(error),
                Ok(context) => Ok(contexts.push(context)),
            },
        }
    }
}

/// What pre-validation hands to the replay.
#[derive(Debug, PartialEq, Eq)]
pub struct PreValidationOutput {
    pub main_transition_params: NewChunkData,
    /// Oldest first, one per implicit transition.
    pub implicit_transition_params: Vec<ApplyChunkBlockContext>,
}

pub struct PreValidationOutputView {
    pub main_transition_params: NewChunkDataView,
    pub implicit_transition_params: Seq<ApplyChunkBlockContext>,
}

impl DeepView for PreValidationOutput {
    type V = PreValidationOutputView;

    open spec fn deep_view(&self) -> PreValidationOutputView {
        PreValidationOutputView {
            main_transition_params: self.main_transition_params.deep_view(),
            implicit_transition_params: self.implicit_transition_params@,
        }
    }
}

/// The headers of the blocks that skipped the shard, oldest first: all blocks
/// of the walk's first list but its last, read backwards.
pub open spec fn implicit_headers(walk: ChainWalk) -> Seq<BlockHeader> {
    Seq::new(
        (walk.blocks_after_last_chunk.len() - 1) as nat,
        |i: int|
            walk.blocks_after_last_chunk[walk.blocks_after_last_chunk.len() - 2 - i].header,
    )
}

/// What pre-validation returns once the walk has ended with `walk`.
pub open spec fn checked_against_walk<
    C: ChainStoreAccess,
    E: EpochManagerAdapter,
    H: Commitments,
>(witness: ChunkStateWitnessView, walk: ChainWalk, store: &C, epoch_manager: &E, hasher: &H) -> Result<
    PreValidationOutputView,
    Error,
> {
    let shard_id = witness.chunk_header.shard_id;
    let last_chunk_block = walk.blocks_after_last_chunk.last();
    match store.incoming_receipts_for_shard(
        shard_id,
        last_chunk_block.header.hash,
        walk.blocks_after_last_last_chunk.last().header.height,
    ) {
        Err(error) => Err(error),
        Ok(responses) => {
            let receipts = receipts_of_responses(responses);
            let receipts_hash = hasher.receipts_hash(receipts);
            let tx_root = hasher.merkle_root(witness.transactions);
            let last_new_chunk = last_chunk_block.chunks[shard_id as int];
            if receipts_hash != witness.applied_receipts_hash {
                Err(
                    Error::InvalidChunkStateWitness(
                        WitnessMismatch::ReceiptsHash {
                            actual: receipts_hash,
                            expected: witness.applied_receipts_hash,
                        },
                    ),
                )
            } else if last_new_chunk.tx_root != tx_root {
                Err(
                    Error::InvalidChunkStateWitness(
                        WitnessMismatch::TransactionRoot {
                            actual: tx_root,
                            expected: last_new_chunk.tx_root,
                        },
                    ),
                )
            } else {
                match block_context(store, epoch_manager, last_chunk_block.header, true) {
                    Err(error) => Err(error),
                    Ok(main_block) => match implicit_block_contexts(
                        store,
                        epoch_manager,
                        implicit_headers(walk),
                    ) {
                        Err(error) => Err(error),
                        Ok(contexts) => Ok(
                            PreValidationOutputView {
                                main_transition_params: NewChunkDataView {
                                    chunk_header: last_new_chunk,
                                    transactions: witness.transactions,
                                    receipts,
                                    block: main_block,
                                    is_first_block_with_chunk_of_version: false,
                                    storage_context: recorded_storage(
                                        witness.main_state_transition.base_state,
                                    ),
                                },
                                implicit_transition_params: contexts,
                            },
                        ),
                    },
                }
            }
        },
    }
}

/// What pre-validation returns for a witness: the first failure of the walk,
/// of a lookup or of a comparison, else the replay requests.
pub open spec fn pre_validated<C: ChainStoreAccess, E: EpochManagerAdapter, H: Commitments>(
    witness: ChunkStateWitnessView,
    store: &C,
    epoch_manager: &E,
    hasher: &H,
) -> Result<PreValidationOutputView, Error> {
    match walk_back(
        store,
        witness.chunk_header.shard_id,
        witness.chunk_header.prev_block_hash,
        0,
        walk_limit(),
    ) {
        Err(error) => Err(error),
        Ok(walk) => checked_against_walk(witness, walk, store, epoch_manager, hasher),
    }
}

/// The two lists of blocks behind the walk from `start`.
struct WalkedBlocks {
    blocks_after_last_chunk: Vec<Block>,
    blocks_after_last_last_chunk: Vec<Block>,
}

impl WalkedBlocks {
    spec fn walk(&self) -> ChainWalk {
        ChainWalk {
            blocks_after_last_chunk: self.blocks_after_last_chunk.deep_view(),
            blocks_after_last_last_chunk: self.blocks_after_last_last_chunk.deep_view(),
        }
    }
}

/// Both lists of a walk that ended hold a block, and the last block of the
/// first list has a chunk slot for the shard.
pub proof fn lemma_walk_shape<C: ChainStoreAccess>(
    store: &C,
    shard_id: ShardId,
    block_hash: CryptoHash,
    chunks_seen: nat,
    fuel: nat,
)
    requires
        walk_back(store, shard_id, block_hash, chunks_seen, fuel) is Ok,
        chunks_seen <= 1,
    ensures
        ({
            let walk = walk_back(store, shard_id, block_hash, chunks_seen, fuel).unwrap();
            &&& walk.blocks_after_last_last_chunk.len() > 0
            &&& chunks_seen == 0 ==> walk.blocks_after_last_chunk.len() > 0
            &&& chunks_seen == 0 ==> shard_id < walk.blocks_after_last_chunk.last().chunks.len()
            &&& chunks_seen == 0 ==> walk.blocks_after_last_chunk.last().chunks[shard_id as int].is_new_chunk(
                walk.blocks_after_last_chunk.last().header.height,
            )
            &&& chunks_seen == 1 ==> walk.blocks_after_last_chunk.len() == 0
            &&& shard_id < walk.blocks_after_last_last_chunk.last().chunks.len()
            &&& walk.blocks_after_last_last_chunk.last().chunks[shard_id as int].is_new_chunk(
                walk.blocks_after_last_last_chunk.last().header.height,
            )
        }),
    decreases fuel,
{
    let block = store.block(block_hash).unwrap();
    let is_new = block.chunks[shard_id as int].is_new_chunk(block.header.height);
    if is_new && chunks_seen > 0 {
    } else {
        let seen: nat = if is_new {
            chunks_seen + 1
        } else {
            chunks_seen
        };
        lemma_walk_shape(store, shard_id, block.header.prev_hash, seen, (fuel - 1) as nat);
    }
}

fn walk_chain<C: ChainStoreAccess>(store: &C, shard_id: ShardId, start: CryptoHash) -> (r: Result<
    WalkedBlocks,
    Error,
>)
    ensures
        match r {
            Ok(walked) => walk_back(store, shard_id, start, 0, walk_limit()) == Ok::<
                ChainWalk,
                Error,
            >(walked.walk()),
            Err(error) => walk_back(store, shard_id, start, 0, walk_limit()) == Err::<
                ChainWalk,
                Error,
            >(error),
        },
{
    let mut blocks_after_last_chunk: Vec<Block> = Vec::new();
    let mut blocks_after_last_last_chunk: Vec<Block> = Vec::new();
    let mut block_hash = start;
    let mut prev_chunks_seen: u8 = 0;
    let mut visited: usize = 0;
    let ghost whole = walk_back(store, shard_id, start, 0, walk_limit());
    proof {
        let first = ChainWalk {
            blocks_after_last_chunk: blocks_after_last_chunk.deep_view(),
            blocks_after_last_last_chunk: blocks_after_last_last_chunk.deep_view(),
        };
        match whole {
            Ok(walk) => {
                assert(first.blocks_after_last_chunk + walk.blocks_after_last_chunk
                    =~= walk.blocks_after_last_chunk);
                assert(first.blocks_after_last_last_chunk + walk.blocks_after_last_last_chunk
                    =~= walk.blocks_after_last_last_chunk);
            },
            Err(_) => {},
        }
    }
    loop
        invariant
            prev_chunks_seen <= 1,
            whole == walk_back(store, shard_id, start, 0, walk_limit()),
            whole == joined(
                ChainWalk {
                    blocks_after_last_chunk: blocks_after_last_chunk.deep_view(),
                    blocks_after_last_last_chunk: blocks_after_last_last_chunk.deep_view(),
                },
                walk_back(
                    store,
                    shard_id,
                    block_hash,
                    prev_chunks_seen as nat,
                    (walk_limit() - visited) as nat,
                ),
            ),
        decreases usize::MAX - visited,
    {
        if visited == usize::MAX {
            return Err(Error::Other(Failure::ChainWalkExhausted));
        }
        let block = match store.get_block(&block_hash) {
            Ok(block) => block,
            Err(error) => {
                return Err(error);
            },
        };
        if shard_id >= block.chunks.len() as u64 {
            return Err(
                Error::InvalidChunkStateWitness(
                    WitnessMismatch::ShardNotInBlock { shard_id, block_hash },
                ),
            );
        }
        let is_new_chunk = block.chunks[shard_id as usize].is_new_chunk(block.header.height);
        let ghost done = ChainWalk {
            blocks_after_last_chunk: blocks_after_last_chunk.deep_view(),
            blocks_after_last_last_chunk: blocks_after_last_last_chunk.deep_view(),
        };
        let ghost view = block.deep_view();
        let ghost here = ChainWalk {
            blocks_after_last_chunk: if prev_chunks_seen == 0 {
                seq![view]
            } else {
                Seq::empty()
            },
            blocks_after_last_last_chunk: if prev_chunks_seen == 0 {
                Seq::empty()
            } else {
                seq![view]
            },
        };
        let ghost next_hash = block.header.prev_hash;
        block_hash = block.header.prev_hash;
        if prev_chunks_seen == 0 {
            blocks_after_last_chunk.push(block);
        } else {
            blocks_after_last_last_chunk.push(block);
        }
        let ghost now = ChainWalk {
            blocks_after_last_chunk: blocks_after_last_chunk.deep_view(),
            blocks_after_last_last_chunk: blocks_after_last_last_chunk.deep_view(),
        };
        proof {
            assert(now.blocks_after_last_chunk =~= done.blocks_after_last_chunk
                + here.blocks_after_last_chunk);
            assert(now.blocks_after_last_last_chunk =~= done.blocks_after_last_last_chunk
                + here.blocks_after_last_last_chunk);
        }
        if is_new_chunk && prev_chunks_seen == 1 {
            return Ok(WalkedBlocks { blocks_after_last_chunk, blocks_after_last_last_chunk });
        }
        let ghost seen_before = prev_chunks_seen as nat;
        if is_new_chunk {
            prev_chunks_seen += 1;
        }
        proof {
            let rest = walk_back(
                store,
                shard_id,
                next_hash,
                prev_chunks_seen as nat,
                (walk_limit() - visited - 1) as nat,
            );
            match rest {
                Ok(more) => {
                    assert((done.blocks_after_last_chunk + here.blocks_after_last_chunk)
                        + more.blocks_after_last_chunk =~= done.blocks_after_last_chunk + (
                    here.blocks_after_last_chunk + more.blocks_after_last_chunk));
                    assert((done.blocks_after_last_last_chunk
                        + here.blocks_after_last_last_chunk) + more.blocks_after_last_last_chunk
                        =~= done.blocks_after_last_last_chunk + (here.blocks_after_last_last_chunk
                        + more.blocks_after_last_last_chunk));
                },
                Err(_) => {},
            }
        }
        visited += 1;
    }
}

/// Checks a state witness against the chain before anything is replayed.
///
/// Walks back from the witness's parent block to the two most recent blocks
/// with a new chunk of the shard, compares the hash of the receipts that the
/// chain reports as incoming with the one the witness declares, compares the
/// root of the witness's transactions with the one the last new chunk
/// recorded, and builds the replay requests: one for the main transition and
/// one block context for each block that skipped the shard, oldest first.
#[verifier::loop_isolation(false)]
pub fn pre_validate_chunk_state_witness<
    C: ChainStoreAccess,
    E: EpochManagerAdapter,
    H: Commitments,
>(state_witness: &ChunkStateWitness, store: &C, epoch_manager: &E, hasher: &H) -> (r: Result<
    PreValidationOutput,
    Error,
>)
    ensures
        crate::primitives::result_view(r) == pre_validated(
            state_witness.deep_view(),
            store,
            epoch_manager,
            hasher,
        ),
{
    let shard_id = state_witness.chunk_header.shard_id();
    let walked = match walk_chain(store, shard_id, state_witness.chunk_header.prev_block_hash()) {
        Ok(walked) => walked,
        Err(error) => {
            return Err(error);
        },
    };
    let ghost walk = walked.walk();
    proof {
        lemma_walk_shape(
            store,
            shard_id,
            state_witness.chunk_header.prev_block_hash,
            0,
            walk_limit(),
        );
    }
    let blocks_after_last_chunk = walked.blocks_after_last_chunk;
    let blocks_after_last_last_chunk = walked.blocks_after_last_last_chunk;
    let last_chunk_block = &blocks_after_last_chunk[blocks_after_last_chunk.len() - 1];
    let last_last_chunk_block = &blocks_after_last_last_chunk[blocks_after_last_last_chunk.len()
        - 1];
    assert(last_chunk_block.deep_view() == walk.blocks_after_last_chunk.last());
    assert(last_last_chunk_block.deep_view() == walk.blocks_after_last_last_chunk.last());
    let receipts_response = match store.get_incoming_receipts_for_shard(
        shard_id,
        last_chunk_block.header.hash,
        last_last_chunk_block.header.height,
    ) {
        Ok(response) => response,
        Err(error) => {
            return Err(error);
        },
    };
    let receipts_to_apply = collect_receipts_from_response(&receipts_response);
    let applied_receipts_hash = hasher.hash_receipts(&receipts_to_apply);
    if applied_receipts_hash != state_witness.applied_receipts_hash {
        return Err(
            Error::InvalidChunkStateWitness(
                WitnessMismatch::ReceiptsHash {
                    actual: applied_receipts_hash,
                    expected: state_witness.applied_receipts_hash,
                },
            ),
        );
    }
    let tx_root_from_state_witness = hasher.merklize(&state_witness.transactions);
    let last_new_chunk = &last_chunk_block.chunks[shard_id as usize];
    let last_new_chunk_tx_root = last_new_chunk.tx_root();
    if last_new_chunk_tx_root != tx_root_from_state_witness {
        return Err(
            Error::InvalidChunkStateWitness(
                WitnessMismatch::TransactionRoot {
                    actual: tx_root_from_state_witness,
                    expected: last_new_chunk_tx_root,
                },
            ),
        );
    }
    let main_prev_header = match store.get_previous_header(&last_chunk_block.header) {
        Ok(header) => header,
        Err(error) => {
            return Err(error);
        },
    };
    let main_block = match epoch_manager.get_apply_chunk_block_context(
        &last_chunk_block.header,
        &main_prev_header,
        true,
    ) {
        Ok(context) => context,
        Err(error) => {
            return Err(error);
        },
    };
    let main_transition_params = NewChunkData {
        chunk_header: last_new_chunk.clone(),
        transactions: crate::primitives::clone_encoded(&state_witness.transactions),
        receipts: receipts_to_apply,
        block: main_block,
        is_first_block_with_chunk_of_version: false,
        storage_context: StorageContext {
            storage_data_source: StorageDataSource::Recorded(
                state_witness.main_state_transition.base_state.clone(),
            ),
            record_storage: false,
        },
    };
    let mut implicit_transition_params: Vec<ApplyChunkBlockContext> = Vec::new();
    let count = blocks_after_last_chunk.len() - 1;
    let ghost headers = implicit_headers(walk);
    let mut done: usize = 0;
    assert(headers.take(0) =~= Seq::empty());
    while done < count
        invariant
            done <= count,
            count == blocks_after_last_chunk.len() - 1,
            headers == implicit_headers(walk),
            walk.blocks_after_last_chunk == blocks_after_last_chunk.deep_view(),
            implicit_block_contexts(store, epoch_manager, headers.take(done as int)) == Ok::<
                Seq<ApplyChunkBlockContext>,
                Error,
            >(implicit_transition_params@),
        decreases count - done,
    {
        let block = &blocks_after_last_chunk[count - 1 - done];
        assert(block.header == headers[done as int]);
        proof {
            let next = headers.take(done + 1);
            assert(next.drop_last() =~= headers.take(done as int));
            assert(next.last() == block.header);
        }
        let prev_header = match store.get_previous_header(&block.header) {
            Ok(header) => header,
            Err(error) => {
                proof {
                    lemma_implicit_contexts_fail(store, epoch_manager, headers, done + 1);
                }
                return Err(error);
            },
        };
        let context = match epoch_manager.get_apply_chunk_block_context(
            &block.header,
            &prev_header,
            false,
        ) {
            Ok(context) => context,
            Err(error) => {
                proof {
                    lemma_implicit_contexts_fail(store, epoch_manager, headers, done + 1);
                }
                return Err(error);
            },
        };
        implicit_transition_params.push(context);
        done += 1;
    }
    assert(headers.take(count as int) =~= headers);
    Ok(PreValidationOutput { main_transition_params, implicit_transition_params })
}

/// A failure within the first `n` headers is the failure of the whole list.
pub proof fn lemma_implicit_contexts_fail<C: ChainStoreAccess, E: EpochManagerAdapter>(
    store: &C,
    epoch_manager: &E,
    headers: Seq<BlockHeader>,
    n: int,
)
    requires
        0 <= n <= headers.len(),
        implicit_block_contexts(store, epoch_manager, headers.take(n)) is Err,
    ensures
        implicit_block_contexts(store, epoch_manager, headers) == implicit_block_contexts(
            store,
            epoch_manager,
            headers.take(n),
        ),
    decreases headers.len() - n,
{
    if n == headers.len() {
        assert(headers.take(n) =~= headers);
    } else {
        let next = headers.take(n + 1);
        assert(next.drop_last() =~= headers.take(n));
        lemma_implicit_contexts_fail(store, epoch_manager, headers, n + 1);
    }
}

} // verus!
