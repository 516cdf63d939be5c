//! The collaborators of chunk validation, each as a narrow interface: the
//! chain store, the epoch manager, the runtime that replays chunks, the
//! validator's signer and the digests that commit to receipts and
//! transactions.
//!
//! Every method names its answer by a spec function of the same collaborator.
//! That fixes one thing only: the answer is a function of the collaborator and
//! of the arguments. Which answer it is stays open, errors included, and the
//! contracts of this crate hold whatever it is.

use vstd::prelude::*;
use crate::error::Error;
use crate::hash::CryptoHash;
use crate::primitives::{
    result_view, AccountId, ApplyChunkBlockContext, ApplyChunkResult, ApplyChunkResultView,
    Block, BlockHeader, BlockHeight, BlockView, ChunkEndorsement, ChunkEndorsementView,
    ChunkExtra, ChunkExtraView, Encoded, EncodedView, EpochId, NewChunkData, NewChunkDataView,
    OldChunkData, OldChunkDataView, Receipt, ReceiptProofResponse, ReceiptProofResponseView,
    ShardChunk, ShardChunkHeader, ShardChunkHeaderView, ShardChunkView, ShardContext, ShardId,
    ShardLayout, ShardUId, StoredChunkStateTransitionData, StoredChunkStateTransitionDataView,
};

verus! {

/// Blocks, headers, chunks and receipts by hash and height.
pub trait ChainStoreAccess {
    spec fn block(&self, hash: CryptoHash) -> Result<BlockView, Error>;

    spec fn block_header(&self, hash: CryptoHash) -> Result<BlockHeader, Error>;

    spec fn previous_header(&self, header: BlockHeader) -> Result<BlockHeader, Error>;

    spec fn incoming_receipts_for_shard(
        &self,
        shard_id: ShardId,
        block_hash: CryptoHash,
        last_chunk_height_included: BlockHeight,
    ) -> Result<Seq<ReceiptProofResponseView>, Error>;

    spec fn blocks_until_height(
        &self,
        block_hash: CryptoHash,
        height: BlockHeight,
        include_with_height: bool,
    ) -> Result<Seq<CryptoHash>, Error>;

    spec fn state_transition_data(&self, block_hash: CryptoHash, shard_id: ShardId) -> Result<
        Option<StoredChunkStateTransitionDataView>,
        Error,
    >;

    spec fn chunk_extra(&self, block_hash: CryptoHash, shard_uid: ShardUId) -> Result<
        ChunkExtraView,
        Error,
    >;

    spec fn chunk(&self, chunk_hash: CryptoHash) -> Result<ShardChunkView, Error>;

    fn get_block(&self, hash: &CryptoHash) -> (r: Result<Block, Error>)
        ensures
            result_view(r) == self.block(*hash),
    ;

    fn get_block_header(&self, hash: &CryptoHash) -> (r: Result<BlockHeader, Error>)
        ensures
            r == self.block_header(*hash),
    ;

    fn get_previous_header(&self, header: &BlockHeader) -> (r: Result<BlockHeader, Error>)
        ensures
            r == self.previous_header(*header),
    ;

    /// The receipts sent to `shard_id` by the blocks from `block_hash` back to,
    /// and without, the block at `last_chunk_height_included`.
    fn get_incoming_receipts_for_shard(
        &self,
        shard_id: ShardId,
        block_hash: CryptoHash,
        last_chunk_height_included: BlockHeight,
    ) -> (r: Result<Vec<ReceiptProofResponse>, Error>)
        ensures
            result_view(r) == self.incoming_receipts_for_shard(
                shard_id,
                block_hash,
                last_chunk_height_included,
            ),
    ;

    /// The hashes of the blocks from `block_hash` back to `height`, newest
    /// first; the block at `height` itself only if `include_with_height`.
    fn get_blocks_until_height(
        &self,
        block_hash: CryptoHash,
        height: BlockHeight,
        include_with_height: bool,
    ) -> (r: Result<Vec<CryptoHash>, Error>)
        ensures
            result_view(r) == self.blocks_until_height(block_hash, height, include_with_height),
    ;

    fn get_state_transition_data(&self, block_hash: &CryptoHash, shard_id: ShardId) -> (r: Result<
        Option<StoredChunkStateTransitionData>,
        Error,
    >)
        ensures
            result_view(r) == self.state_transition_data(*block_hash, shard_id),
    ;

    fn get_chunk_extra(&self, block_hash: &CryptoHash, shard_uid: &ShardUId) -> (r: Result<
        ChunkExtra,
        Error,
    >)
        ensures
            result_view(r) == self.chunk_extra(*block_hash, *shard_uid),
    ;

    fn get_chunk(&self, chunk_hash: &CryptoHash) -> (r: Result<ShardChunk, Error>)
        ensures
            result_view(r) == self.chunk(*chunk_hash),
    ;
}

/// Who validates and produces what, epoch by epoch.
pub trait EpochManagerAdapter {
    spec fn epoch_id_from_prev_block(&self, block_hash: CryptoHash) -> Result<EpochId, Error>;

    spec fn epoch_id(&self, block_hash: CryptoHash) -> Result<EpochId, Error>;

    spec fn chunk_validation_enabled(&self, epoch_id: EpochId) -> Result<bool, Error>;

    spec fn chunk_validator_assignments(
        &self,
        epoch_id: EpochId,
        shard_id: ShardId,
        height: BlockHeight,
    ) -> Result<Seq<Seq<char>>, Error>;

    spec fn block_producer(&self, epoch_id: EpochId, height: BlockHeight) -> Result<
        Seq<char>,
        Error,
    >;

    spec fn shard_uid(&self, shard_id: ShardId, epoch_id: EpochId) -> Result<ShardUId, Error>;

    spec fn shard_layout_from_prev_block(&self, block_hash: CryptoHash) -> Result<
        ShardLayout,
        Error,
    >;

    spec fn endorsement_verifies(
        &self,
        chunk_header: ShardChunkHeaderView,
        endorsement: ChunkEndorsementView,
    ) -> Result<bool, Error>;

    spec fn apply_chunk_block_context(
        &self,
        header: BlockHeader,
        prev_header: BlockHeader,
        is_new_chunk: bool,
    ) -> Result<ApplyChunkBlockContext, Error>;

    fn get_epoch_id_from_prev_block(&self, block_hash: &CryptoHash) -> (r: Result<EpochId, Error>)
        ensures
            r == self.epoch_id_from_prev_block(*block_hash),
    ;

    fn get_epoch_id(&self, block_hash: &CryptoHash) -> (r: Result<EpochId, Error>)
        ensures
            r == self.epoch_id(*block_hash),
    ;

    /// Whether the protocol version of the epoch has chunk validation.
    fn is_chunk_validation_enabled(&self, epoch_id: &EpochId) -> (r: Result<bool, Error>)
        ensures
            r == self.chunk_validation_enabled(*epoch_id),
    ;

    /// The validators assigned to the chunk, in their canonical order.
    fn get_chunk_validator_assignments(
        &self,
        epoch_id: &EpochId,
        shard_id: ShardId,
        height: BlockHeight,
    ) -> (r: Result<Vec<AccountId>, Error>)
        ensures
            result_view(r) == self.chunk_validator_assignments(*epoch_id, shard_id, height),
    ;

    /// The producer of the block at `height`; an error past the epoch's end.
    fn get_block_producer(&self, epoch_id: &EpochId, height: BlockHeight) -> (r: Result<
        AccountId,
        Error,
    >)
        ensures
            result_view(r) == self.block_producer(*epoch_id, height),
    ;

    fn shard_id_to_uid(&self, shard_id: ShardId, epoch_id: &EpochId) -> (r: Result<
        ShardUId,
        Error,
    >)
        ensures
            r == self.shard_uid(shard_id, *epoch_id),
    ;

    fn get_shard_layout_from_prev_block(&self, block_hash: &CryptoHash) -> (r: Result<
        ShardLayout,
        Error,
    >)
        ensures
            r == self.shard_layout_from_prev_block(*block_hash),
    ;

    fn verify_chunk_endorsement(
        &self,
        chunk_header: &ShardChunkHeader,
        endorsement: &ChunkEndorsement,
    ) -> (r: Result<bool, Error>)
        ensures
            r == self.endorsement_verifies(chunk_header.deep_view(), endorsement.deep_view()),
    ;

    /// The block-level inputs for applying a chunk at `header`, whose parent is
    /// `prev_header`.
    fn get_apply_chunk_block_context(
        &self,
        header: &BlockHeader,
        prev_header: &BlockHeader,
        is_new_chunk: bool,
    ) -> (r: Result<ApplyChunkBlockContext, Error>)
        ensures
            r == self.apply_chunk_block_context(*header, *prev_header, is_new_chunk),
    ;
}

/// Replays the application of a chunk against the state that the request
/// names.
pub trait RuntimeAdapter {
    spec fn new_chunk_result(&self, data: NewChunkDataView, shard_context: ShardContext) -> Result<
        ApplyChunkResultView,
        Error,
    >;

    spec fn old_chunk_result(&self, data: OldChunkDataView, shard_context: ShardContext) -> Result<
        ApplyChunkResultView,
        Error,
    >;

    fn apply_new_chunk(&self, data: NewChunkData, shard_context: ShardContext) -> (r: Result<
        ApplyChunkResult,
        Error,
    >)
        ensures
            result_view(r) == self.new_chunk_result(data.deep_view(), shard_context),
    ;

    fn apply_old_chunk(&self, data: OldChunkData, shard_context: ShardContext) -> (r: Result<
        ApplyChunkResult,
        Error,
    >)
        ensures
            result_view(r) == self.old_chunk_result(data.deep_view(), shard_context),
    ;
}

/// The signing identity of a validator.
pub trait ValidatorSigner {
    spec fn account(&self) -> Seq<char>;

    spec fn endorsement_signature(&self, chunk_hash: CryptoHash) -> Seq<u8>;

    fn validator_id(&self) -> (id: &AccountId)
        ensures
            id@ == self.account(),
    ;

    fn sign_chunk_endorsement(&self, chunk_hash: &CryptoHash) -> (signature: Vec<u8>)
        ensures
            signature@ == self.endorsement_signature(*chunk_hash),
    ;
}

/// The digests by which chunks commit to receipts, transactions and outcomes.
pub trait Commitments {
    spec fn receipts_hash(&self, receipts: Seq<EncodedView>) -> CryptoHash;

    spec fn merkle_root(&self, items: Seq<EncodedView>) -> CryptoHash;

    spec fn receipts_hashes(&self, receipts: Seq<EncodedView>, layout: ShardLayout) -> Seq<
        CryptoHash,
    >;

    spec fn hashes_root(&self, hashes: Seq<CryptoHash>) -> CryptoHash;

    /// The hash of the receipts' joint encoding.
    fn hash_receipts(&self, receipts: &Vec<Receipt>) -> (h: CryptoHash)
        ensures
            h == self.receipts_hash(receipts.deep_view()),
    ;

    /// The Merkle root over the items.
    fn merklize(&self, items: &Vec<Encoded>) -> (root: CryptoHash)
        ensures
            root == self.merkle_root(items.deep_view()),
    ;

    /// One hash per target shard of the layout, over the receipts bound for it.
    fn build_receipts_hashes(&self, receipts: &Vec<Receipt>, layout: &ShardLayout) -> (hashes: Vec<
        CryptoHash,
    >)
        ensures
            hashes@ == self.receipts_hashes(receipts.deep_view(), *layout),
    ;

    /// The Merkle root over the hashes.
    fn merklize_hashes(&self, hashes: &Vec<CryptoHash>) -> (root: CryptoHash)
        ensures
            root == self.hashes_root(hashes@),
    ;
}

} // verus!
