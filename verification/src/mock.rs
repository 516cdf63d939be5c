//! Deterministic stand-ins for the collaborators of chunk validation, for
//! tests and simulations: a chain store and an epoch manager that answer from
//! tables, a runtime that replays from a script, a signer, and digests that
//! need no cryptography.

use vstd::prelude::*;
use crate::adapters::{
    ChainStoreAccess, Commitments, EpochManagerAdapter, RuntimeAdapter, ValidatorSigner,
};
use crate::error::{Error, Failure};
use crate::hash::CryptoHash;
use crate::primitives::{
    clone_accounts, clone_responses, result_view, AccountId,
    ApplyChunkBlockContext, ApplyChunkResult, ApplyChunkResultView, Block, BlockHeader,
    BlockHeight, BlockView, ChunkEndorsement, ChunkEndorsementView, ChunkExtra, ChunkExtraView,
    Encoded, EncodedView, EpochId, NewChunkData, NewChunkDataView, OldChunkData,
    OldChunkDataView, Receipt, ReceiptProofResponse, ReceiptProofResponseView, ShardChunk,
    ShardChunkHeader, ShardChunkHeaderView, ShardChunkView, ShardContext, ShardId, ShardLayout,
    ShardUId, StoredChunkStateTransitionData, StoredChunkStateTransitionDataView,
};

verus! {

/// The receipts that came in for a shard over a range of blocks.
#[derive(Debug, PartialEq, Eq)]
pub struct IncomingReceipts {
    pub shard_id: ShardId,
    pub block_hash: CryptoHash,
    pub last_chunk_height_included: BlockHeight,
    pub responses: Vec<ReceiptProofResponse>,
}

/// What was recorded when a shard's state went across a block.
#[derive(Debug, PartialEq, Eq)]
pub struct StoredTransition {
    pub block_hash: CryptoHash,
    pub shard_id: ShardId,
    pub data: StoredChunkStateTransitionData,
}

/// What the application of a shard's chunk at a block left behind.
#[derive(Debug, PartialEq, Eq)]
pub struct StoredChunkExtra {
    pub block_hash: CryptoHash,
    pub shard_uid: ShardUId,
    pub chunk_extra: ChunkExtra,
}

/// A chain store that holds everything in tables. A lookup finds the first
/// entry that matches.
#[derive(Debug, PartialEq, Eq)]
pub struct MockChainStore {
    pub blocks: Vec<Block>,
    pub chunks: Vec<ShardChunk>,
    pub incoming_receipts: Vec<IncomingReceipts>,
    pub state_transitions: Vec<StoredTransition>,
    pub chunk_extras: Vec<StoredChunkExtra>,
}

/// The place of the first block with this hash from `from` on, or -1.
pub open spec fn block_place(blocks: Seq<Block>, hash: CryptoHash, from: int) -> int
    decreases blocks.len() - from,
{
    if from < 0 || from >= blocks.len() {
        -1
    } else if blocks[from].header.hash == hash {
        from
    } else {
        block_place(blocks, hash, from + 1)
    }
}

/// The place of the first chunk with this hash from `from` on, or -1.
pub open spec fn chunk_place(chunks: Seq<ShardChunk>, hash: CryptoHash, from: int) -> int
    decreases chunks.len() - from,
{
    if from < 0 || from >= chunks.len() {
        -1
    } else if chunks[from].header.chunk_hash == hash {
        from
    } else {
        chunk_place(chunks, hash, from + 1)
    }
}

/// The place of the first entry for this shard and range from `from` on, or
/// -1.
pub open spec fn incoming_place(
    entries: Seq<IncomingReceipts>,
    shard_id: ShardId,
    block_hash: CryptoHash,
    last_chunk_height_included: BlockHeight,
    from: int,
) -> int
    decreases entries.len() - from,
{
    if from < 0 || from >= entries.len() {
        -1
    } else if entries[from].shard_id == shard_id && entries[from].block_hash == block_hash
        && entries[from].last_chunk_height_included == last_chunk_height_included {
        from
    } else {
        incoming_place(entries, shard_id, block_hash, last_chunk_height_included, from + 1)
    }
}

/// The place of the first record for this block and shard from `from` on, or
/// -1.
pub open spec fn transition_place(
    entries: Seq<StoredTransition>,
    block_hash: CryptoHash,
    shard_id: ShardId,
    from: int,
) -> int
    decreases entries.len() - from,
{
    if from < 0 || from >= entries.len() {
        -1
    } else if entries[from].block_hash == block_hash && entries[from].shard_id == shard_id {
        from
    } else {
        transition_place(entries, block_hash, shard_id, from + 1)
    }
}

/// The place of the first record for this block and shard from `from` on, or
/// -1.
pub open spec fn extra_place(
    entries: Seq<StoredChunkExtra>,
    block_hash: CryptoHash,
    shard_uid: ShardUId,
    from: int,
) -> int
    decreases entries.len() - from,
{
    if from < 0 || from >= entries.len() {
        -1
    } else if entries[from].block_hash == block_hash && entries[from].shard_uid == shard_uid {
        from
    } else {
        extra_place(entries, block_hash, shard_uid, from + 1)
    }
}

/// The first hashes of `first`, then those of `rest`, if there was no error.
pub open spec fn hashes_joined(first: Seq<CryptoHash>, rest: Result<Seq<CryptoHash>, Error>) -> Result<
    Seq<CryptoHash>,
    Error,
> {
    match rest {
        Err(error) => Err(error),
        Ok(more) => Ok(first + more),
    }
}

impl MockChainStore {
    /// A store that knows nothing.
    pub fn new() -> (store: MockChainStore)
        ensures
            store.blocks@.len() == 0,
            store.chunks@.len() == 0,
            store.incoming_receipts@.len() == 0,
            store.state_transitions@.len() == 0,
            store.chunk_extras@.len() == 0,
    {
        MockChainStore {
            blocks: Vec::new(),
            chunks: Vec::new(),
            incoming_receipts: Vec::new(),
            state_transitions: Vec::new(),
            chunk_extras: Vec::new(),
        }
    }

    /// The hashes of the blocks from `block_hash` back to `height`, while
    /// `fuel` more blocks may be visited.
    pub open spec fn hashes_until(
        &self,
        block_hash: CryptoHash,
        height: BlockHeight,
        include_with_height: bool,
        fuel: nat,
    ) -> Result<Seq<CryptoHash>, Error>
        decreases fuel,
    {
        if fuel == 0 {
            Err(Error::Other(Failure::ChainWalkExhausted))
        } else {
            match self.block(block_hash) {
                Err(error) => Err(error),
                Ok(block) => if block.header.height < height {
                    Ok(Seq::empty())
                } else if block.header.height == height {
                    Ok(
                        if include_with_height {
                            seq![block_hash]
                        } else {
                            Seq::empty()
                        },
                    )
                } else {
                    hashes_joined(
                        seq![block_hash],
                        self.hashes_until(
                            block.header.prev_hash,
                            height,
                            include_with_height,
                            (fuel - 1) as nat,
                        ),
                    )
                },
            }
        }
    }

    fn find_block(&self, hash: &CryptoHash) -> (at: Option<usize>)
        ensures
            match at {
                Some(at) => at < self.blocks.len() && block_place(self.blocks@, *hash, 0) == at,
                None => block_place(self.blocks@, *hash, 0) == -1,
            },
    {
        let mut i: usize = 0;
        while i < self.blocks.len()
            invariant
                i <= self.blocks.len(),
                block_place(self.blocks@, *hash, 0) == block_place(self.blocks@, *hash, i as int),
            decreases self.blocks.len() - i,
        {
            if self.blocks[i].header.hash == *hash {
                return Some(i);
            }
            i += 1;
        }
        None
    }
}

impl ChainStoreAccess for MockChainStore {
    open spec fn block(&self, hash: CryptoHash) -> Result<BlockView, Error> {
        let at = block_place(self.blocks@, hash, 0);
        if at >= 0 {
            Ok(self.blocks@[at].deep_view())
        } else {
            Err(Error::DBNotFound(hash))
        }
    }

    open spec fn block_header(&self, hash: CryptoHash) -> Result<BlockHeader, Error> {
        match self.block(hash) {
            Ok(block) => Ok(block.header),
            Err(error) => Err(error),
        }
    }

    open spec fn previous_header(&self, header: BlockHeader) -> Result<BlockHeader, Error> {
        self.block_header(header.prev_hash)
    }

    open spec fn incoming_receipts_for_shard(
        &self,
        shard_id: ShardId,
        block_hash: CryptoHash,
        last_chunk_height_included: BlockHeight,
    ) -> Result<Seq<ReceiptProofResponseView>, Error> {
        let at = incoming_place(
            self.incoming_receipts@,
            shard_id,
            block_hash,
            last_chunk_height_included,
            0,
        );
        if at >= 0 {
            Ok(self.incoming_receipts@[at].responses.deep_view())
        } else {
            Ok(Seq::empty())
        }
    }

    open spec fn blocks_until_height(
        &self,
        block_hash: CryptoHash,
        height: BlockHeight,
        include_with_height: bool,
    ) -> Result<Seq<CryptoHash>, Error> {
        self.hashes_until(block_hash, height, include_with_height, self.blocks@.len())
    }

    open spec fn state_transition_data(&self, block_hash: CryptoHash, shard_id: ShardId) -> Result<
        Option<StoredChunkStateTransitionDataView>,
        Error,
    > {
        let at = transition_place(self.state_transitions@, block_hash, shard_id, 0);
        if at >= 0 {
            Ok(Some(self.state_transitions@[at].data.deep_view()))
        } else {
            Ok(None)
        }
    }

    open spec fn chunk_extra(&self, block_hash: CryptoHash, shard_uid: ShardUId) -> Result<
        ChunkExtraView,
        Error,
    > {
        let at = extra_place(self.chunk_extras@, block_hash, shard_uid, 0);
        if at >= 0 {
            Ok(self.chunk_extras@[at].chunk_extra.deep_view())
        } else {
            Err(Error::DBNotFound(block_hash))
        }
    }

    open spec fn chunk(&self, chunk_hash: CryptoHash) -> Result<ShardChunkView, Error> {
        let at = chunk_place(self.chunks@, chunk_hash, 0);
        if at >= 0 {
            Ok(self.chunks@[at].deep_view())
        } else {
            Err(Error::DBNotFound(chunk_hash))
        }
    }

    fn get_block(&self, hash: &CryptoHash) -> (r: Result<Block, Error>) {
        match self.find_block(hash) {
            Some(at) => Ok(self.blocks[at].clone()),
            None => Err(Error::DBNotFound(*hash)),
        }
    }

    fn get_block_header(&self, hash: &CryptoHash) -> (r: Result<BlockHeader, Error>) {
        match self.find_block(hash) {
            Some(at) => Ok(self.blocks[at].header),
            None => Err(Error::DBNotFound(*hash)),
        }
    }

    fn get_previous_header(&self, header: &BlockHeader) -> (r: Result<BlockHeader, Error>) {
        self.get_block_header(&header.prev_hash)
    }

    fn get_incoming_receipts_for_shard(
        &self,
        shard_id: ShardId,
        block_hash: CryptoHash,
        last_chunk_height_included: BlockHeight,
    ) -> (r: Result<Vec<ReceiptProofResponse>, Error>) {
        let mut i: usize = 0;
        while i < self.incoming_receipts.len()
            invariant
                i <= self.incoming_receipts.len(),
                incoming_place(
                    self.incoming_receipts@,
                    shard_id,
                    block_hash,
                    last_chunk_height_included,
                    0,
                ) == incoming_place(
                    self.incoming_receipts@,
                    shard_id,
                    block_hash,
                    last_chunk_height_included,
                    i as int,
                ),
            decreases self.incoming_receipts.len() - i,
        {
            let entry = &self.incoming_receipts[i];
            if entry.shard_id == shard_id && entry.block_hash == block_hash
                && entry.last_chunk_height_included == last_chunk_height_included {
                return Ok(clone_responses(&entry.responses));
            }
            i += 1;
        }
        let none: Vec<ReceiptProofResponse> = Vec::new();
        assert(none.deep_view() =~= Seq::empty());
        Ok(none)
    }

    fn get_blocks_until_height(
        &self,
        block_hash: CryptoHash,
        height: BlockHeight,
        include_with_height: bool,
    ) -> (r: Result<Vec<CryptoHash>, Error>) {
        let mut hashes: Vec<CryptoHash> = Vec::new();
        let mut current = block_hash;
        let mut visited: usize = 0;
        let ghost whole = self.blocks_until_height(block_hash, height, include_with_height);
        proof {
            match whole {
                Ok(all) => {
                    assert(hashes@ + all =~= all);
                },
                Err(_) => {},
            }
        }
        loop
            invariant
                visited <= self.blocks.len(),
                whole == self.blocks_until_height(block_hash, height, include_with_height),
                whole == hashes_joined(
                    hashes@,
                    self.hashes_until(
                        current,
                        height,
                        include_with_height,
                        (self.blocks.len() - visited) as nat,
                    ),
                ),
            decreases self.blocks.len() - visited,
        {
            if visited == self.blocks.len() {
                return Err(Error::Other(Failure::ChainWalkExhausted));
            }
            let at = match self.find_block(&current) {
                Some(at) => at,
                None => {
                    return Err(Error::DBNotFound(current));
                },
            };
            let header = self.blocks[at].header;
            assert(self.block(current) == Ok::<BlockView, Error>(self.blocks@[at as int].deep_view()));
            if header.height < height {
                assert(hashes@ + Seq::<CryptoHash>::empty() =~= hashes@);
                assert(hashes.deep_view() =~= hashes@);
                return Ok(hashes);
            }
            let ghost before = hashes@;
            if header.height == height {
                if include_with_height {
                    hashes.push(current);
                    assert(hashes@ =~= before + seq![current]);
                } else {
                    assert(hashes@ + Seq::<CryptoHash>::empty() =~= hashes@);
                }
                assert(hashes.deep_view() =~= hashes@);
                return Ok(hashes);
            }
            hashes.push(current);
            proof {
                let rest = self.hashes_until(
                    header.prev_hash,
                    height,
                    include_with_height,
                    (self.blocks.len() - visited - 1) as nat,
                );
                match rest {
                    Ok(more) => {
                        assert(hashes@ + more =~= before + (seq![current] + more));
                    },
                    Err(_) => {},
                }
            }
            current = header.prev_hash;
            visited += 1;
        }
    }

    fn get_state_transition_data(&self, block_hash: &CryptoHash, shard_id: ShardId) -> (r: Result<
        Option<StoredChunkStateTransitionData>,
        Error,
    >) {
        let mut i: usize = 0;
        while i < self.state_transitions.len()
            invariant
                i <= self.state_transitions.len(),
                transition_place(self.state_transitions@, *block_hash, shard_id, 0)
                    == transition_place(self.state_transitions@, *block_hash, shard_id, i as int),
            decreases self.state_transitions.len() - i,
        {
            let entry = &self.state_transitions[i];
            if entry.block_hash == *block_hash && entry.shard_id == shard_id {
                return Ok(Some(entry.data.clone()));
            }
            i += 1;
        }
        Ok(None)
    }

    fn get_chunk_extra(&self, block_hash: &CryptoHash, shard_uid: &ShardUId) -> (r: Result<
        ChunkExtra,
        Error,
    >) {
        let mut i: usize = 0;
        while i < self.chunk_extras.len()
            invariant
                i <= self.chunk_extras.len(),
                extra_place(self.chunk_extras@, *block_hash, *shard_uid, 0) == extra_place(
                    self.chunk_extras@,
                    *block_hash,
                    *shard_uid,
                    i as int,
                ),
            decreases self.chunk_extras.len() - i,
        {
            let entry = &self.chunk_extras[i];
            if entry.block_hash == *block_hash && entry.shard_uid.version == shard_uid.version
                && entry.shard_uid.shard_id == shard_uid.shard_id {
                return Ok(entry.chunk_extra.clone());
            }
            i += 1;
        }
        Err(Error::DBNotFound(*block_hash))
    }

    fn get_chunk(&self, chunk_hash: &CryptoHash) -> (r: Result<ShardChunk, Error>) {
        let mut i: usize = 0;
        while i < self.chunks.len()
            invariant
                i <= self.chunks.len(),
                chunk_place(self.chunks@, *chunk_hash, 0) == chunk_place(
                    self.chunks@,
                    *chunk_hash,
                    i as int,
                ),
            decreases self.chunks.len() - i,
        {
            if self.chunks[i].header.chunk_hash == *chunk_hash {
                return Ok(self.chunks[i].clone());
            }
            i += 1;
        }
        Err(Error::DBNotFound(*chunk_hash))
    }
}

/// An epoch manager for a single epoch, with the same validators for every
/// chunk and one block producer per height from `first_height` on.
#[derive(Debug, PartialEq, Eq)]
pub struct MockEpochManager {
    pub epoch_id: EpochId,
    pub chunk_validation: bool,
    pub chunk_validators: Vec<AccountId>,
    pub first_height: BlockHeight,
    pub block_producers: Vec<AccountId>,
    pub shard_layout: ShardLayout,
}

/// Whether the list holds the account.
pub fn holds_account(accounts: &Vec<AccountId>, account: &AccountId) -> (found: bool)
    ensures
        found == accounts.deep_view().contains(account@),
{
    let mut i: usize = 0;
    while i < accounts.len()
        invariant
            i <= accounts.len(),
            forall|j: int| 0 <= j < i ==> accounts.deep_view()[j] != account@,
        decreases accounts.len() - i,
    {
        if accounts[i] == *account {
            assert(accounts.deep_view()[i as int] == account@);
            return true;
        }
        i += 1;
    }
    false
}

impl EpochManagerAdapter for MockEpochManager {
    open spec fn epoch_id_from_prev_block(&self, block_hash: CryptoHash) -> Result<EpochId, Error> {
        Ok(self.epoch_id)
    }

    open spec fn epoch_id(&self, block_hash: CryptoHash) -> Result<EpochId, Error> {
        Ok(self.epoch_id)
    }

    open spec fn chunk_validation_enabled(&self, epoch_id: EpochId) -> Result<bool, Error> {
        Ok(self.chunk_validation)
    }

    open spec fn chunk_validator_assignments(
        &self,
        epoch_id: EpochId,
        shard_id: ShardId,
        height: BlockHeight,
    ) -> Result<Seq<Seq<char>>, Error> {
        Ok(self.chunk_validators.deep_view())
    }

    open spec fn block_producer(&self, epoch_id: EpochId, height: BlockHeight) -> Result<
        Seq<char>,
        Error,
    > {
        if self.first_height <= height && height - self.first_height
            < self.block_producers@.len() {
            Ok(self.block_producers@[height - self.first_height]@)
        } else {
            Err(Error::EpochOutOfBounds)
        }
    }

    open spec fn shard_uid(&self, shard_id: ShardId, epoch_id: EpochId) -> Result<ShardUId, Error> {
        if shard_id <= u32::MAX {
            Ok(ShardUId { version: self.shard_layout.version, shard_id: shard_id as u32 })
        } else {
            Err(Error::InvalidShardId(shard_id))
        }
    }

    open spec fn shard_layout_from_prev_block(&self, block_hash: CryptoHash) -> Result<
        ShardLayout,
        Error,
    > {
        Ok(self.shard_layout)
    }

    open spec fn endorsement_verifies(
        &self,
        chunk_header: ShardChunkHeaderView,
        endorsement: ChunkEndorsementView,
    ) -> Result<bool, Error> {
        Ok(
            endorsement.chunk_hash == chunk_header.chunk_hash
                && self.chunk_validators.deep_view().contains(endorsement.account_id)
                && endorsement.signature == chunk_header.chunk_hash.0@,
        )
    }

    open spec fn apply_chunk_block_context(
        &self,
        header: BlockHeader,
        prev_header: BlockHeader,
        is_new_chunk: bool,
    ) -> Result<ApplyChunkBlockContext, Error> {
        Ok(
            ApplyChunkBlockContext {
                height: header.height,
                block_hash: header.hash,
                prev_block_hash: header.prev_hash,
                block_timestamp: header.timestamp,
                gas_price: prev_header.next_gas_price,
                random_seed: header.random_value,
            },
        )
    }

    fn get_epoch_id_from_prev_block(&self, block_hash: &CryptoHash) -> (r: Result<EpochId, Error>) {
        Ok(self.epoch_id)
    }

    fn get_epoch_id(&self, block_hash: &CryptoHash) -> (r: Result<EpochId, Error>) {
        Ok(self.epoch_id)
    }

    fn is_chunk_validation_enabled(&self, epoch_id: &EpochId) -> (r: Result<bool, Error>) {
        Ok(self.chunk_validation)
    }

    fn get_chunk_validator_assignments(
        &self,
        epoch_id: &EpochId,
        shard_id: ShardId,
        height: BlockHeight,
    ) -> (r: Result<Vec<AccountId>, Error>) {
        Ok(clone_accounts(&self.chunk_validators))
    }

    fn get_block_producer(&self, epoch_id: &EpochId, height: BlockHeight) -> (r: Result<
        AccountId,
        Error,
    >) {
        if self.first_height <= height && height - self.first_height
            < self.block_producers.len() as u64 {
            Ok(self.block_producers[(height - self.first_height) as usize].clone())
        } else {
            Err(Error::EpochOutOfBounds)
        }
    }

    fn shard_id_to_uid(&self, shard_id: ShardId, epoch_id: &EpochId) -> (r: Result<
        ShardUId,
        Error,
    >) {
        if shard_id <= u32::MAX as u64 {
            Ok(ShardUId { version: self.shard_layout.version, shard_id: shard_id as u32 })
        } else {
            Err(Error::InvalidShardId(shard_id))
        }
    }

    fn get_shard_layout_from_prev_block(&self, block_hash: &CryptoHash) -> (r: Result<
        ShardLayout,
        Error,
    >) {
        Ok(self.shard_layout)
    }

    fn verify_chunk_endorsement(
        &self,
        chunk_header: &ShardChunkHeader,
        endorsement: &ChunkEndorsement,
    ) -> (r: Result<bool, Error>) {
        if !(endorsement.chunk_hash == chunk_header.chunk_hash) {
            return Ok(false);
        }
        if !holds_account(&self.chunk_validators, &endorsement.account_id) {
            return Ok(false);
        }
        if endorsement.signature.len() != 32 {
            assert(endorsement.signature@.len() != chunk_header.chunk_hash.0@.len());
            return Ok(false);
        }
        let mut i: usize = 0;
        while i < 32
            invariant
                i <= 32,
                endorsement.signature.len() == 32,
                forall|j: int| 0 <= j < i ==> endorsement.signature@[j] == chunk_header.chunk_hash.0@[j],
            decreases 32 - i,
        {
            if endorsement.signature[i] != chunk_header.chunk_hash.0[i] {
                return Ok(false);
            }
            i += 1;
        }
        assert(endorsement.signature@ =~= chunk_header.chunk_hash.0@);
        Ok(true)
    }

    fn get_apply_chunk_block_context(
        &self,
        header: &BlockHeader,
        prev_header: &BlockHeader,
        is_new_chunk: bool,
    ) -> (r: Result<ApplyChunkBlockContext, Error>) {
        Ok(
            ApplyChunkBlockContext {
                height: header.height,
                block_hash: header.hash,
                prev_block_hash: header.prev_hash,
                block_timestamp: header.timestamp,
                gas_price: prev_header.next_gas_price,
                random_seed: header.random_value,
            },
        )
    }
}

/// What a scripted runtime returns for the block it is asked to apply.
#[derive(Debug, PartialEq, Eq)]
pub struct ScriptedResult {
    pub block_hash: CryptoHash,
    pub result: ApplyChunkResult,
}

/// A runtime that replays from a script: one result per block, whatever else
/// the request holds. It fails for a block that the script does not name.
#[derive(Debug, PartialEq, Eq)]
pub struct MockRuntime {
    pub script: Vec<ScriptedResult>,
}

/// The code with which the scripted runtime fails.
pub const NOT_IN_SCRIPT: u64 = 1;

/// The place of the first result for this block from `from` on, or -1.
pub open spec fn script_place(script: Seq<ScriptedResult>, block_hash: CryptoHash, from: int) -> int
    decreases script.len() - from,
{
    if from < 0 || from >= script.len() {
        -1
    } else if script[from].block_hash == block_hash {
        from
    } else {
        script_place(script, block_hash, from + 1)
    }
}

impl MockRuntime {
    /// What the script says for a block.
    pub open spec fn scripted(&self, block_hash: CryptoHash) -> Result<ApplyChunkResultView, Error> {
        let at = script_place(self.script@, block_hash, 0);
        if at >= 0 {
            Ok(self.script@[at].result.deep_view())
        } else {
            Err(Error::Other(Failure::Collaborator { code: NOT_IN_SCRIPT }))
        }
    }

    fn replay(&self, block_hash: &CryptoHash) -> (r: Result<ApplyChunkResult, Error>)
        ensures
            result_view(r) == self.scripted(*block_hash),
    {
        let mut i: usize = 0;
        while i < self.script.len()
            invariant
                i <= self.script.len(),
                script_place(self.script@, *block_hash, 0) == script_place(
                    self.script@,
                    *block_hash,
                    i as int,
                ),
            decreases self.script.len() - i,
        {
            if self.script[i].block_hash == *block_hash {
                return Ok(self.script[i].result.clone());
            }
            i += 1;
        }
        Err(Error::Other(Failure::Collaborator { code: NOT_IN_SCRIPT }))
    }
}

impl RuntimeAdapter for MockRuntime {
    open spec fn new_chunk_result(&self, data: NewChunkDataView, shard_context: ShardContext) -> Result<
        ApplyChunkResultView,
        Error,
    > {
        self.scripted(data.block.block_hash)
    }

    open spec fn old_chunk_result(&self, data: OldChunkDataView, shard_context: ShardContext) -> Result<
        ApplyChunkResultView,
        Error,
    > {
        self.scripted(data.block.block_hash)
    }

    fn apply_new_chunk(&self, data: NewChunkData, shard_context: ShardContext) -> (r: Result<
        ApplyChunkResult,
        Error,
    >) {
        self.replay(&data.block.block_hash)
    }

    fn apply_old_chunk(&self, data: OldChunkData, shard_context: ShardContext) -> (r: Result<
        ApplyChunkResult,
        Error,
    >) {
        self.replay(&data.block.block_hash)
    }
}

/// A signer whose signature of a chunk hash is the hash itself.
#[derive(Debug, PartialEq, Eq)]
pub struct MockSigner {
    pub account_id: AccountId,
}

impl ValidatorSigner for MockSigner {
    open spec fn account(&self) -> Seq<char> {
        self.account_id@
    }

    open spec fn endorsement_signature(&self, chunk_hash: CryptoHash) -> Seq<u8> {
        chunk_hash.0@
    }

    fn validator_id(&self) -> (id: &AccountId) {
        &self.account_id
    }

    fn sign_chunk_endorsement(&self, chunk_hash: &CryptoHash) -> (signature: Vec<u8>) {
        let mut signature: Vec<u8> = Vec::new();
        let mut i: usize = 0;
        while i < 32
            invariant
                i <= 32,
                signature@ == chunk_hash.0@.take(i as int),
            decreases 32 - i,
        {
            signature.push(chunk_hash.0[i]);
            assert(signature@ =~= chunk_hash.0@.take(i + 1));
            i += 1;
        }
        assert(signature@ =~= chunk_hash.0@);
        signature
    }
}

/// The digest with these 32 bytes.
pub open spec fn hash_with_bytes(bytes: Seq<u8>) -> CryptoHash {
    CryptoHash(choose|array: [u8; 32]| array@ == bytes)
}

/// The bytes of a digest after one more digest was taken in.
pub open spec fn mixed(bytes: Seq<u8>, id: CryptoHash) -> Seq<u8> {
    Seq::new(32, |i: int| ((bytes[i] * 3 + id.0@[i] + 1) % 256) as u8)
}

/// The bytes of the digest of `ids` under `tag`: all bytes start as the tag,
/// and each id is taken in in turn.
pub open spec fn digest_bytes(tag: u8, ids: Seq<CryptoHash>) -> Seq<u8>
    decreases ids.len(),
{
    if ids.len() == 0 {
        Seq::new(32, |i: int| tag)
    } else {
        mixed(digest_bytes(tag, ids.drop_last()), ids.last())
    }
}

/// The digest of `ids` under `tag`. It depends on every id, on their order
/// and on their number, and is no commitment in any cryptographic sense.
pub open spec fn digest(tag: u8, ids: Seq<CryptoHash>) -> CryptoHash {
    hash_with_bytes(digest_bytes(tag, ids))
}

/// The ids of the items.
pub open spec fn ids_of(items: Seq<EncodedView>) -> Seq<CryptoHash> {
    Seq::new(items.len(), |i: int| items[i].id)
}

/// Computes the digest of `ids` under `tag`.
pub fn compute_digest(tag: u8, ids: &Vec<CryptoHash>) -> (h: CryptoHash)
    ensures
        h == digest(tag, ids@),
{
    let mut bytes: [u8; 32] = [tag;32];
    assert(bytes@ =~= digest_bytes(tag, ids@.take(0))) by {
        assert(ids@.take(0) =~= Seq::<CryptoHash>::empty());
    }
    let mut n: usize = 0;
    while n < ids.len()
        invariant
            n <= ids.len(),
            bytes@ == digest_bytes(tag, ids@.take(n as int)),
        decreases ids.len() - n,
    {
        let id = ids[n];
        let ghost before = bytes@;
        let mut i: usize = 0;
        while i < 32
            invariant
                i <= 32,
                before.len() == 32,
                forall|j: int| 0 <= j < i ==> bytes@[j] == mixed(before, id)[j],
                forall|j: int| i <= j < 32 ==> bytes@[j] == before[j],
            decreases 32 - i,
        {
            let byte: u16 = (bytes[i] as u16 * 3 + id.0[i] as u16 + 1) % 256;
            bytes[i] = byte as u8;
            i += 1;
        }
        proof {
            let done = ids@.take(n + 1);
            assert(done.drop_last() =~= ids@.take(n as int));
            assert(done.last() == id);
            assert(bytes@ =~= mixed(before, id));
        }
        n += 1;
    }
    assert(ids@.take(ids.len() as int) =~= ids@);
    proof {
        let chosen = choose|array: [u8; 32]| array@ == bytes@;
        assert(chosen@ == bytes@);
        assert(chosen =~= bytes);
    }
    CryptoHash(bytes)
}

/// The ids of the items.
pub fn collect_ids(items: &Vec<Encoded>) -> (ids: Vec<CryptoHash>)
    ensures
        ids@ == ids_of(items.deep_view()),
{
    let mut ids: Vec<CryptoHash> = Vec::new();
    let mut i: usize = 0;
    while i < items.len()
        invariant
            i <= items.len(),
            ids@ == ids_of(items.deep_view()).take(i as int),
        decreases items.len() - i,
    {
        ids.push(items[i].id);
        assert(ids@ =~= ids_of(items.deep_view()).take(i + 1));
        i += 1;
    }
    assert(ids@ =~= ids_of(items.deep_view()));
    ids
}

/// Digests that stand in for hashes and Merkle roots.
#[derive(Debug, Clone, Copy, PartialEq, Eq)]
pub struct MockCommitments {}

impl Commitments for MockCommitments {
    open spec fn receipts_hash(&self, receipts: Seq<EncodedView>) -> CryptoHash {
        digest(1, ids_of(receipts))
    }

    open spec fn merkle_root(&self, items: Seq<EncodedView>) -> CryptoHash {
        digest(2, ids_of(items))
    }

    open spec fn receipts_hashes(&self, receipts: Seq<EncodedView>, layout: ShardLayout) -> Seq<
        CryptoHash,
    > {
        seq![digest(3, ids_of(receipts))]
    }

    open spec fn hashes_root(&self, hashes: Seq<CryptoHash>) -> CryptoHash {
        digest(4, hashes)
    }

    fn hash_receipts(&self, receipts: &Vec<Receipt>) -> (h: CryptoHash) {
        compute_digest(1, &collect_ids(receipts))
    }

    fn merklize(&self, items: &Vec<Encoded>) -> (root: CryptoHash) {
        compute_digest(2, &collect_ids(items))
    }

    fn build_receipts_hashes(&self, receipts: &Vec<Receipt>, layout: &ShardLayout) -> (hashes: Vec<
        CryptoHash,
    >) {
        let mut hashes: Vec<CryptoHash> = Vec::new();
        hashes.push(compute_digest(3, &collect_ids(receipts)));
        assert(hashes@ =~= seq![digest(3, ids_of(receipts.deep_view()))]);
        hashes
    }

    fn merklize_hashes(&self, hashes: &Vec<CryptoHash>) -> (root: CryptoHash) {
        compute_digest(4, hashes)
    }
}

impl Clone for MockSigner {
    fn clone(&self) -> (copy: MockSigner)
        ensures
            copy.account_id@ == self.account_id@,
    {
        MockSigner { account_id: self.account_id.clone() }
    }
}

impl Clone for MockEpochManager {
    fn clone(&self) -> (copy: MockEpochManager)
        ensures
            copy.epoch_id == self.epoch_id,
            copy.chunk_validation == self.chunk_validation,
            copy.chunk_validators.deep_view() == self.chunk_validators.deep_view(),
            copy.first_height == self.first_height,
            copy.block_producers.deep_view() == self.block_producers.deep_view(),
            copy.shard_layout == self.shard_layout,
    {
        MockEpochManager {
            epoch_id: self.epoch_id,
            chunk_validation: self.chunk_validation,
            chunk_validators: clone_accounts(&self.chunk_validators),
            first_height: self.first_height,
            block_producers: clone_accounts(&self.block_producers),
            shard_layout: self.shard_layout,
        }
    }
}

impl Clone for MockRuntime {
    fn clone(&self) -> (copy: MockRuntime)
        ensures
            copy.script@.len() == self.script@.len(),
            forall|i: int|
                0 <= i < self.script@.len() ==> (#[trigger] copy.script@[i]).block_hash
                    == self.script@[i].block_hash && copy.script@[i].result.deep_view()
                    == self.script@[i].result.deep_view(),
    {
        let mut script: Vec<ScriptedResult> = Vec::new();
        let mut i: usize = 0;
        while i < self.script.len()
            invariant
                i <= self.script.len(),
                script.len() == i,
                forall|j: int|
                    0 <= j < i ==> (#[trigger] script@[j]).block_hash == self.script@[j].block_hash
                        && script@[j].result.deep_view() == self.script@[j].result.deep_view(),
            decreases self.script.len() - i,
        {
            script.push(
                ScriptedResult {
                    block_hash: self.script[i].block_hash,
                    result: self.script[i].result.clone(),
                },
            );
            i += 1;
        }
        MockRuntime { script }
    }
}

} // verus!
