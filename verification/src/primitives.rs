//! The chain data that validation reads: headers, blocks, receipts,
//! transactions, and the state witness itself. Every type that owns heap data
//! has a deep view, and the contracts of this crate speak of those views.

use vstd::prelude::*;
use crate::hash::CryptoHash;

verus! {

pub type AccountId = String;

pub type ShardId = u64;

pub type BlockHeight = u64;

pub type Gas = u64;

pub type Balance = u128;

/// Names an epoch: the span of blocks with one validator assignment.
#[derive(Clone, Copy, Debug, PartialEq, Eq)]
pub struct EpochId(pub CryptoHash);

/// Storage-level name of a shard under one version of the shard layout.
#[derive(Clone, Copy, Debug, PartialEq, Eq)]
pub struct ShardUId {
    pub version: u32,
    pub shard_id: u32,
}

/// The versioned split of accounts into shards.
#[derive(Clone, Copy, Debug, PartialEq, Eq)]
pub struct ShardLayout {
    pub version: u32,
    pub num_shards: u64,
}

/// What validation reads of a block header.
#[derive(Clone, Copy, Debug, PartialEq, Eq)]
pub struct BlockHeader {
    pub hash: CryptoHash,
    pub prev_hash: CryptoHash,
    pub height: BlockHeight,
    pub epoch_id: EpochId,
    pub timestamp: u64,
    pub next_gas_price: Balance,
    pub random_value: CryptoHash,
}

impl DeepView for BlockHeader {
    type V = BlockHeader;

    open spec fn deep_view(&self) -> BlockHeader {
        *self
    }
}

/// The block-level inputs of one chunk application.
#[derive(Clone, Copy, Debug, PartialEq, Eq)]
pub struct ApplyChunkBlockContext {
    pub height: BlockHeight,
    pub block_hash: CryptoHash,
    pub prev_block_hash: CryptoHash,
    pub block_timestamp: u64,
    pub gas_price: Balance,
    pub random_seed: CryptoHash,
}

impl DeepView for ApplyChunkBlockContext {
    type V = ApplyChunkBlockContext;

    open spec fn deep_view(&self) -> ApplyChunkBlockContext {
        *self
    }
}

/// How a shard takes part in the application of a chunk.
#[derive(Clone, Copy, Debug, PartialEq, Eq)]
pub struct ShardContext {
    pub shard_uid: ShardUId,
    pub cares_about_shard_this_epoch: bool,
    pub will_shard_layout_change: bool,
    pub should_apply_chunk: bool,
    pub need_to_reshard: bool,
}

/// Copies a byte string.
pub fn clone_bytes(bytes: &Vec<u8>) -> (copy: Vec<u8>)
    ensures
        copy@ == bytes@,
{
    let mut copy: Vec<u8> = Vec::new();
    let mut i: usize = 0;
    while i < bytes.len()
        invariant
            i <= bytes.len(),
            copy@ == bytes@.take(i as int),
        decreases bytes.len() - i,
    {
        copy.push(bytes[i]);
        assert(copy@ =~= bytes@.take(i + 1));
        i += 1;
    }
    assert(copy@ =~= bytes@);
    copy
}

/// A stake that a validator proposes for a coming epoch.
#[derive(Debug, PartialEq, Eq)]
pub struct ValidatorStake {
    pub account_id: AccountId,
    pub stake: Balance,
}

pub struct ValidatorStakeView {
    pub account_id: Seq<char>,
    pub stake: Balance,
}

impl DeepView for ValidatorStake {
    type V = ValidatorStakeView;

    open spec fn deep_view(&self) -> ValidatorStakeView {
        ValidatorStakeView { account_id: self.account_id@, stake: self.stake }
    }
}

impl Clone for ValidatorStake {
    fn clone(&self) -> (copy: ValidatorStake)
        ensures
            copy.deep_view() == self.deep_view(),
    {
        ValidatorStake { account_id: self.account_id.clone(), stake: self.stake }
    }
}

impl ValidatorStake {
    /// Whether two stakes name the same account with the same amount.
    pub fn matches(&self, other: &ValidatorStake) -> (same: bool)
        ensures
            same == (self.deep_view() == other.deep_view()),
    {
        self.account_id == other.account_id && self.stake == other.stake
    }
}

/// Copies a list of validator proposals.
pub fn clone_proposals(proposals: &Vec<ValidatorStake>) -> (copy: Vec<ValidatorStake>)
    ensures
        copy.deep_view() == proposals.deep_view(),
{
    let mut copy: Vec<ValidatorStake> = Vec::new();
    let mut i: usize = 0;
    while i < proposals.len()
        invariant
            i <= proposals.len(),
            copy.len() == i,
            forall|j: int| 0 <= j < i ==> copy@[j].deep_view() == proposals@[j].deep_view(),
        decreases proposals.len() - i,
    {
        copy.push(proposals[i].clone());
        i += 1;
    }
    assert(copy.deep_view() =~= proposals.deep_view());
    copy
}

/// Whether two lists of validator proposals agree entry by entry.
pub fn proposals_match(left: &Vec<ValidatorStake>, right: &Vec<ValidatorStake>) -> (same: bool)
    ensures
        same == (left.deep_view() == right.deep_view()),
{
    if left.len() != right.len() {
        assert(left.deep_view().len() != right.deep_view().len());
        return false;
    }
    let mut i: usize = 0;
    while i < left.len()
        invariant
            i <= left.len(),
            left.len() == right.len(),
            forall|j: int| 0 <= j < i ==> left.deep_view()[j] == right.deep_view()[j],
        decreases left.len() - i,
    {
        if !left[i].matches(&right[i]) {
            assert(left.deep_view()[i as int] != right.deep_view()[i as int]);
            return false;
        }
        i += 1;
    }
    assert(left.deep_view() =~= right.deep_view());
    true
}

/// What validation reads of the header of one shard's chunk.
#[derive(Debug, PartialEq, Eq)]
pub struct ShardChunkHeader {
    pub chunk_hash: CryptoHash,
    pub prev_block_hash: CryptoHash,
    pub shard_id: ShardId,
    pub height_created: BlockHeight,
    pub height_included: BlockHeight,
    pub prev_state_root: CryptoHash,
    pub prev_outcome_root: CryptoHash,
    pub tx_root: CryptoHash,
    pub prev_outgoing_receipts_root: CryptoHash,
    pub prev_gas_used: Gas,
    pub gas_limit: Gas,
    pub prev_balance_burnt: Balance,
    pub prev_validator_proposals: Vec<ValidatorStake>,
}

pub struct ShardChunkHeaderView {
    pub chunk_hash: CryptoHash,
    pub prev_block_hash: CryptoHash,
    pub shard_id: ShardId,
    pub height_created: BlockHeight,
    pub height_included: BlockHeight,
    pub prev_state_root: CryptoHash,
    pub prev_outcome_root: CryptoHash,
    pub tx_root: CryptoHash,
    pub prev_outgoing_receipts_root: CryptoHash,
    pub prev_gas_used: Gas,
    pub gas_limit: Gas,
    pub prev_balance_burnt: Balance,
    pub prev_validator_proposals: Seq<ValidatorStakeView>,
}

impl ShardChunkHeaderView {
    /// A chunk is new at the height of the block that first included it; at any
    /// other height the block carries the shard's previous chunk again.
    pub open spec fn is_new_chunk(self, block_height: BlockHeight) -> bool {
        self.height_included == block_height
    }
}

impl DeepView for ShardChunkHeader {
    type V = ShardChunkHeaderView;

    open spec fn deep_view(&self) -> ShardChunkHeaderView {
        ShardChunkHeaderView {
            chunk_hash: self.chunk_hash,
            prev_block_hash: self.prev_block_hash,
            shard_id: self.shard_id,
            height_created: self.height_created,
            height_included: self.height_included,
            prev_state_root: self.prev_state_root,
            prev_outcome_root: self.prev_outcome_root,
            tx_root: self.tx_root,
            prev_outgoing_receipts_root: self.prev_outgoing_receipts_root,
            prev_gas_used: self.prev_gas_used,
            gas_limit: self.gas_limit,
            prev_balance_burnt: self.prev_balance_burnt,
            prev_validator_proposals: self.prev_validator_proposals.deep_view(),
        }
    }
}

impl Clone for ShardChunkHeader {
    fn clone(&self) -> (copy: ShardChunkHeader)
        ensures
            copy.deep_view() == self.deep_view(),
    {
        ShardChunkHeader {
            chunk_hash: self.chunk_hash,
            prev_block_hash: self.prev_block_hash,
            shard_id: self.shard_id,
            height_created: self.height_created,
            height_included: self.height_included,
            prev_state_root: self.prev_state_root,
            prev_outcome_root: self.prev_outcome_root,
            tx_root: self.tx_root,
            prev_outgoing_receipts_root: self.prev_outgoing_receipts_root,
            prev_gas_used: self.prev_gas_used,
            gas_limit: self.gas_limit,
            prev_balance_burnt: self.prev_balance_burnt,
            prev_validator_proposals: clone_proposals(&self.prev_validator_proposals),
        }
    }
}

impl ShardChunkHeader {
    pub fn chunk_hash(&self) -> (h: CryptoHash)
        ensures
            h == self.chunk_hash,
    {
        self.chunk_hash
    }

    pub fn prev_block_hash(&self) -> (h: CryptoHash)
        ensures
            h == self.prev_block_hash,
    {
        self.prev_block_hash
    }

    pub fn shard_id(&self) -> (s: ShardId)
        ensures
            s == self.shard_id,
    {
        self.shard_id
    }

    pub fn height_created(&self) -> (h: BlockHeight)
        ensures
            h == self.height_created,
    {
        self.height_created
    }

    pub fn height_included(&self) -> (h: BlockHeight)
        ensures
            h == self.height_included,
    {
        self.height_included
    }

    pub fn tx_root(&self) -> (h: CryptoHash)
        ensures
            h == self.tx_root,
    {
        self.tx_root
    }

    pub fn gas_limit(&self) -> (g: Gas)
        ensures
            g == self.gas_limit,
    {
        self.gas_limit
    }

    /// Whether the chunk was first included at `block_height`.
    pub fn is_new_chunk(&self, block_height: BlockHeight) -> (new: bool)
        ensures
            new == self.deep_view().is_new_chunk(block_height),
    {
        self.height_included == block_height
    }
}

/// A block: its header and one chunk header per shard, indexed by shard.
#[derive(Debug, PartialEq, Eq)]
pub struct Block {
    pub header: BlockHeader,
    pub chunks: Vec<ShardChunkHeader>,
}

pub struct BlockView {
    pub header: BlockHeader,
    pub chunks: Seq<ShardChunkHeaderView>,
}

impl DeepView for Block {
    type V = BlockView;

    open spec fn deep_view(&self) -> BlockView {
        BlockView { header: self.header, chunks: self.chunks.deep_view() }
    }
}

impl Clone for Block {
    fn clone(&self) -> (copy: Block)
        ensures
            copy.deep_view() == self.deep_view(),
    {
        let mut chunks: Vec<ShardChunkHeader> = Vec::new();
        let mut i: usize = 0;
        while i < self.chunks.len()
            invariant
                i <= self.chunks.len(),
                chunks.len() == i,
            forall|j: int| 0 <= j < i ==> chunks@[j].deep_view() == self.chunks@[j].deep_view(),
            decreases self.chunks.len() - i,
        {
            chunks.push(self.chunks[i].clone());
                i += 1;
        }
        assert(chunks.deep_view() =~= self.chunks.deep_view());
        Block { header: self.header, chunks }
    }
}

impl Block {
    pub fn header(&self) -> (h: &BlockHeader)
        ensures
            *h == self.header,
    {
        &self.header
    }

    pub fn chunks(&self) -> (c: &Vec<ShardChunkHeader>)
        ensures
            *c == self.chunks,
    {
        &self.chunks
    }
}

/// A receipt, a signed transaction or an execution outcome: its identifying
/// digest and its canonical encoding. Validation never looks inside.
#[derive(Debug, PartialEq, Eq)]
pub struct Encoded {
    pub id: CryptoHash,
    pub data: Vec<u8>,
}

pub struct EncodedView {
    pub id: CryptoHash,
    pub data: Seq<u8>,
}

impl DeepView for Encoded {
    type V = EncodedView;

    open spec fn deep_view(&self) -> EncodedView {
        EncodedView { id: self.id, data: self.data@ }
    }
}

impl Clone for Encoded {
    fn clone(&self) -> (copy: Encoded)
        ensures
            copy.deep_view() == self.deep_view(),
    {
        Encoded { id: self.id, data: clone_bytes(&self.data) }
    }
}

pub type Receipt = Encoded;

pub type SignedTransaction = Encoded;

pub type ExecutionOutcome = Encoded;

/// Copies a list of receipts, transactions or outcomes.
pub fn clone_encoded(items: &Vec<Encoded>) -> (copy: Vec<Encoded>)
    ensures
        copy.deep_view() == items.deep_view(),
{
    let mut copy: Vec<Encoded> = Vec::new();
    let mut i: usize = 0;
    while i < items.len()
        invariant
            i <= items.len(),
            copy.len() == i,
            forall|j: int| 0 <= j < i ==> copy@[j].deep_view() == items@[j].deep_view(),
        decreases items.len() - i,
    {
        copy.push(items[i].clone());
        i += 1;
    }
    assert(copy.deep_view() =~= items.deep_view());
    copy
}

/// The trie nodes that a replay may touch: a proof of the state before it.
#[derive(Debug, PartialEq, Eq)]
pub struct PartialState {
    pub nodes: Vec<Vec<u8>>,
}

impl DeepView for PartialState {
    type V = Seq<Seq<u8>>;

    open spec fn deep_view(&self) -> Seq<Seq<u8>> {
        self.nodes.deep_view()
    }
}

impl Clone for PartialState {
    fn clone(&self) -> (copy: PartialState)
        ensures
            copy.deep_view() == self.deep_view(),
    {
        let mut nodes: Vec<Vec<u8>> = Vec::new();
        let mut i: usize = 0;
        while i < self.nodes.len()
            invariant
                i <= self.nodes.len(),
                nodes.len() == i,
            forall|j: int| 0 <= j < i ==> nodes@[j].deep_view() == self.nodes@[j].deep_view(),
            decreases self.nodes.len() - i,
        {
            nodes.push(clone_bytes(&self.nodes[i]));
                i += 1;
        }
        assert(nodes.deep_view() =~= self.nodes.deep_view());
        PartialState { nodes }
    }
}

impl Default for PartialState {
    fn default() -> (state: PartialState)
        ensures
            state.deep_view() == Seq::<Seq<u8>>::empty(),
    {
        let state = PartialState { nodes: Vec::new() };
        assert(state.deep_view() =~= Seq::<Seq<u8>>::empty());
        state
    }
}

/// The receipts that one chunk sent to one shard, with the proof that they are
/// part of that chunk's outgoing receipts.
#[derive(Debug, PartialEq, Eq)]
pub struct ReceiptProof {
    pub receipts: Vec<Receipt>,
    pub from_shard_id: ShardId,
    pub to_shard_id: ShardId,
    pub proof: Vec<CryptoHash>,
}

pub struct ReceiptProofView {
    pub receipts: Seq<EncodedView>,
    pub from_shard_id: ShardId,
    pub to_shard_id: ShardId,
    pub proof: Seq<CryptoHash>,
}

impl DeepView for ReceiptProof {
    type V = ReceiptProofView;

    open spec fn deep_view(&self) -> ReceiptProofView {
        ReceiptProofView {
            receipts: self.receipts.deep_view(),
            from_shard_id: self.from_shard_id,
            to_shard_id: self.to_shard_id,
            proof: self.proof@,
        }
    }
}

impl Clone for ReceiptProof {
    fn clone(&self) -> (copy: ReceiptProof)
        ensures
            copy.deep_view() == self.deep_view(),
    {
        let mut proof: Vec<CryptoHash> = Vec::new();
        let mut i: usize = 0;
        while i < self.proof.len()
            invariant
                i <= self.proof.len(),
                proof@ == self.proof@.take(i as int),
            decreases self.proof.len() - i,
        {
            proof.push(self.proof[i]);
            assert(proof@ =~= self.proof@.take(i + 1));
            i += 1;
        }
        assert(proof@ =~= self.proof@);
        ReceiptProof {
            receipts: clone_encoded(&self.receipts),
            from_shard_id: self.from_shard_id,
            to_shard_id: self.to_shard_id,
            proof,
        }
    }
}

/// The receipt proofs that the chunks of one block sent to a shard.
#[derive(Debug, PartialEq, Eq)]
pub struct ReceiptProofResponse {
    pub block_hash: CryptoHash,
    pub proofs: Vec<ReceiptProof>,
}

pub struct ReceiptProofResponseView {
    pub block_hash: CryptoHash,
    pub proofs: Seq<ReceiptProofView>,
}

impl DeepView for ReceiptProofResponse {
    type V = ReceiptProofResponseView;

    open spec fn deep_view(&self) -> ReceiptProofResponseView {
        ReceiptProofResponseView { block_hash: self.block_hash, proofs: self.proofs.deep_view() }
    }
}

/// One shard's state change across one block.
#[derive(Debug, PartialEq, Eq)]
pub struct ChunkStateTransition {
    pub block_hash: CryptoHash,
    pub base_state: PartialState,
    pub post_state_root: CryptoHash,
}

pub struct ChunkStateTransitionView {
    pub block_hash: CryptoHash,
    pub base_state: Seq<Seq<u8>>,
    pub post_state_root: CryptoHash,
}

impl DeepView for ChunkStateTransition {
    type V = ChunkStateTransitionView;

    open spec fn deep_view(&self) -> ChunkStateTransitionView {
        ChunkStateTransitionView {
            block_hash: self.block_hash,
            base_state: self.base_state.deep_view(),
            post_state_root: self.post_state_root,
        }
    }
}

/// The state proof and receipts hash that a chunk producer recorded while it
/// applied a chunk.
#[derive(Debug, PartialEq, Eq)]
pub struct StoredChunkStateTransitionData {
    pub base_state: PartialState,
    pub receipts_hash: CryptoHash,
}

pub struct StoredChunkStateTransitionDataView {
    pub base_state: Seq<Seq<u8>>,
    pub receipts_hash: CryptoHash,
}

impl DeepView for StoredChunkStateTransitionData {
    type V = StoredChunkStateTransitionDataView;

    open spec fn deep_view(&self) -> StoredChunkStateTransitionDataView {
        StoredChunkStateTransitionDataView {
            base_state: self.base_state.deep_view(),
            receipts_hash: self.receipts_hash,
        }
    }
}

/// A receipt proof filed under the chunk that sent it.
#[derive(Debug, PartialEq, Eq)]
pub struct SourceReceiptProof {
    pub chunk_hash: CryptoHash,
    pub proof: ReceiptProof,
}

pub struct SourceReceiptProofView {
    pub chunk_hash: CryptoHash,
    pub proof: ReceiptProofView,
}

impl DeepView for SourceReceiptProof {
    type V = SourceReceiptProofView;

    open spec fn deep_view(&self) -> SourceReceiptProofView {
        SourceReceiptProofView { chunk_hash: self.chunk_hash, proof: self.proof.deep_view() }
    }
}

/// What a chunk producer broadcasts to prove that it executed a chunk
/// correctly.
#[derive(Debug, PartialEq, Eq)]
pub struct ChunkStateWitness {
    pub chunk_header: ShardChunkHeader,
    pub main_state_transition: ChunkStateTransition,
    /// At most one proof per source chunk.
    pub source_receipt_proofs: Vec<SourceReceiptProof>,
    pub transactions: Vec<SignedTransaction>,
    pub applied_receipts_hash: CryptoHash,
    /// Oldest first.
    pub implicit_transitions: Vec<ChunkStateTransition>,
    pub new_transactions: Vec<SignedTransaction>,
    pub new_transactions_validation_state: PartialState,
}

pub struct ChunkStateWitnessView {
    pub chunk_header: ShardChunkHeaderView,
    pub main_state_transition: ChunkStateTransitionView,
    pub source_receipt_proofs: Seq<SourceReceiptProofView>,
    pub transactions: Seq<EncodedView>,
    pub applied_receipts_hash: CryptoHash,
    pub implicit_transitions: Seq<ChunkStateTransitionView>,
    pub new_transactions: Seq<EncodedView>,
    pub new_transactions_validation_state: Seq<Seq<u8>>,
}

impl DeepView for ChunkStateWitness {
    type V = ChunkStateWitnessView;

    open spec fn deep_view(&self) -> ChunkStateWitnessView {
        ChunkStateWitnessView {
            chunk_header: self.chunk_header.deep_view(),
            main_state_transition: self.main_state_transition.deep_view(),
            source_receipt_proofs: self.source_receipt_proofs.deep_view(),
            transactions: self.transactions.deep_view(),
            applied_receipts_hash: self.applied_receipts_hash,
            implicit_transitions: self.implicit_transitions.deep_view(),
            new_transactions: self.new_transactions.deep_view(),
            new_transactions_validation_state: self.new_transactions_validation_state.deep_view(),
        }
    }
}

/// One validator's signed statement that a chunk's witness validated.
#[derive(Debug, PartialEq, Eq)]
pub struct ChunkEndorsement {
    pub chunk_hash: CryptoHash,
    pub account_id: AccountId,
    pub signature: Vec<u8>,
}

pub struct ChunkEndorsementView {
    pub chunk_hash: CryptoHash,
    pub account_id: Seq<char>,
    pub signature: Seq<u8>,
}

impl DeepView for ChunkEndorsement {
    type V = ChunkEndorsementView;

    open spec fn deep_view(&self) -> ChunkEndorsementView {
        ChunkEndorsementView {
            chunk_hash: self.chunk_hash,
            account_id: self.account_id@,
            signature: self.signature@,
        }
    }
}

impl Clone for ChunkEndorsement {
    fn clone(&self) -> (copy: ChunkEndorsement)
        ensures
            copy.deep_view() == self.deep_view(),
    {
        ChunkEndorsement {
            chunk_hash: self.chunk_hash,
            account_id: self.account_id.clone(),
            signature: clone_bytes(&self.signature),
        }
    }
}

impl ChunkEndorsement {
    pub fn chunk_hash(&self) -> (h: &CryptoHash)
        ensures
            *h == self.chunk_hash,
    {
        &self.chunk_hash
    }
}

/// What the application of a chunk leaves behind for the next one.
#[derive(Debug, PartialEq, Eq)]
pub struct ChunkExtra {
    pub state_root: CryptoHash,
    pub outcome_root: CryptoHash,
    pub validator_proposals: Vec<ValidatorStake>,
    pub gas_used: Gas,
    pub gas_limit: Gas,
    pub balance_burnt: Balance,
}

pub struct ChunkExtraView {
    pub state_root: CryptoHash,
    pub outcome_root: CryptoHash,
    pub validator_proposals: Seq<ValidatorStakeView>,
    pub gas_used: Gas,
    pub gas_limit: Gas,
    pub balance_burnt: Balance,
}

impl DeepView for ChunkExtra {
    type V = ChunkExtraView;

    open spec fn deep_view(&self) -> ChunkExtraView {
        ChunkExtraView {
            state_root: self.state_root,
            outcome_root: self.outcome_root,
            validator_proposals: self.validator_proposals.deep_view(),
            gas_used: self.gas_used,
            gas_limit: self.gas_limit,
            balance_burnt: self.balance_burnt,
        }
    }
}

impl Clone for ChunkExtra {
    fn clone(&self) -> (copy: ChunkExtra)
        ensures
            copy.deep_view() == self.deep_view(),
    {
        ChunkExtra {
            state_root: self.state_root,
            outcome_root: self.outcome_root,
            validator_proposals: clone_proposals(&self.validator_proposals),
            gas_used: self.gas_used,
            gas_limit: self.gas_limit,
            balance_burnt: self.balance_burnt,
        }
    }
}

impl ChunkExtra {
    pub fn new(
        state_root: &CryptoHash,
        outcome_root: CryptoHash,
        validator_proposals: Vec<ValidatorStake>,
        gas_used: Gas,
        gas_limit: Gas,
        balance_burnt: Balance,
    ) -> (extra: ChunkExtra)
        ensures
            extra == (ChunkExtra {
                state_root: *state_root,
                outcome_root,
                validator_proposals,
                gas_used,
                gas_limit,
                balance_burnt,
            }),
    {
        ChunkExtra {
            state_root: *state_root,
            outcome_root,
            validator_proposals,
            gas_used,
            gas_limit,
            balance_burnt,
        }
    }

    pub fn state_root(&self) -> (root: &CryptoHash)
        ensures
            *root == self.state_root,
    {
        &self.state_root
    }
}

/// What a replay of one chunk application returns.
#[derive(Debug, PartialEq, Eq)]
pub struct ApplyChunkResult {
    pub new_root: CryptoHash,
    pub outgoing_receipts: Vec<Receipt>,
    pub outcomes: Vec<ExecutionOutcome>,
    pub validator_proposals: Vec<ValidatorStake>,
    pub total_gas_burnt: Gas,
    pub total_balance_burnt: Balance,
}

pub struct ApplyChunkResultView {
    pub new_root: CryptoHash,
    pub outgoing_receipts: Seq<EncodedView>,
    pub outcomes: Seq<EncodedView>,
    pub validator_proposals: Seq<ValidatorStakeView>,
    pub total_gas_burnt: Gas,
    pub total_balance_burnt: Balance,
}

impl DeepView for ApplyChunkResult {
    type V = ApplyChunkResultView;

    open spec fn deep_view(&self) -> ApplyChunkResultView {
        ApplyChunkResultView {
            new_root: self.new_root,
            outgoing_receipts: self.outgoing_receipts.deep_view(),
            outcomes: self.outcomes.deep_view(),
            validator_proposals: self.validator_proposals.deep_view(),
            total_gas_burnt: self.total_gas_burnt,
            total_balance_burnt: self.total_balance_burnt,
        }
    }
}

/// Where a chunk application reads the state from.
#[derive(Debug, PartialEq, Eq)]
pub enum StorageDataSource {
    /// The node's own full state.
    Db,
    /// Only the recorded trie nodes.
    Recorded(PartialState),
}

pub enum StorageDataSourceView {
    Db,
    Recorded(Seq<Seq<u8>>),
}

impl DeepView for StorageDataSource {
    type V = StorageDataSourceView;

    open spec fn deep_view(&self) -> StorageDataSourceView {
        match self {
            StorageDataSource::Db => StorageDataSourceView::Db,
            StorageDataSource::Recorded(state) => StorageDataSourceView::Recorded(
                state.deep_view(),
            ),
        }
    }
}

/// The storage side of one chunk application.
#[derive(Debug, PartialEq, Eq)]
pub struct StorageContext {
    pub storage_data_source: StorageDataSource,
    pub record_storage: bool,
}

pub struct StorageContextView {
    pub storage_data_source: StorageDataSourceView,
    pub record_storage: bool,
}

impl DeepView for StorageContext {
    type V = StorageContextView;

    open spec fn deep_view(&self) -> StorageContextView {
        StorageContextView {
            storage_data_source: self.storage_data_source.deep_view(),
            record_storage: self.record_storage,
        }
    }
}

/// The storage context of a replay against a recorded proof.
pub open spec fn recorded_storage(nodes: Seq<Seq<u8>>) -> StorageContextView {
    StorageContextView {
        storage_data_source: StorageDataSourceView::Recorded(nodes),
        record_storage: false,
    }
}

/// The request to apply a chunk that a block newly included.
#[derive(Debug, PartialEq, Eq)]
pub struct NewChunkData {
    pub chunk_header: ShardChunkHeader,
    pub transactions: Vec<SignedTransaction>,
    pub receipts: Vec<Receipt>,
    pub block: ApplyChunkBlockContext,
    pub is_first_block_with_chunk_of_version: bool,
    pub storage_context: StorageContext,
}

pub struct NewChunkDataView {
    pub chunk_header: ShardChunkHeaderView,
    pub transactions: Seq<EncodedView>,
    pub receipts: Seq<EncodedView>,
    pub block: ApplyChunkBlockContext,
    pub is_first_block_with_chunk_of_version: bool,
    pub storage_context: StorageContextView,
}

impl DeepView for NewChunkData {
    type V = NewChunkDataView;

    open spec fn deep_view(&self) -> NewChunkDataView {
        NewChunkDataView {
            chunk_header: self.chunk_header.deep_view(),
            transactions: self.transactions.deep_view(),
            receipts: self.receipts.deep_view(),
            block: self.block,
            is_first_block_with_chunk_of_version: self.is_first_block_with_chunk_of_version,
            storage_context: self.storage_context.deep_view(),
        }
    }
}

/// The request to carry a shard's state across a block that has no new chunk
/// for it.
#[derive(Debug, PartialEq, Eq)]
pub struct OldChunkData {
    pub prev_chunk_extra: ChunkExtra,
    pub block: ApplyChunkBlockContext,
    pub storage_context: StorageContext,
}

pub struct OldChunkDataView {
    pub prev_chunk_extra: ChunkExtraView,
    pub block: ApplyChunkBlockContext,
    pub storage_context: StorageContextView,
}

impl DeepView for OldChunkData {
    type V = OldChunkDataView;

    open spec fn deep_view(&self) -> OldChunkDataView {
        OldChunkDataView {
            prev_chunk_extra: self.prev_chunk_extra.deep_view(),
            block: self.block,
            storage_context: self.storage_context.deep_view(),
        }
    }
}

/// A chunk with its transactions.
#[derive(Debug, PartialEq, Eq)]
pub struct ShardChunk {
    pub header: ShardChunkHeader,
    pub transactions: Vec<SignedTransaction>,
}

pub struct ShardChunkView {
    pub header: ShardChunkHeaderView,
    pub transactions: Seq<EncodedView>,
}

impl DeepView for ShardChunk {
    type V = ShardChunkView;

    open spec fn deep_view(&self) -> ShardChunkView {
        ShardChunkView {
            header: self.header.deep_view(),
            transactions: self.transactions.deep_view(),
        }
    }
}

impl ShardChunk {
    pub fn cloned_header(&self) -> (header: ShardChunkHeader)
        ensures
            header.deep_view() == self.header.deep_view(),
    {
        self.header.clone()
    }

    pub fn shard_id(&self) -> (s: ShardId)
        ensures
            s == self.header.shard_id,
    {
        self.header.shard_id
    }

    pub fn transactions(&self) -> (t: &Vec<SignedTransaction>)
        ensures
            *t == self.transactions,
    {
        &self.transactions
    }
}

/// The deep view of a lookup's outcome.
pub open spec fn result_view<T: DeepView, E>(r: Result<T, E>) -> Result<T::V, E> {
    match r {
        Ok(value) => Ok(value.deep_view()),
        Err(error) => Err(error),
    }
}

/// Copies a list of account names.
pub fn clone_accounts(accounts: &Vec<AccountId>) -> (copy: Vec<AccountId>)
    ensures
        copy.deep_view() == accounts.deep_view(),
{
    let mut copy: Vec<AccountId> = Vec::new();
    let mut i: usize = 0;
    while i < accounts.len()
        invariant
            i <= accounts.len(),
            copy.len() == i,
            forall|j: int| 0 <= j < i ==> copy@[j]@ == accounts@[j]@,
        decreases accounts.len() - i,
    {
        copy.push(accounts[i].clone());
        i += 1;
    }
    assert(copy.deep_view() =~= accounts.deep_view());
    copy
}

impl Clone for ReceiptProofResponse {
    fn clone(&self) -> (copy: ReceiptProofResponse)
        ensures
            copy.deep_view() == self.deep_view(),
    {
        let mut proofs: Vec<ReceiptProof> = Vec::new();
        let mut i: usize = 0;
        while i < self.proofs.len()
            invariant
                i <= self.proofs.len(),
                proofs.len() == i,
                forall|j: int| 0 <= j < i ==> proofs@[j].deep_view() == self.proofs@[j].deep_view(),
            decreases self.proofs.len() - i,
        {
            proofs.push(self.proofs[i].clone());
            i += 1;
        }
        assert(proofs.deep_view() =~= self.proofs.deep_view());
        ReceiptProofResponse { block_hash: self.block_hash, proofs }
    }
}

/// Copies a list of receipt proof responses.
pub fn clone_responses(responses: &Vec<ReceiptProofResponse>) -> (copy: Vec<ReceiptProofResponse>)
    ensures
        copy.deep_view() == responses.deep_view(),
{
    let mut copy: Vec<ReceiptProofResponse> = Vec::new();
    let mut i: usize = 0;
    while i < responses.len()
        invariant
            i <= responses.len(),
            copy.len() == i,
            forall|j: int| 0 <= j < i ==> copy@[j].deep_view() == responses@[j].deep_view(),
        decreases responses.len() - i,
    {
        copy.push(responses[i].clone());
        i += 1;
    }
    assert(copy.deep_view() =~= responses.deep_view());
    copy
}

impl Clone for StoredChunkStateTransitionData {
    fn clone(&self) -> (copy: StoredChunkStateTransitionData)
        ensures
            copy.deep_view() == self.deep_view(),
    {
        StoredChunkStateTransitionData {
            base_state: self.base_state.clone(),
            receipts_hash: self.receipts_hash,
        }
    }
}

impl Clone for ShardChunk {
    fn clone(&self) -> (copy: ShardChunk)
        ensures
            copy.deep_view() == self.deep_view(),
    {
        ShardChunk {
            header: self.header.clone(),
            transactions: clone_encoded(&self.transactions),
        }
    }
}

impl Clone for ApplyChunkResult {
    fn clone(&self) -> (copy: ApplyChunkResult)
        ensures
            copy.deep_view() == self.deep_view(),
    {
        ApplyChunkResult {
            new_root: self.new_root,
            outgoing_receipts: clone_encoded(&self.outgoing_receipts),
            outcomes: clone_encoded(&self.outcomes),
            validator_proposals: clone_proposals(&self.validator_proposals),
            total_gas_burnt: self.total_gas_burnt,
            total_balance_burnt: self.total_balance_burnt,
        }
    }
}

impl Clone for ChunkStateTransition {
    fn clone(&self) -> (copy: ChunkStateTransition)
        ensures
            copy.deep_view() == self.deep_view(),
    {
        ChunkStateTransition {
            block_hash: self.block_hash,
            base_state: self.base_state.clone(),
            post_state_root: self.post_state_root,
        }
    }
}

} // verus!
