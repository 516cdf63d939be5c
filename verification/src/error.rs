//! What validation reports when it stops early.

use vstd::prelude::*;
use crate::hash::CryptoHash;

verus! {

/// The commitment of a state witness that did not match, with the value that
/// was computed and the value that was declared.
#[derive(Clone, Copy, Debug, PartialEq, Eq)]
pub enum WitnessMismatch {
    /// The block has no chunk slot for the witness's shard.
    ShardNotInBlock { shard_id: u64, block_hash: CryptoHash },
    /// The receipts that the chain reports as incoming hash to `actual`, the
    /// witness declared `expected`.
    ReceiptsHash { actual: CryptoHash, expected: CryptoHash },
    /// The witness's transactions have root `actual`, the last new chunk
    /// recorded `expected`.
    TransactionRoot { actual: CryptoHash, expected: CryptoHash },
    /// Replaying the main transition gave `actual`, the witness declared
    /// `expected`.
    MainPostStateRoot { actual: CryptoHash, expected: CryptoHash },
    /// Replaying the implicit transition at `block_hash` gave `actual`, the
    /// witness declared `expected`.
    ImplicitPostStateRoot { actual: CryptoHash, block_hash: CryptoHash, expected: CryptoHash },
    /// The witness declares `actual` implicit transitions, `expected` blocks
    /// skipped the shard.
    ImplicitTransitionCount { actual: usize, expected: usize },
}

/// Failures that are neither an eligibility nor a commitment error.
#[derive(Clone, Copy, Debug, PartialEq, Eq)]
pub enum Failure {
    /// No recorded state proof for this block and shard.
    MissingStateProof { block_hash: CryptoHash, shard_id: u64 },
    /// A shard number does not fit the machine's index type.
    ShardIdConversion,
    /// Two receipt proofs name the same source chunk.
    DuplicateReceiptProof { chunk_hash: CryptoHash },
    /// The chain has no block between the parent and the chunk's inclusion.
    NoBlocksSinceChunk,
    /// The walk towards genesis visited more blocks than a list can hold.
    ChainWalkExhausted,
    /// A failure of a collaborator, by its own code.
    Collaborator { code: u64 },
}

/// Every way in which processing a witness or an endorsement can end early.
#[derive(Clone, Copy, Debug, PartialEq, Eq)]
pub enum Error {
    /// This node has no signing identity.
    NotAValidator,
    /// This node is not assigned to validate the chunk.
    NotAChunkValidator,
    /// The witness contradicts the chain or its own replay.
    InvalidChunkStateWitness(WitnessMismatch),
    /// The endorsement did not verify against the chunk header.
    InvalidChunkEndorsement,
    /// A receipt proof names a shard that the block does not have.
    InvalidShardId(u64),
    /// The chunk header commits to another state root than the replay reached.
    InvalidStateRoot,
    /// The chunk header commits to another outcome root.
    InvalidOutcomesProof,
    /// The chunk header commits to other validator proposals.
    InvalidValidatorProposals,
    /// The chunk header commits to another gas limit.
    InvalidGasLimit,
    /// The chunk header commits to another amount of gas used.
    InvalidGasUsed,
    /// The chunk header commits to another burnt balance.
    InvalidBalanceBurnt,
    /// The chunk header commits to another outgoing receipts root.
    InvalidReceiptsProof,
    /// A block, header or chunk is not known locally.
    DBNotFound(CryptoHash),
    /// The height lies beyond the end of the epoch.
    EpochOutOfBounds,
    /// Anything else.
    Other(Failure),
}

} // verus!
