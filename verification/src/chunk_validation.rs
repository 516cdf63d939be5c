//! The chunk validator: who may validate a witness, what is handed to the
//! worker that replays it, which endorsements go out when the replay
//! succeeds, and the bounded cache of the endorsements that come in.

use vstd::prelude::*;
use crate::adapters::{
    ChainStoreAccess, Commitments, EpochManagerAdapter, RuntimeAdapter, ValidatorSigner,
};
use crate::error::Error;
use crate::hash::CryptoHash;
use crate::lru_cache::{
    admitted, bounded, endorsement_cache_entries, endorsement_cache_get,
    endorsement_cache_get_mut, endorsement_cache_get_or_insert, endorsement_cache_limit,
    endorsement_cache_new, endorsement_cache_peek, position, promoted, EndorsementCache,
};
use crate::pre_validation::{
    pre_validate_chunk_state_witness, pre_validated, PreValidationOutput,
    PreValidationOutputView,
};
use crate::primitives::{
    result_view, AccountId, BlockHeight, ChunkEndorsement, ChunkEndorsementView,
    ChunkStateWitness, ChunkStateWitnessView, EpochId, ShardChunkHeader, ShardChunkHeaderView,
};
use crate::recency::{
    lemma_admitted, lemma_position_found, lemma_position_of_entry, lemma_promoted,
};
use crate::replay_validation::{validate_chunk_state_witness, validated};

verus! {

/// The number of chunks whose endorsements are kept.
pub const NUM_CHUNK_ENDORSEMENTS_CACHE_COUNT: usize = 100;

/// The number of coming block producers that an endorsement is sent to: the
/// block at the chunk's own height may be skipped, and a later producer may
/// include the chunk.
pub const NUM_NEXT_BLOCK_PRODUCERS_TO_SEND_CHUNK_ENDORSEMENT: u64 = 5;

/// Whether `account` may validate a chunk with these assigned validators. An
/// empty assignment is that of an epoch before chunk validators were
/// assigned: every validator validates.
pub open spec fn eligible(assignments: Seq<Seq<char>>, account: Seq<char>) -> bool {
    assignments.len() == 0 || assignments.contains(account)
}

/// The producers of the blocks at `height`, `height + 1`, ..., at most `count`
/// of them, up to the first height that has no producer.
pub open spec fn next_block_producers<E: EpochManagerAdapter>(
    epoch_manager: &E,
    epoch_id: EpochId,
    height: int,
    count: nat,
) -> Seq<Seq<char>>
    decreases count,
{
    if count == 0 || height > u64::MAX || height < 0 {
        Seq::empty()
    } else {
        match epoch_manager.block_producer(epoch_id, height as u64) {
            Err(_) => Seq::empty(),
            Ok(producer) => seq![producer] + next_block_producers(
                epoch_manager,
                epoch_id,
                height + 1,
                (count - 1) as nat,
            ),
        }
    }
}

/// What the worker needs to replay a witness and to endorse the chunk.
#[derive(Debug, PartialEq, Eq)]
pub struct ChunkValidationTask {
    pub chunk_header: ShardChunkHeader,
    pub state_witness: ChunkStateWitness,
    pub pre_validation_result: PreValidationOutput,
    /// Where the endorsement goes: the producers of the next blocks, the one
    /// at the chunk's own height first.
    pub block_producers: Vec<AccountId>,
}

pub struct ChunkValidationTaskView {
    pub chunk_header: ShardChunkHeaderView,
    pub state_witness: ChunkStateWitnessView,
    pub pre_validation_result: PreValidationOutputView,
    pub block_producers: Seq<Seq<char>>,
}

impl DeepView for ChunkValidationTask {
    type V = ChunkValidationTaskView;

    open spec fn deep_view(&self) -> ChunkValidationTaskView {
        ChunkValidationTaskView {
            chunk_header: self.chunk_header.deep_view(),
            state_witness: self.state_witness.deep_view(),
            pre_validation_result: self.pre_validation_result.deep_view(),
            block_producers: self.block_producers.deep_view(),
        }
    }
}

/// A witness that passed the cheap checks, with the block producers that
/// could be found for its endorsement. It becomes a task for the worker once
/// there is at least one of them.
#[derive(Debug, PartialEq, Eq)]
pub struct PreparedValidation {
    pub chunk_header: ShardChunkHeader,
    pub state_witness: ChunkStateWitness,
    pub pre_validation_result: PreValidationOutput,
    /// The producers of the next blocks, as far as the epoch manager knows
    /// them. None at all means that the epoch manager is broken.
    pub block_producers: Vec<AccountId>,
}

impl DeepView for PreparedValidation {
    type V = ChunkValidationTaskView;

    open spec fn deep_view(&self) -> ChunkValidationTaskView {
        ChunkValidationTaskView {
            chunk_header: self.chunk_header.deep_view(),
            state_witness: self.state_witness.deep_view(),
            pre_validation_result: self.pre_validation_result.deep_view(),
            block_producers: self.block_producers.deep_view(),
        }
    }
}

impl PreparedValidation {
    /// The task for the worker. There must be a block producer to send the
    /// endorsement to.
    pub fn into_task(self) -> (task: ChunkValidationTask)
        requires
            self.block_producers.len() > 0,
        ensures
            task.deep_view() == self.deep_view(),
            task.block_producers.len() > 0,
    {
        ChunkValidationTask {
            chunk_header: self.chunk_header,
            state_witness: self.state_witness,
            pre_validation_result: self.pre_validation_result,
            block_producers: self.block_producers,
        }
    }
}

/// What starting the validation of a witness returns for a node that signs as
/// `signer`, if it signs at all: the reason why the witness is not for this
/// node, or why it is wrong or cannot be checked, else what the worker needs,
/// with the block producers that the epoch manager knows.
pub open spec fn started<C: ChainStoreAccess, E: EpochManagerAdapter, H: Commitments>(
    witness: ChunkStateWitnessView,
    signer: Option<Seq<char>>,
    store: &C,
    epoch_manager: &E,
    hasher: &H,
) -> Result<ChunkValidationTaskView, Error> {
    let header = witness.chunk_header;
    match signer {
        None => Err(Error::NotAValidator),
        Some(account) => match epoch_manager.epoch_id_from_prev_block(header.prev_block_hash) {
            Err(error) => Err(error),
            Ok(epoch_id) => match epoch_manager.chunk_validator_assignments(
                epoch_id,
                header.shard_id,
                header.height_created,
            ) {
                Err(error) => Err(error),
                Ok(assignments) => if !eligible(assignments, account) {
                    Err(Error::NotAChunkValidator)
                } else {
                    match pre_validated(witness, store, epoch_manager, hasher) {
                        Err(error) => Err(error),
                        Ok(pre_validation_result) => Ok(
                            ChunkValidationTaskView {
                                chunk_header: header,
                                state_witness: witness,
                                pre_validation_result,
                                block_producers: next_block_producers(
                                    epoch_manager,
                                    epoch_id,
                                    header.height_created as int,
                                    NUM_NEXT_BLOCK_PRODUCERS_TO_SEND_CHUNK_ENDORSEMENT as nat,
                                ),
                            },
                        ),
                    }
                },
            },
        },
    }
}

/// The endorsement of a chunk by the validator who signs as `signer`.
pub open spec fn endorsement_by<S: ValidatorSigner>(chunk_hash: CryptoHash, signer: &S) -> ChunkEndorsementView {
    ChunkEndorsementView {
        chunk_hash,
        account_id: signer.account(),
        signature: signer.endorsement_signature(chunk_hash),
    }
}

/// One copy of the endorsement for each block producer, in their order.
pub open spec fn endorsement_messages(
    block_producers: Seq<Seq<char>>,
    endorsement: ChunkEndorsementView,
) -> Seq<(Seq<char>, ChunkEndorsementView)> {
    Seq::new(block_producers.len(), |i: int| (block_producers[i], endorsement))
}

impl ChunkEndorsement {
    /// The endorsement of the chunk, signed by `signer`.
    pub fn new<S: ValidatorSigner>(chunk_hash: CryptoHash, signer: &S) -> (endorsement:
        ChunkEndorsement)
        ensures
            endorsement.deep_view() == endorsement_by(chunk_hash, signer),
    {
        ChunkEndorsement {
            chunk_hash,
            account_id: signer.validator_id().clone(),
            signature: signer.sign_chunk_endorsement(&chunk_hash),
        }
    }
}

impl ChunkValidationTask {
    /// What the worker does: replay the witness and, if it is valid, make the
    /// endorsement and address one copy to each block producer. A failed
    /// replay yields its error and no message.
    pub fn run<S: ValidatorSigner, E: EpochManagerAdapter, R: RuntimeAdapter, H: Commitments>(
        self,
        signer: &S,
        epoch_manager: &E,
        runtime_adapter: &R,
        hasher: &H,
    ) -> (r: Result<Vec<(AccountId, ChunkEndorsement)>, Error>)
        ensures
            match validated(
                self.state_witness.deep_view(),
                self.pre_validation_result.deep_view(),
                epoch_manager,
                runtime_adapter,
                hasher,
            ) {
                Err(error) => r == Err::<Vec<(AccountId, ChunkEndorsement)>, Error>(error),
                Ok(_) => r is Ok && r.unwrap().deep_view() == endorsement_messages(
                    self.block_producers.deep_view(),
                    endorsement_by(self.chunk_header.chunk_hash, signer),
                ),
            },
    {
        let chunk_hash = self.chunk_header.chunk_hash();
        let block_producers = self.block_producers;
        match validate_chunk_state_witness(
            self.state_witness,
            self.pre_validation_result,
            epoch_manager,
            runtime_adapter,
            hasher,
        ) {
            Ok(()) => {
                let endorsement = ChunkEndorsement::new(chunk_hash, signer);
                let mut messages: Vec<(AccountId, ChunkEndorsement)> = Vec::new();
                let mut i: usize = 0;
                while i < block_producers.len()
                    invariant
                        i <= block_producers.len(),
                        messages.len() == i,
                        forall|j: int|
                            0 <= j < i ==> (#[trigger] messages@[j]).0@ == block_producers@[j]@
                                && messages@[j].1.deep_view() == endorsement.deep_view(),
                    decreases block_producers.len() - i,
                {
                    messages.push((block_producers[i].clone(), endorsement.clone()));
                    i += 1;
                }
                assert(messages.deep_view() =~= endorsement_messages(
                    block_producers.deep_view(),
                    endorsement.deep_view(),
                ));
                Ok(messages)
            },
            Err(error) => Err(error),
        }
    }
}

/// Whether `account` is among the assigned validators.
fn contains_account(assignments: &Vec<AccountId>, account: &AccountId) -> (found: bool)
    ensures
        found == assignments.deep_view().contains(account@),
{
    let mut i: usize = 0;
    while i < assignments.len()
        invariant
            i <= assignments.len(),
            forall|j: int| 0 <= j < i ==> assignments.deep_view()[j] != account@,
        decreases assignments.len() - i,
    {
        if assignments[i] == *account {
            assert(assignments.deep_view()[i as int] == account@);
            return true;
        }
        i += 1;
    }
    false
}

/// The endorsements of chunks, the most recently used chunk first.
pub type Endorsements = Seq<([u8; 32], Seq<ChunkEndorsementView>)>;

/// Whether the list holds an endorsement by `account`.
pub open spec fn endorsed_by(list: Seq<ChunkEndorsementView>, account: Seq<char>) -> bool {
    exists|i: int| 0 <= i < list.len() && (#[trigger] list[i]).account_id == account
}

/// No validator is listed twice.
pub open spec fn one_per_account(list: Seq<ChunkEndorsementView>) -> bool {
    forall|i: int, j: int|
        0 <= i < list.len() && 0 <= j < list.len() && (#[trigger] list[i]).account_id == (
        #[trigger] list[j]).account_id ==> i == j
}

/// Each chunk has one entry, within the limit, and each validator at most one
/// endorsement per chunk.
pub open spec fn well_endorsed(endorsements: Endorsements, limit: nat) -> bool {
    &&& bounded(endorsements, limit)
    &&& forall|i: int|
        0 <= i < endorsements.len() ==> one_per_account((#[trigger] endorsements[i]).1)
}

/// The cache after the chunk's entry was looked up: it is the most recently
/// used, if there is one.
pub open spec fn looked_up(endorsements: Endorsements, chunk_hash: CryptoHash) -> Endorsements {
    let at = position(endorsements, chunk_hash.0);
    if at >= 0 {
        promoted(endorsements, at, endorsements[at].1)
    } else {
        endorsements
    }
}

/// Whether the cache holds an endorsement of the chunk by `account`.
pub open spec fn is_recorded(
    endorsements: Endorsements,
    chunk_hash: CryptoHash,
    account: Seq<char>,
) -> bool {
    let at = position(endorsements, chunk_hash.0);
    at >= 0 && endorsed_by(endorsements[at].1, account)
}

/// The cache after a verified endorsement was recorded: the chunk's entry is
/// the most recently used, made for the occasion if need be, and holds the
/// endorsement unless it held one by the same validator.
pub open spec fn recorded(
    endorsements: Endorsements,
    limit: nat,
    endorsement: ChunkEndorsementView,
) -> Endorsements {
    let at = position(endorsements, endorsement.chunk_hash.0);
    if at >= 0 {
        promoted(
            endorsements,
            at,
            if endorsed_by(endorsements[at].1, endorsement.account_id) {
                endorsements[at].1
            } else {
                endorsements[at].1.push(endorsement)
            },
        )
    } else {
        admitted(endorsements, limit, endorsement.chunk_hash.0, seq![endorsement])
    }
}

/// What processing an endorsement returns, and the cache that it leaves. An
/// endorsement that is recorded already is accepted at once. Any other is
/// verified against the header of its chunk and recorded if it holds.
pub open spec fn processed<C: ChainStoreAccess, E: EpochManagerAdapter>(
    endorsements: Endorsements,
    limit: nat,
    endorsement: ChunkEndorsementView,
    store: &C,
    epoch_manager: &E,
) -> (Result<(), Error>, Endorsements) {
    if is_recorded(endorsements, endorsement.chunk_hash, endorsement.account_id) {
        (Ok(()), looked_up(endorsements, endorsement.chunk_hash))
    } else {
        let touched = looked_up(endorsements, endorsement.chunk_hash);
        match store.chunk(endorsement.chunk_hash) {
            Err(error) => (Err(error), touched),
            Ok(chunk) => match epoch_manager.endorsement_verifies(chunk.header, endorsement) {
                Err(error) => (Err(error), touched),
                Ok(verifies) => if verifies {
                    (Ok(()), recorded(endorsements, limit, endorsement))
                } else {
                    (Err(Error::InvalidChunkEndorsement), touched)
                },
            },
        }
    }
}

/// Looking an entry up keeps the cache well formed and every record in it.
pub proof fn lemma_looked_up(endorsements: Endorsements, limit: nat, chunk_hash: CryptoHash)
    requires
        well_endorsed(endorsements, limit),
    ensures
        well_endorsed(looked_up(endorsements, chunk_hash), limit),
        forall|hash: CryptoHash, account: Seq<char>| #[trigger]
            is_recorded(looked_up(endorsements, chunk_hash), hash, account) == is_recorded(
                endorsements,
                hash,
                account,
            ),
        position(endorsements, chunk_hash.0) >= 0 ==> position(
            looked_up(endorsements, chunk_hash),
            chunk_hash.0,
        ) == 0 && looked_up(endorsements, chunk_hash)[0].1 == endorsements[position(
            endorsements,
            chunk_hash.0,
        )].1,
        position(endorsements, chunk_hash.0) < 0 ==> position(
            looked_up(endorsements, chunk_hash),
            chunk_hash.0,
        ) < 0,
{
    let at = position(endorsements, chunk_hash.0);
    lemma_position_found(endorsements, chunk_hash.0);
    if at >= 0 {
        let after = looked_up(endorsements, chunk_hash);
        lemma_promoted(endorsements, at, endorsements[at].1);
        assert(after[0] == endorsements[at]);
        lemma_position_of_entry(after, 0);
        assert forall|i: int| 0 <= i < after.len() implies one_per_account(
            (#[trigger] after[i]).1,
        ) by {
            if i > 0 {
                assert(after[i] == endorsements.remove(at)[i - 1]);
                assert(after[i] == endorsements[if i - 1 < at {
                    i - 1
                } else {
                    i
                }]);
            }
        }
        assert forall|hash: CryptoHash, account: Seq<char>| #[trigger]
            is_recorded(after, hash, account) == is_recorded(endorsements, hash, account) by {
            lemma_same_entry(endorsements, at, hash.0);
        }
    }
}

/// Using an entry again without changing it leaves every key with the value
/// it had.
proof fn lemma_same_entry(endorsements: Endorsements, at: int, key: [u8; 32])
    requires
        crate::lru_cache::distinct_keys(endorsements),
        0 <= at < endorsements.len(),
    ensures
        ({
            let after = promoted(endorsements, at, endorsements[at].1);
            &&& (position(after, key) >= 0) == (position(endorsements, key) >= 0)
            &&& position(after, key) >= 0 ==> after[position(after, key)].1
                == endorsements[position(endorsements, key)].1
        }),
{
    let after = promoted(endorsements, at, endorsements[at].1);
    lemma_promoted(endorsements, at, endorsements[at].1);
    lemma_position_found(endorsements, key);
    lemma_position_found(after, key);
    crate::recency::lemma_contents_of_entry(endorsements, at);
    assert(crate::recency::contents(after) =~= crate::recency::contents(endorsements));
    assert(crate::recency::contents(after).contains_key(key) == crate::recency::contents(
        endorsements,
    ).contains_key(key));
    if position(after, key) >= 0 {
        assert(crate::recency::contents(after)[key] == crate::recency::contents(
            endorsements,
        )[key]);
    }
}

/// Recording a verified endorsement keeps the cache well formed, and the
/// endorsement is then recorded, unless the cache has no room at all.
pub proof fn lemma_recorded(endorsements: Endorsements, limit: nat, endorsement: ChunkEndorsementView)
    requires
        well_endorsed(endorsements, limit),
    ensures
        well_endorsed(recorded(endorsements, limit, endorsement), limit),
        limit > 0 ==> is_recorded(
            recorded(endorsements, limit, endorsement),
            endorsement.chunk_hash,
            endorsement.account_id,
        ),
        limit > 0 ==> position(
            recorded(endorsements, limit, endorsement),
            endorsement.chunk_hash.0,
        ) == 0,
{
    let key = endorsement.chunk_hash.0;
    let at = position(endorsements, key);
    let after = recorded(endorsements, limit, endorsement);
    lemma_position_found(endorsements, key);
    if at >= 0 {
        let list = endorsements[at].1;
        let new_list = if endorsed_by(list, endorsement.account_id) {
            list
        } else {
            list.push(endorsement)
        };
        lemma_promoted(endorsements, at, new_list);
        assert(after[0] == (key, new_list));
        lemma_position_of_entry(after, 0);
        assert(one_per_account(list));
        assert(one_per_account(new_list)) by {
            if !endorsed_by(list, endorsement.account_id) {
                assert forall|i: int, j: int|
                    0 <= i < new_list.len() && 0 <= j < new_list.len() && (
                    #[trigger] new_list[i]).account_id == (
                    #[trigger] new_list[j]).account_id implies i == j by {
                    if i < list.len() {
                        assert(new_list[i] == list[i]);
                    }
                    if j < list.len() {
                        assert(new_list[j] == list[j]);
                    }
                }
            }
        }
        assert(endorsed_by(new_list, endorsement.account_id)) by {
            if !endorsed_by(list, endorsement.account_id) {
                assert(new_list[list.len() as int].account_id == endorsement.account_id);
            }
        }
        assert forall|i: int| 0 <= i < after.len() implies one_per_account(
            (#[trigger] after[i]).1,
        ) by {
            if i > 0 {
                assert(after[i] == endorsements.remove(at)[i - 1]);
                assert(after[i] == endorsements[if i - 1 < at {
                    i - 1
                } else {
                    i
                }]);
            }
        }
    } else {
        let fresh = seq![endorsement];
        lemma_admitted(endorsements, limit, key, fresh);
        assert(fresh[0] == endorsement);
        assert(one_per_account(fresh));
        if limit > 0 {
            assert(after[0] == (key, fresh));
            lemma_position_of_entry(after, 0);
            assert(endorsed_by(fresh, endorsement.account_id));
        }
        assert forall|i: int| 0 <= i < after.len() implies one_per_account(
            (#[trigger] after[i]).1,
        ) by {
            if limit > 0 && i > 0 {
                if endorsements.len() >= limit {
                    assert(after[i] == endorsements.drop_last()[i - 1]);
                    assert(after[i] == endorsements[i - 1]);
                } else {
                    assert(after[i] == endorsements[i - 1]);
                }
            } else if limit == 0 {
                assert(after[i] == endorsements[i]);
            }
        }
    }
}

/// An endorsement that was processed with success is accepted again
/// whatever the chain and the epoch manager say then, and the second time
/// changes nothing: the cache holds it once, in an entry that is the most
/// recently used already.
pub proof fn lemma_processing_is_idempotent<
    C: ChainStoreAccess,
    E: EpochManagerAdapter,
    C2: ChainStoreAccess,
    E2: EpochManagerAdapter,
>(
    endorsements: Endorsements,
    limit: nat,
    endorsement: ChunkEndorsementView,
    store: &C,
    epoch_manager: &E,
    later_store: &C2,
    later_epoch_manager: &E2,
)
    requires
        well_endorsed(endorsements, limit),
        limit > 0,
        processed(endorsements, limit, endorsement, store, epoch_manager).0 is Ok,
    ensures
        ({
            let once = processed(endorsements, limit, endorsement, store, epoch_manager).1;
            let twice = processed(once, limit, endorsement, later_store, later_epoch_manager);
            &&& well_endorsed(once, limit)
            &&& is_recorded(once, endorsement.chunk_hash, endorsement.account_id)
            &&& twice.0 is Ok
            &&& twice.1 == once
        }),
{
    let once = processed(endorsements, limit, endorsement, store, epoch_manager).1;
    lemma_looked_up(endorsements, limit, endorsement.chunk_hash);
    lemma_recorded(endorsements, limit, endorsement);
    if is_recorded(endorsements, endorsement.chunk_hash, endorsement.account_id) {
        assert(once == looked_up(endorsements, endorsement.chunk_hash));
        assert(is_recorded(once, endorsement.chunk_hash, endorsement.account_id));
    } else {
        assert(once == recorded(endorsements, limit, endorsement));
    }
    assert(position(once, endorsement.chunk_hash.0) == 0);
    assert(promoted(once, 0, once[0].1) =~= once);
}

/// Whether the list holds an endorsement by `account`.
fn has_endorsement_by(list: &Vec<ChunkEndorsement>, account: &AccountId) -> (found: bool)
    ensures
        found == endorsed_by(list.deep_view(), account@),
{
    let mut i: usize = 0;
    while i < list.len()
        invariant
            i <= list.len(),
            forall|j: int| 0 <= j < i ==> (#[trigger] list.deep_view()[j]).account_id != account@,
        decreases list.len() - i,
    {
        if list[i].account_id == *account {
            assert(list.deep_view()[i as int].account_id == account@);
            return true;
        }
        i += 1;
    }
    false
}

/// The view of the cache's entries.
pub open spec fn endorsements_view(entries: Seq<([u8; 32], Vec<ChunkEndorsement>)>) -> Endorsements {
    Seq::new(entries.len(), |i: int| (entries[i].0, entries[i].1.deep_view()))
}

/// The view has the keys of the entries, at the same places.
proof fn lemma_endorsements_view_keys(
    entries: Seq<([u8; 32], Vec<ChunkEndorsement>)>,
    key: [u8; 32],
)
    requires
        crate::lru_cache::distinct_keys(endorsements_view(entries)),
    ensures
        crate::lru_cache::distinct_keys(entries),
        position(entries, key) == position(endorsements_view(entries), key),
{
    let view = endorsements_view(entries);
    assert forall|i: int, j: int|
        0 <= i < entries.len() && 0 <= j < entries.len() && (#[trigger] entries[i]).0 == (
        #[trigger] entries[j]).0 implies i == j by {
        assert(view[i].0 == view[j].0);
    }
    lemma_position_found(entries, key);
    lemma_position_found(view, key);
    if position(entries, key) >= 0 {
        let at = position(entries, key);
        assert(view[at].0 == key);
        lemma_position_of_entry(view, at);
    } else if position(view, key) >= 0 {
        assert(entries[position(view, key)].0 == key);
    }
}

/// The endorsements that a validator has verified, in a cache that forgets
/// the chunk that was used least recently. Only the validator that owns it
/// reads it or puts anything into it, so that what it holds was verified, and
/// is held once.
pub struct EndorsementStore {
    cache: EndorsementCache,
}

/// Validates the state witnesses of the chunks that this node is assigned
/// to, and keeps the endorsements that other validators send.
pub struct ChunkValidator<
    S: ValidatorSigner,
    E: EpochManagerAdapter,
    R: RuntimeAdapter,
    H: Commitments,
> {
    /// The signer of this node, if it is a validator.
    pub my_signer: Option<S>,
    pub epoch_manager: E,
    pub runtime_adapter: R,
    pub hasher: H,
    /// The verified endorsements, by chunk and by validator.
    pub chunk_endorsements: EndorsementStore,
}

impl<
    S: ValidatorSigner,
    E: EpochManagerAdapter,
    R: RuntimeAdapter,
    H: Commitments,
> ChunkValidator<S, E, R, H> {
    /// The endorsements that the cache holds, the most recently used chunk
    /// first.
    pub closed spec fn endorsements(&self) -> Endorsements {
        endorsements_view(endorsement_cache_entries(self.chunk_endorsements.cache))
    }

    /// The number of chunks that the cache has room for.
    pub closed spec fn endorsements_limit(&self) -> nat {
        endorsement_cache_limit(self.chunk_endorsements.cache)
    }

    /// What the validator keeps between calls.
    pub open spec fn wf(&self) -> bool {
        &&& self.endorsements_limit() == NUM_CHUNK_ENDORSEMENTS_CACHE_COUNT
        &&& well_endorsed(self.endorsements(), self.endorsements_limit())
    }

    /// The account that this node signs as, if it signs.
    pub open spec fn signer_account(&self) -> Option<Seq<char>> {
        match self.my_signer {
            Some(signer) => Some(signer.account()),
            None => None,
        }
    }

    pub fn new(my_signer: Option<S>, epoch_manager: E, runtime_adapter: R, hasher: H) -> (validator:
        Self)
        ensures
            validator.wf(),
            validator.endorsements() == Seq::<([u8; 32], Seq<ChunkEndorsementView>)>::empty(),
            validator.my_signer == my_signer,
            validator.epoch_manager == epoch_manager,
            validator.runtime_adapter == runtime_adapter,
            validator.hasher == hasher,
    {
        let validator = ChunkValidator {
            my_signer,
            epoch_manager,
            runtime_adapter,
            hasher,
            chunk_endorsements: EndorsementStore {
                cache: endorsement_cache_new(NUM_CHUNK_ENDORSEMENTS_CACHE_COUNT),
            },
        };
        assert(validator.endorsements() =~= Seq::empty());
        validator
    }

    /// Decides whether a witness is for this node and passes the cheap
    /// checks, and prepares its replay.
    ///
    /// The epoch manager must know a producer for the block at the chunk's
    /// own height whenever the witness gets that far: one that does not is
    /// broken, and there is nobody to endorse the chunk to. A caller that
    /// cannot know this calls `prepare_validating_chunk` and looks at the
    /// producers itself.
    pub fn start_validating_chunk<C: ChainStoreAccess>(
        &self,
        state_witness: ChunkStateWitness,
        chain_store: &C,
    ) -> (r: Result<ChunkValidationTask, Error>)
        requires
            started(
                state_witness.deep_view(),
                self.signer_account(),
                chain_store,
                &self.epoch_manager,
                &self.hasher,
            ) matches Ok(task) ==> task.block_producers.len() > 0,
        ensures
            result_view(r) == started(
                state_witness.deep_view(),
                self.signer_account(),
                chain_store,
                &self.epoch_manager,
                &self.hasher,
            ),
            r matches Ok(task) ==> task.block_producers.len() > 0,
    {
        match self.prepare_validating_chunk(state_witness, chain_store) {
            Ok(prepared) => {
                assert(prepared.block_producers.deep_view().len() == prepared.block_producers.len());
                Ok(prepared.into_task())
            },
            Err(error) => Err(error),
        }
    }

    /// Decides whether a witness is for this node and passes the cheap
    /// checks, and prepares its replay as far as that can be done.
    ///
    /// A node without a signer is no validator. A node that is not among the
    /// validators assigned to the chunk is no chunk validator, unless nobody
    /// is assigned. The witness is then pre-validated against the chain, and
    /// the producers of the next blocks are looked up, from the chunk's height
    /// on and up to the first height without a producer. Nothing is replayed
    /// and nothing is sent: that is for the worker that runs the task.
    pub fn prepare_validating_chunk<C: ChainStoreAccess>(
        &self,
        state_witness: ChunkStateWitness,
        chain_store: &C,
    ) -> (r: Result<PreparedValidation, Error>)
        ensures
            result_view(r) == started(
                state_witness.deep_view(),
                self.signer_account(),
                chain_store,
                &self.epoch_manager,
                &self.hasher,
            ),
    {
        let chunk_header = state_witness.chunk_header.clone();
        let my_signer = match &self.my_signer {
            Some(signer) => signer,
            None => {
                return Err(Error::NotAValidator);
            },
        };
        let epoch_id = match self.epoch_manager.get_epoch_id_from_prev_block(
            &chunk_header.prev_block_hash(),
        ) {
            Ok(epoch_id) => epoch_id,
            Err(error) => {
                return Err(error);
            },
        };
        let chunk_validator_assignments = match self.epoch_manager.get_chunk_validator_assignments(
            &epoch_id,
            chunk_header.shard_id(),
            chunk_header.height_created(),
        ) {
            Ok(assignments) => assignments,
            Err(error) => {
                return Err(error);
            },
        };
        if chunk_validator_assignments.len() != 0 && !contains_account(
            &chunk_validator_assignments,
            my_signer.validator_id(),
        ) {
            return Err(Error::NotAChunkValidator);
        }
        let pre_validation_result = match pre_validate_chunk_state_witness(
            &state_witness,
            chain_store,
            &self.epoch_manager,
            &self.hasher,
        ) {
            Ok(output) => output,
            Err(error) => {
                return Err(error);
            },
        };
        let block_height = chunk_header.height_created();
        let block_producers = collect_block_producers(
            &self.epoch_manager,
            &epoch_id,
            block_height,
        );
        Ok(PreparedValidation { chunk_header, state_witness, pre_validation_result, block_producers })
    }

    /// How many endorsements of the chunk the cache holds. The order of use
    /// stays as it is.
    pub fn endorsement_count(&self, chunk_hash: &CryptoHash) -> (count: usize)
        requires
            self.wf(),
        ensures
            count == if position(self.endorsements(), chunk_hash.0) >= 0 {
                self.endorsements()[position(self.endorsements(), chunk_hash.0)].1.len()
            } else {
                0
            },
    {
        proof {
            lemma_endorsements_view_keys(
                endorsement_cache_entries(self.chunk_endorsements.cache),
                chunk_hash.0,
            );
        }
        match endorsement_cache_peek(&self.chunk_endorsements.cache, &chunk_hash.0) {
            Some(list) => list.len(),
            None => 0,
        }
    }

    /// Whether the cache holds an endorsement of the chunk by `account`. The
    /// order of use stays as it is.
    pub fn has_endorsement(&self, chunk_hash: &CryptoHash, account: &AccountId) -> (found: bool)
        requires
            self.wf(),
        ensures
            found == is_recorded(self.endorsements(), *chunk_hash, account@),
    {
        proof {
            lemma_endorsements_view_keys(
                endorsement_cache_entries(self.chunk_endorsements.cache),
                chunk_hash.0,
            );
        }
        match endorsement_cache_peek(&self.chunk_endorsements.cache, &chunk_hash.0) {
            Some(list) => has_endorsement_by(list, account),
            None => false,
        }
    }

    /// Processes an endorsement that another validator sent.
    ///
    /// One that is recorded already, for the same chunk and by the same
    /// validator, is accepted without another look. Any other is verified
    /// against the header of its chunk; what does not verify is refused, what
    /// does is recorded. Either way the chunk's entry counts as used.
    pub fn process_chunk_endorsement<C: ChainStoreAccess>(
        &mut self,
        endorsement: ChunkEndorsement,
        chain_store: &C,
    ) -> (r: Result<(), Error>)
        requires
            old(self).wf(),
        ensures
            final(self).wf(),
            final(self).my_signer == old(self).my_signer,
            final(self).epoch_manager == old(self).epoch_manager,
            final(self).runtime_adapter == old(self).runtime_adapter,
            final(self).hasher == old(self).hasher,
            (r, final(self).endorsements()) == processed(
                old(self).endorsements(),
                old(self).endorsements_limit(),
                endorsement.deep_view(),
                chain_store,
                &old(self).epoch_manager,
            ),
    {
        let ghost before = self.endorsements();
        let ghost limit = self.endorsements_limit();
        let ghost entries = endorsement_cache_entries(self.chunk_endorsements.cache);
        let ghost view = endorsement.deep_view();
        let chunk_hash = endorsement.chunk_hash;
        let key = chunk_hash.0;
        proof {
            lemma_endorsements_view_keys(entries, key);
            lemma_looked_up(before, limit, chunk_hash);
            lemma_recorded(before, limit, view);
            lemma_position_found(entries, key);
        }
        let ghost at = position(entries, key);
        let already = match endorsement_cache_get(&mut self.chunk_endorsements.cache, &key) {
            Some(existing_endorsements) => has_endorsement_by(
                existing_endorsements,
                &endorsement.account_id,
            ),
            None => false,
        };
        let ghost touched_entries = endorsement_cache_entries(self.chunk_endorsements.cache);
        proof {
            if at >= 0 {
                assert(touched_entries == promoted(entries, at, entries[at].1));
                assert(endorsements_view(touched_entries) =~= promoted(
                    before,
                    at,
                    before[at].1,
                ));
            }
            assert(self.endorsements() == looked_up(before, chunk_hash));
            lemma_endorsements_view_keys(touched_entries, key);
            lemma_position_found(touched_entries, key);
        }
        if already {
            return Ok(());
        }
        let chunk_header = match chain_store.get_chunk(&chunk_hash) {
            Ok(chunk) => chunk.cloned_header(),
            Err(error) => {
                return Err(error);
            },
        };
        match self.epoch_manager.verify_chunk_endorsement(&chunk_header, &endorsement) {
            Ok(verifies) => {
                if !verifies {
                    return Err(Error::InvalidChunkEndorsement);
                }
            },
            Err(error) => {
                return Err(error);
            },
        }
        endorsement_cache_get_or_insert(&mut self.chunk_endorsements.cache, key);
        let ghost ready_entries = endorsement_cache_entries(self.chunk_endorsements.cache);
        proof {
            if at >= 0 {
                assert(position(touched_entries, key) == 0);
                assert(promoted(touched_entries, 0, touched_entries[0].1) =~= touched_entries);
                assert(ready_entries == touched_entries);
            } else {
                assert(touched_entries == entries);
                crate::recency::lemma_admitted(entries, limit, key, ready_entries[0].1);
            }
            assert(ready_entries[0].0 == key);
            lemma_position_of_entry(ready_entries, 0);
        }
        match endorsement_cache_get_mut(&mut self.chunk_endorsements.cache, &key) {
            Some(chunk_endorsements) => {
                let ghost list_before = chunk_endorsements.deep_view();
                chunk_endorsements.push(endorsement);
                assert(chunk_endorsements.deep_view() =~= list_before.push(view));
            },
            None => {
                assert(false);
            },
        }
        proof {
            let done = endorsement_cache_entries(self.chunk_endorsements.cache);
            assert(done == promoted(ready_entries, 0, done[0].1));
            if at >= 0 {
                assert(endorsements_view(done) =~= promoted(before, at, before[at].1.push(view)));
            } else {
                assert(ready_entries == admitted(entries, limit, key, ready_entries[0].1));
                assert(ready_entries[0].1.deep_view() =~= Seq::<ChunkEndorsementView>::empty());
                assert(done[0].1.deep_view() =~= seq![view]);
                assert(done[0] == (key, done[0].1));
                let target = admitted(before, limit, key, seq![view]);
                assert(done.len() == target.len());
                assert forall|i: int| 0 <= i < done.len() implies #[trigger] endorsements_view(
                    done,
                )[i] == target[i] by {
                    if i > 0 {
                        assert(done[i] == ready_entries.remove(0)[i - 1]);
                        assert(done[i] == ready_entries[i]);
                        assert(ready_entries[i] == entries[i - 1]);
                        assert(target[i] == before[i - 1]);
                    }
                }
                assert(endorsements_view(done) =~= target);
            }
            assert(self.endorsements() == recorded(before, limit, view));
        }
        Ok(())
    }
}

/// Looks up the producers of the blocks from `block_height` on, up to the
/// first height for which the epoch manager knows none.
pub fn collect_block_producers<E: EpochManagerAdapter>(
    epoch_manager: &E,
    epoch_id: &EpochId,
    block_height: BlockHeight,
) -> (block_producers: Vec<AccountId>)
    ensures
        block_producers.deep_view() == next_block_producers(
            epoch_manager,
            *epoch_id,
            block_height as int,
            NUM_NEXT_BLOCK_PRODUCERS_TO_SEND_CHUNK_ENDORSEMENT as nat,
        ),
{
    let mut block_producers: Vec<AccountId> = Vec::new();
    let mut i: u64 = 0;
    let ghost whole = next_block_producers(
        epoch_manager,
        *epoch_id,
        block_height as int,
        NUM_NEXT_BLOCK_PRODUCERS_TO_SEND_CHUNK_ENDORSEMENT as nat,
    );
    assert(block_producers.deep_view() + whole =~= whole);
    while i < NUM_NEXT_BLOCK_PRODUCERS_TO_SEND_CHUNK_ENDORSEMENT
        invariant
            i <= NUM_NEXT_BLOCK_PRODUCERS_TO_SEND_CHUNK_ENDORSEMENT,
            whole == next_block_producers(
                epoch_manager,
                *epoch_id,
                block_height as int,
                NUM_NEXT_BLOCK_PRODUCERS_TO_SEND_CHUNK_ENDORSEMENT as nat,
            ),
            whole == block_producers.deep_view() + next_block_producers(
                epoch_manager,
                *epoch_id,
                block_height + i,
                (NUM_NEXT_BLOCK_PRODUCERS_TO_SEND_CHUNK_ENDORSEMENT - i) as nat,
            ),
        decreases NUM_NEXT_BLOCK_PRODUCERS_TO_SEND_CHUNK_ENDORSEMENT - i,
    {
        if block_height > u64::MAX - i {
            assert(next_block_producers(
                epoch_manager,
                *epoch_id,
                block_height + i,
                (NUM_NEXT_BLOCK_PRODUCERS_TO_SEND_CHUNK_ENDORSEMENT - i) as nat,
            ) =~= Seq::<Seq<char>>::empty());
            assert(block_producers.deep_view() + Seq::<Seq<char>>::empty()
                =~= block_producers.deep_view());
            return block_producers;
        }
        let ghost done = block_producers.deep_view();
        match epoch_manager.get_block_producer(epoch_id, block_height + i) {
            Ok(producer) => {
                let ghost rest = next_block_producers(
                    epoch_manager,
                    *epoch_id,
                    block_height + i + 1,
                    (NUM_NEXT_BLOCK_PRODUCERS_TO_SEND_CHUNK_ENDORSEMENT - i - 1) as nat,
                );
                let ghost name = producer@;
                block_producers.push(producer);
                assert(block_producers.deep_view() =~= done.push(name));
                assert(done.push(name) + rest =~= done + (seq![name] + rest));
            },
            Err(_) => {
                assert(next_block_producers(
                    epoch_manager,
                    *epoch_id,
                    block_height + i,
                    (NUM_NEXT_BLOCK_PRODUCERS_TO_SEND_CHUNK_ENDORSEMENT - i) as nat,
                ) =~= Seq::<Seq<char>>::empty());
                assert(done + Seq::<Seq<char>>::empty() =~= done);
                return block_producers;
            },
        }
        i += 1;
    }
    assert(block_producers.deep_view() + Seq::<Seq<char>>::empty()
        =~= block_producers.deep_view());
    block_producers
}

/// A validator that is not among the validators assigned to a chunk gets
/// no task for its witness: no runtime, no sender and no chain store takes
/// part in the answer.
pub proof fn lemma_unassigned_validator_is_turned_away<
    C: ChainStoreAccess,
    E: EpochManagerAdapter,
    H: Commitments,
>(
    witness: ChunkStateWitnessView,
    account: Seq<char>,
    store: &C,
    epoch_manager: &E,
    hasher: &H,
)
    requires
        epoch_manager.epoch_id_from_prev_block(witness.chunk_header.prev_block_hash) is Ok,
        epoch_manager.chunk_validator_assignments(
            epoch_manager.epoch_id_from_prev_block(witness.chunk_header.prev_block_hash).unwrap(),
            witness.chunk_header.shard_id,
            witness.chunk_header.height_created,
        ) is Ok,
        epoch_manager.chunk_validator_assignments(
            epoch_manager.epoch_id_from_prev_block(witness.chunk_header.prev_block_hash).unwrap(),
            witness.chunk_header.shard_id,
            witness.chunk_header.height_created,
        ).unwrap().len() > 0,
        !epoch_manager.chunk_validator_assignments(
            epoch_manager.epoch_id_from_prev_block(witness.chunk_header.prev_block_hash).unwrap(),
            witness.chunk_header.shard_id,
            witness.chunk_header.height_created,
        ).unwrap().contains(account),
    ensures
        started(witness, Some(account), store, epoch_manager, hasher) == Err::<
            ChunkValidationTaskView,
            Error,
        >(Error::NotAChunkValidator),
{
}

/// Whether a node that signs as `account` is let through to the
/// pre-validation of the witness.
pub open spec fn admitted_to_validate<E: EpochManagerAdapter>(
    witness: ChunkStateWitnessView,
    account: Seq<char>,
    epoch_manager: &E,
) -> bool {
    match epoch_manager.epoch_id_from_prev_block(witness.chunk_header.prev_block_hash) {
        Err(_) => false,
        Ok(epoch_id) => match epoch_manager.chunk_validator_assignments(
            epoch_id,
            witness.chunk_header.shard_id,
            witness.chunk_header.height_created,
        ) {
            Err(_) => false,
            Ok(assignments) => eligible(assignments, account),
        },
    }
}

/// A witness that declares another hash for the applied receipts than the
/// receipts that the chain reports as incoming hash to is refused as invalid
/// when validation starts: there is no task, so nothing is replayed.
pub proof fn lemma_wrong_receipts_hash_is_refused<
    C: ChainStoreAccess,
    E: EpochManagerAdapter,
    H: Commitments,
>(
    witness: ChunkStateWitnessView,
    account: Seq<char>,
    store: &C,
    epoch_manager: &E,
    hasher: &H,
)
    requires
        admitted_to_validate(witness, account, epoch_manager),
        crate::pre_validation::walk_back(
            store,
            witness.chunk_header.shard_id,
            witness.chunk_header.prev_block_hash,
            0,
            crate::pre_validation::walk_limit(),
        ) is Ok,
        ({
            let walk = crate::pre_validation::walk_back(
                store,
                witness.chunk_header.shard_id,
                witness.chunk_header.prev_block_hash,
                0,
                crate::pre_validation::walk_limit(),
            ).unwrap();
            let incoming = store.incoming_receipts_for_shard(
                witness.chunk_header.shard_id,
                walk.blocks_after_last_chunk.last().header.hash,
                walk.blocks_after_last_last_chunk.last().header.height,
            );
            incoming is Ok && witness.applied_receipts_hash != hasher.receipts_hash(
                crate::pre_validation::receipts_of_responses(incoming.unwrap()),
            )
        }),
    ensures
        ({
            let walk = crate::pre_validation::walk_back(
                store,
                witness.chunk_header.shard_id,
                witness.chunk_header.prev_block_hash,
                0,
                crate::pre_validation::walk_limit(),
            ).unwrap();
            let incoming = store.incoming_receipts_for_shard(
                witness.chunk_header.shard_id,
                walk.blocks_after_last_chunk.last().header.hash,
                walk.blocks_after_last_last_chunk.last().header.height,
            ).unwrap();
            started(witness, Some(account), store, epoch_manager, hasher) == Err::<
                ChunkValidationTaskView,
                Error,
            >(
                Error::InvalidChunkStateWitness(
                    crate::error::WitnessMismatch::ReceiptsHash {
                        actual: hasher.receipts_hash(
                            crate::pre_validation::receipts_of_responses(incoming),
                        ),
                        expected: witness.applied_receipts_hash,
                    },
                ),
            )
        }),
{
}

} // verus!
