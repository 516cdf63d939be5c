//! The bounded least-recently-used caches of this crate, which are those of
//! the `lru` crate, and what this crate takes for granted about them.
//!
//! A cache is modelled by its entries in order of use, the most recently used
//! first, and by the limit it was made with. Nothing in this file is proved:
//! each function states what the `lru` crate does.

use vstd::prelude::*;
use lru::LruCache;
use crate::primitives::{AccountId, BlockHeight, ChunkEndorsement, ChunkStateWitness, ShardId};

verus! {

/// `lru::LruCache`, of which this crate sees nothing but what the functions
/// below state.
#[verifier::external_type_specification]
#[verifier::external_body]
#[verifier::reject_recursive_types(K)]
#[verifier::reject_recursive_types(V)]
#[verifier::reject_recursive_types(S)]
pub struct ExLruCache<K, V, S>(LruCache<K, V, S>);

/// `lru::DefaultHasher`, the hasher of a cache made by `LruCache::new`. This
/// crate never touches one.
#[verifier::external_type_specification]
#[verifier::external_body]
pub struct ExDefaultHasher(lru::DefaultHasher);

/// The witnesses of one chunk producer and shard, by the height of their
/// chunk.
pub type WitnessCache = LruCache<BlockHeight, ChunkStateWitness>;

/// A chunk producer and a shard, as a cache key and as its view.
pub type ChunkProducerId = (AccountId, ShardId);

pub type ProducerKey = (Seq<char>, ShardId);

/// The witness caches of all chunk producers.
pub type ProducerCaches = LruCache<ChunkProducerId, WitnessCache>;

/// The endorsements received so far, by the bytes of the chunk hash.
pub type EndorsementCache = LruCache<[u8; 32], Vec<ChunkEndorsement>>;

/// The view of a producer's cache key.
pub open spec fn producer_key(id: ChunkProducerId) -> ProducerKey {
    (id.0@, id.1)
}

/// The limits that a cache can be made with. `LruCache::new` reserves a hash
/// table for `cap` entries at once and panics where the size of that table
/// cannot be expressed; up to this limit it can be, with addresses of 32 or
/// of 64 bits. Whether the memory is there is another matter, which no
/// contract can settle.
pub open spec fn allocable(cap: usize) -> bool {
    cap <= usize::MAX / 64
}

/// The index of the entry under `key`, or -1 if there is none.
pub open spec fn position<K, V>(entries: Seq<(K, V)>, key: K) -> int {
    if exists|i: int| 0 <= i < entries.len() && (#[trigger] entries[i]).0 == key {
        choose|i: int| 0 <= i < entries.len() && (#[trigger] entries[i]).0 == key
    } else {
        -1
    }
}

/// No two entries share a key.
pub open spec fn distinct_keys<K, V>(entries: Seq<(K, V)>) -> bool {
    forall|i: int, j: int|
        0 <= i < entries.len() && 0 <= j < entries.len() && (#[trigger] entries[i]).0 == (
        #[trigger] entries[j]).0 ==> i == j
}

/// What every cache keeps: one entry per key and no more entries than its
/// limit.
pub open spec fn bounded<K, V>(entries: Seq<(K, V)>, limit: nat) -> bool {
    distinct_keys(entries) && entries.len() <= limit
}

/// The entries after the entry at `index` was used again and now holds
/// `value`: it is the first, the others keep their order.
pub open spec fn promoted<K, V>(entries: Seq<(K, V)>, index: int, value: V) -> Seq<(K, V)> {
    seq![(entries[index].0, value)] + entries.remove(index)
}

/// The entries after an entry under a key that was absent came in: it is the
/// first, and the last one left if the cache was full. A cache of limit 0
/// takes nothing.
pub open spec fn admitted<K, V>(entries: Seq<(K, V)>, limit: nat, key: K, value: V) -> Seq<
    (K, V),
> {
    if limit == 0 {
        entries
    } else if entries.len() == limit {
        seq![(key, value)] + entries.drop_last()
    } else {
        seq![(key, value)] + entries
    }
}

/// Whether an entry leaves when another comes in.
pub open spec fn displaces<K, V>(entries: Seq<(K, V)>, limit: nat) -> bool {
    limit > 0 && entries.len() == limit
}

/// The entries of a witness cache, the most recently used first.
pub uninterp spec fn witness_cache_entries(cache: WitnessCache) -> Seq<
    (BlockHeight, ChunkStateWitness),
>;

/// The limit that a witness cache was made with.
pub uninterp spec fn witness_cache_limit(cache: WitnessCache) -> nat;

/// The witness caches of the producers, the most recently used first.
pub uninterp spec fn producer_caches_entries(cache: ProducerCaches) -> Seq<
    (ProducerKey, WitnessCache),
>;

/// The limit that the cache of witness caches was made with.
pub uninterp spec fn producer_caches_limit(cache: ProducerCaches) -> nat;

/// The entries of an endorsement cache, the most recently used first.
pub uninterp spec fn endorsement_cache_entries(cache: EndorsementCache) -> Seq<
    ([u8; 32], Vec<ChunkEndorsement>),
>;

/// The limit that an endorsement cache was made with.
pub uninterp spec fn endorsement_cache_limit(cache: EndorsementCache) -> nat;

/// `LruCache::new`: an empty cache that holds at most `cap` entries. It
/// reserves the room for them at once.
#[verifier::external_body]
pub(crate) fn witness_cache_new(cap: usize) -> (cache: WitnessCache)
    requires
        allocable(cap),
    ensures
        witness_cache_entries(cache) == Seq::<(BlockHeight, ChunkStateWitness)>::empty(),
        witness_cache_limit(cache) == cap,
{
    LruCache::new(cap)
}

/// `LruCache::is_empty`: whether the cache has no entry.
#[verifier::external_body]
pub(crate) fn witness_cache_is_empty(cache: &WitnessCache) -> (empty: bool)
    ensures
        empty == (witness_cache_entries(*cache).len() == 0),
{
    cache.is_empty()
}

/// `LruCache::put`: an entry under a key that is present takes the new value,
/// becomes the most recently used, and the old value comes back. Under an
/// absent key the entry comes in as the most recently used; the least
/// recently used one is dropped if the cache was full.
#[verifier::external_body]
pub(crate) fn witness_cache_put(
    cache: &mut WitnessCache,
    height: BlockHeight,
    witness: ChunkStateWitness,
) -> (old_value: Option<ChunkStateWitness>)
    ensures
        witness_cache_limit(*final(cache)) == witness_cache_limit(*old(cache)),
        ({
            let entries = witness_cache_entries(*old(cache));
            let at = position(entries, height);
            if at >= 0 {
                &&& witness_cache_entries(*final(cache)) == promoted(entries, at, witness)
                &&& old_value == Some(entries[at].1)
            } else {
                &&& witness_cache_entries(*final(cache)) == admitted(
                    entries,
                    witness_cache_limit(*old(cache)),
                    height,
                    witness,
                )
                &&& old_value is None
            }
        }),
{
    cache.put(height, witness)
}

/// `LruCache::push`: as `put`, but what leaves the cache comes back: the
/// entry that was under the key, or the least recently used entry that had to
/// make room.
#[verifier::external_body]
pub(crate) fn witness_cache_push(
    cache: &mut WitnessCache,
    height: BlockHeight,
    witness: ChunkStateWitness,
) -> (ejected: Option<(BlockHeight, ChunkStateWitness)>)
    ensures
        witness_cache_limit(*final(cache)) == witness_cache_limit(*old(cache)),
        ({
            let entries = witness_cache_entries(*old(cache));
            let limit = witness_cache_limit(*old(cache));
            let at = position(entries, height);
            if at >= 0 {
                &&& witness_cache_entries(*final(cache)) == promoted(entries, at, witness)
                &&& ejected == Some((height, entries[at].1))
            } else {
                &&& witness_cache_entries(*final(cache)) == admitted(
                    entries,
                    limit,
                    height,
                    witness,
                )
                &&& ejected == if displaces(entries, limit) {
                    Some(entries.last())
                } else {
                    None
                }
            }
        }),
{
    cache.push(height, witness)
}

/// `LruCache::pop`: the entry under the key leaves the cache and its value
/// comes back; the others keep their order.
#[verifier::external_body]
pub(crate) fn witness_cache_pop(cache: &mut WitnessCache, height: &BlockHeight) -> (value: Option<
    ChunkStateWitness,
>)
    ensures
        witness_cache_limit(*final(cache)) == witness_cache_limit(*old(cache)),
        ({
            let entries = witness_cache_entries(*old(cache));
            let at = position(entries, *height);
            if at >= 0 {
                &&& witness_cache_entries(*final(cache)) == entries.remove(at)
                &&& value == Some(entries[at].1)
            } else {
                &&& witness_cache_entries(*final(cache)) == entries
                &&& value is None
            }
        }),
{
    cache.pop(height)
}

/// `LruCache::into_iter`, collected: all entries, the least recently used
/// first.
#[verifier::external_body]
pub(crate) fn witness_cache_into_entries(cache: WitnessCache) -> (entries: Vec<
    (BlockHeight, ChunkStateWitness),
>)
    ensures
        entries@ == witness_cache_entries(cache).reverse(),
{
    cache.into_iter().collect()
}

/// `LruCache::new`: an empty cache that holds at most `cap` entries. It
/// reserves the room for them at once.
#[verifier::external_body]
pub(crate) fn producer_caches_new(cap: usize) -> (cache: ProducerCaches)
    requires
        allocable(cap),
    ensures
        producer_caches_entries(cache) == Seq::<(ProducerKey, WitnessCache)>::empty(),
        producer_caches_limit(cache) == cap,
{
    LruCache::new(cap)
}

/// `LruCache::cap`: the limit that the cache was made with.
#[verifier::external_body]
pub(crate) fn producer_caches_cap(cache: &ProducerCaches) -> (cap: usize)
    ensures
        cap == producer_caches_limit(*cache),
{
    cache.cap()
}

/// `LruCache::get_mut`: the entry under the key becomes the most recently
/// used, and its value can be changed in place.
#[verifier::external_body]
pub(crate) fn producer_caches_get_mut<'a>(
    cache: &'a mut ProducerCaches,
    id: &ChunkProducerId,
) -> (value: Option<&'a mut WitnessCache>)
    ensures
        producer_caches_limit(*final(cache)) == producer_caches_limit(*old(cache)),
        ({
            let entries = producer_caches_entries(*old(cache));
            let at = position(entries, producer_key(*id));
            match value {
                Some(inner) => {
                    &&& at >= 0
                    &&& *inner == entries[at].1
                    &&& producer_caches_entries(*final(cache)) == promoted(
                        entries,
                        at,
                        *final(inner),
                    )
                },
                None => {
                    &&& at < 0
                    &&& producer_caches_entries(*final(cache)) == entries
                },
            }
        }),
{
    cache.get_mut(id)
}

/// `LruCache::push`: an entry under a key that is present takes the new value,
/// becomes the most recently used, and the old entry comes back. Under an
/// absent key the entry comes in as the most recently used, and the least
/// recently used one comes back if it had to make room.
#[verifier::external_body]
pub(crate) fn producer_caches_push(
    cache: &mut ProducerCaches,
    id: ChunkProducerId,
    value: WitnessCache,
) -> (ejected: Option<(ChunkProducerId, WitnessCache)>)
    ensures
        producer_caches_limit(*final(cache)) == producer_caches_limit(*old(cache)),
        ({
            let entries = producer_caches_entries(*old(cache));
            let limit = producer_caches_limit(*old(cache));
            let at = position(entries, producer_key(id));
            if at >= 0 {
                &&& producer_caches_entries(*final(cache)) == promoted(entries, at, value)
                &&& ejected is Some
                &&& producer_key(ejected.unwrap().0) == producer_key(id)
                &&& ejected.unwrap().1 == entries[at].1
            } else {
                &&& producer_caches_entries(*final(cache)) == admitted(
                    entries,
                    limit,
                    producer_key(id),
                    value,
                )
                &&& ejected is Some == displaces(entries, limit)
                &&& ejected is Some ==> producer_key(ejected.unwrap().0) == entries.last().0
                    && ejected.unwrap().1 == entries.last().1
            }
        }),
{
    cache.push(id, value)
}

/// `LruCache::pop`: the entry under the key leaves the cache and its value
/// comes back; the others keep their order.
#[verifier::external_body]
pub(crate) fn producer_caches_pop(cache: &mut ProducerCaches, id: &ChunkProducerId) -> (value:
    Option<WitnessCache>)
    ensures
        producer_caches_limit(*final(cache)) == producer_caches_limit(*old(cache)),
        ({
            let entries = producer_caches_entries(*old(cache));
            let at = position(entries, producer_key(*id));
            if at >= 0 {
                &&& producer_caches_entries(*final(cache)) == entries.remove(at)
                &&& value == Some(entries[at].1)
            } else {
                &&& producer_caches_entries(*final(cache)) == entries
                &&& value is None
            }
        }),
{
    cache.pop(id)
}

/// What a chunk's entry holds when it is made: no endorsement yet.
pub fn no_endorsements() -> (list: Vec<ChunkEndorsement>)
    ensures
        list@.len() == 0,
{
    Vec::new()
}

/// `LruCache::new`: an empty cache that holds at most `cap` entries. It
/// reserves the room for them at once.
#[verifier::external_body]
pub(crate) fn endorsement_cache_new(cap: usize) -> (cache: EndorsementCache)
    requires
        allocable(cap),
    ensures
        endorsement_cache_entries(cache) == Seq::<([u8; 32], Vec<ChunkEndorsement>)>::empty(),
        endorsement_cache_limit(cache) == cap,
{
    LruCache::new(cap)
}

/// `LruCache::peek`: the value under the key, and no change to the order of
/// use.
#[verifier::external_body]
pub(crate) fn endorsement_cache_peek<'a>(cache: &'a EndorsementCache, key: &[u8; 32]) -> (value:
    Option<&'a Vec<ChunkEndorsement>>)
    ensures
        ({
            let entries = endorsement_cache_entries(*cache);
            let at = position(entries, *key);
            match value {
                Some(list) => at >= 0 && *list == entries[at].1,
                None => at < 0,
            }
        }),
{
    cache.peek(key)
}

/// `LruCache::get`: the value under the key, whose entry becomes the most
/// recently used.
#[verifier::external_body]
pub(crate) fn endorsement_cache_get<'a>(cache: &'a mut EndorsementCache, key: &[u8; 32]) -> (value:
    Option<&'a Vec<ChunkEndorsement>>)
    ensures
        endorsement_cache_limit(*final(cache)) == endorsement_cache_limit(*old(cache)),
        ({
            let entries = endorsement_cache_entries(*old(cache));
            let at = position(entries, *key);
            match value {
                Some(list) => {
                    &&& at >= 0
                    &&& *list == entries[at].1
                    &&& endorsement_cache_entries(*final(cache)) == promoted(
                        entries,
                        at,
                        entries[at].1,
                    )
                },
                None => at < 0 && endorsement_cache_entries(*final(cache)) == entries,
            }
        }),
{
    cache.get(key)
}

/// `LruCache::get_or_insert`: the entry under the key becomes the most
/// recently used; if there was none, one is made with what `no_endorsements`
/// gives, at the cost of the least recently used entry if the cache is full.
/// Only a cache of limit 0 has no entry to return.
#[verifier::external_body]
pub(crate) fn endorsement_cache_get_or_insert<'a>(
    cache: &'a mut EndorsementCache,
    key: [u8; 32],
) -> (value: Option<&'a Vec<ChunkEndorsement>>)
    ensures
        endorsement_cache_limit(*final(cache)) == endorsement_cache_limit(*old(cache)),
        ({
            let entries = endorsement_cache_entries(*old(cache));
            let limit = endorsement_cache_limit(*old(cache));
            let after = endorsement_cache_entries(*final(cache));
            let at = position(entries, key);
            if at >= 0 {
                after == promoted(entries, at, entries[at].1) && value == Some(&entries[at].1)
            } else if limit == 0 {
                after == entries && value is None
            } else {
                &&& value is Some
                &&& value.unwrap()@.len() == 0
                &&& after == admitted(entries, limit, key, *value.unwrap())
            }
        }),
{
    cache.get_or_insert(key, no_endorsements)
}

/// `LruCache::get_mut`: the entry under the key becomes the most recently
/// used, and its value can be changed in place.
#[verifier::external_body]
pub(crate) fn endorsement_cache_get_mut<'a>(cache: &'a mut EndorsementCache, key: &[u8; 32]) -> (value:
    Option<&'a mut Vec<ChunkEndorsement>>)
    ensures
        endorsement_cache_limit(*final(cache)) == endorsement_cache_limit(*old(cache)),
        ({
            let entries = endorsement_cache_entries(*old(cache));
            let at = position(entries, *key);
            match value {
                Some(list) => {
                    &&& at >= 0
                    &&& *list == entries[at].1
                    &&& endorsement_cache_entries(*final(cache)) == promoted(
                        entries,
                        at,
                        *final(list),
                    )
                },
                None => at < 0 && endorsement_cache_entries(*final(cache)) == entries,
            }
        }),
{
    cache.get_mut(key)
}

} // verus!
