//! The pool that parks state witnesses whose parent block is not known yet.
//!
//! Witnesses are kept per chunk producer and shard in a bounded cache, and
//! those caches in a bounded cache of their own, so that no producer and no
//! number of producers can fill the memory. An index by parent block hash
//! tells which witnesses to release when a block arrives. Caches and index
//! change together, in every operation.

use vstd::prelude::*;
use crate::hash::CryptoHash;
use crate::lru_cache::{
    admitted, allocable, distinct_keys, position, producer_caches_cap, producer_caches_entries,
    producer_caches_get_mut, producer_caches_limit, producer_caches_new, producer_caches_pop,
    producer_caches_push, producer_key, promoted, witness_cache_entries,
    witness_cache_into_entries, witness_cache_is_empty, witness_cache_limit, witness_cache_new,
    witness_cache_pop, witness_cache_push, witness_cache_put, ChunkProducerId, ProducerCaches,
    ProducerKey, WitnessCache,
};
use crate::pool_model::{
    cache_well_filed, dropped, filed, forgotten_all, handed_out, lemma_added, lemma_dropped,
    lemma_forgotten_all, lemma_released_all, lemma_taken, lemma_witness_filed, listing, parent_of,
    released_all, well_filed, witness_of, Cached, Caches, PoolView,
};
use crate::primitives::{AccountId, BlockHeight, ChunkStateWitness};
use crate::recency::{
    lemma_position_found, lemma_position_of_entry, lemma_promoted,
};
use crate::waiting_index::{
    clone_producer_id, forgotten, lemma_block_taken, waiters, waits, well_kept, WaitingIndex,
};

verus! {

/// The caches of the producers, each with the witnesses it holds.
pub open spec fn caches_view(entries: Seq<(ProducerKey, WitnessCache)>) -> Caches {
    Seq::new(entries.len(), |i: int| (entries[i].0, witness_cache_entries(entries[i].1)))
}

/// The view has the keys of the entries, at the same places.
proof fn lemma_caches_view_keys(entries: Seq<(ProducerKey, WitnessCache)>, key: ProducerKey)
    requires
        distinct_keys(caches_view(entries)),
    ensures
        distinct_keys(entries),
        position(entries, key) == position(caches_view(entries), key),
{
    let view = caches_view(entries);
    assert forall|i: int, j: int|
        0 <= i < entries.len() && 0 <= j < entries.len() && (#[trigger] entries[i]).0 == (
        #[trigger] entries[j]).0 implies i == j by {
        assert(view[i].0 == view[j].0);
    }
    lemma_position_found(entries, key);
    lemma_position_found(view, key);
    if position(entries, key) >= 0 {
        let at = position(entries, key);
        assert(view[at].0 == key);
        lemma_position_of_entry(view, at);
    } else if position(view, key) >= 0 {
        assert(entries[position(view, key)].0 == key);
    }
}

/// Witnesses that wait for their parent block, bounded per chunk producer and
/// in the number of chunk producers.
pub struct OrphanStateWitnessPool {
    chunk_producer_caches: ProducerCaches,
    chunk_producer_cache_capacity: usize,
    waiting_for_block: WaitingIndex,
}

impl OrphanStateWitnessPool {
    /// The pool as caches in order of use and an index of waiters.
    pub closed spec fn view(&self) -> PoolView {
        PoolView {
            caches: caches_view(producer_caches_entries(self.chunk_producer_caches)),
            producers_limit: producer_caches_limit(self.chunk_producer_caches),
            cache_limit: self.chunk_producer_cache_capacity as nat,
            waiting: self.waiting_for_block@,
        }
    }

    /// Every producer's cache was made with the pool's limit per producer.
    pub closed spec fn caches_share_limit(&self) -> bool {
        forall|i: int|
            0 <= i < producer_caches_entries(self.chunk_producer_caches).len()
                ==> witness_cache_limit(
                (#[trigger] producer_caches_entries(self.chunk_producer_caches)[i]).1,
            ) == self.chunk_producer_cache_capacity
    }

    /// What the pool keeps between calls: caches and index are well formed
    /// and in step.
    pub open spec fn wf(&self) -> bool {
        &&& self@.wf()
        &&& self.caches_share_limit()
        &&& self@.cache_limit <= usize::MAX / 64
    }

    /// An empty pool for `chunk_producers_capacity` producers with
    /// `chunk_producer_cache_capacity` witnesses each. The caches reserve
    /// their room when they are made, so neither number can be beyond what a
    /// cache can be made with.
    pub fn new(chunk_producers_capacity: usize, chunk_producer_cache_capacity: usize) -> (pool:
        OrphanStateWitnessPool)
        requires
            allocable(chunk_producers_capacity),
            allocable(chunk_producer_cache_capacity),
        ensures
            pool.wf(),
            pool@ == (PoolView {
                caches: Seq::empty(),
                producers_limit: chunk_producers_capacity as nat,
                cache_limit: chunk_producer_cache_capacity as nat,
                waiting: Seq::empty(),
            }),
    {
        let pool = OrphanStateWitnessPool {
            chunk_producer_caches: producer_caches_new(chunk_producers_capacity),
            chunk_producer_cache_capacity,
            waiting_for_block: WaitingIndex::new(),
        };
        proof {
            assert(pool@.caches =~= Seq::empty());
            assert forall|hash: CryptoHash, key: ProducerKey, height: BlockHeight|
                !#[trigger] waits(pool@.waiting, hash, (key, height)) && parent_of(
                    pool@.caches,
                    key,
                    height,
                ) is None by {
                lemma_position_found(pool@.waiting, hash);
                lemma_position_found(pool@.caches, key);
            }
        }
        pool
    }

    /// The witness stops waiting for its parent block.
    fn remove_from_waiting_for_block(
        &mut self,
        chunk_producer_id: &ChunkProducerId,
        witness: &ChunkStateWitness,
    )
        requires
            well_kept(old(self).waiting_for_block@),
            waits(
                old(self).waiting_for_block@,
                witness.chunk_header.prev_block_hash,
                (producer_key(*chunk_producer_id), witness.chunk_header.height_created),
            ),
        ensures
            final(self).waiting_for_block@ == forgotten(
                old(self).waiting_for_block@,
                listing(producer_key(*chunk_producer_id), *witness).0,
                listing(producer_key(*chunk_producer_id), *witness).1,
            ),
            final(self).chunk_producer_caches == old(self).chunk_producer_caches,
            final(self).chunk_producer_cache_capacity == old(self).chunk_producer_cache_capacity,
    {
        let block_hash = witness.chunk_header.prev_block_hash();
        let height = witness.chunk_header.height_created();
        self.waiting_for_block.remove(&block_hash, chunk_producer_id, height);
    }

    /// Parks a witness of `chunk_producer` until its parent block is known.
    ///
    /// A pool with a limit of zero keeps nothing. Otherwise the witness is
    /// filed under its producer, shard and chunk height, and waits for the
    /// block it declares as parent. A witness of the same producer, shard and
    /// height gives way to it. If the producer's cache is full its least
    /// recently used witness leaves, and if a new producer finds no room, the
    /// least recently used producer leaves with all its witnesses. Whatever
    /// leaves no longer waits.
    pub fn add_orphan_state_witness(
        &mut self,
        witness: ChunkStateWitness,
        chunk_producer: AccountId,
    )
        requires
            old(self).wf(),
        ensures
            final(self).wf(),
            final(self)@ == old(self)@.added(witness, chunk_producer@),
    {
        let ghost before = self@;
        let ghost entries = producer_caches_entries(self.chunk_producer_caches);
        if producer_caches_cap(&self.chunk_producer_caches) == 0
            || self.chunk_producer_cache_capacity == 0 {
            return ;
        }
        let shard_id = witness.chunk_header.shard_id();
        let height = witness.chunk_header.height_created();
        let prev_block_hash = witness.chunk_header.prev_block_hash();
        let chunk_producer_id = (chunk_producer, shard_id);
        let ghost key = producer_key(chunk_producer_id);
        let ghost filed_witness = witness;
        let ghost listings = dropped(
            before.caches,
            before.producers_limit,
            before.cache_limit,
            key,
            witness,
        );
        let ghost at = position(entries, key);
        proof {
            lemma_caches_view_keys(entries, key);
            lemma_position_found(entries, key);
            lemma_dropped(before.caches, before.producers_limit, before.cache_limit, key, witness);
            assert forall|n: int| 0 <= n < listings.len() implies waits(
                before.waiting,
                (#[trigger] listings[n]).0,
                listings[n].1,
            ) by {
                let l = listings[n];
                assert(listings.contains((l.0, (l.1.0, l.1.1))));
                assert(waits(before.waiting, l.0, (l.1.0, l.1.1)));
            }
        }
        match producer_caches_get_mut(&mut self.chunk_producer_caches, &chunk_producer_id) {
            Some(cache) => {
                let ghost cache_before = witness_cache_entries(*cache);
                assert(cache_before == before.caches[at].1);
                let ejected = witness_cache_push(cache, height, witness);
                let ghost cache_after = witness_cache_entries(*cache);
                let ghost inner = *cache;
                proof {
                    assert(cache_well_filed(before.caches[at], before.cache_limit));
                    lemma_position_found(cache_before, height);
                }
                match ejected {
                    Some(ejected) => {
                        proof {
                            assert(listings =~= seq![listing(key, ejected.1)]);
                            assert(listings[0] == listing(key, ejected.1));
                            assert(listings.drop_last() =~= Seq::empty());
                            assert(forgotten_all(before.waiting, listings.drop_last())
                                == before.waiting);
                        }
                        self.remove_from_waiting_for_block(&chunk_producer_id, &ejected.1);
                    },
                    None => {
                        assert(listings =~= Seq::empty());
                    },
                }
                proof {
                    let now = producer_caches_entries(self.chunk_producer_caches);
                    assert(now == promoted(entries, at, inner));
                    assert(caches_view(now) =~= promoted(before.caches, at, cache_after));
                    assert forall|i: int| 0 <= i < now.len() implies witness_cache_limit(
                        (#[trigger] now[i]).1,
                    ) == self.chunk_producer_cache_capacity by {
                        if i > 0 {
                            assert(now[i] == entries.remove(at)[i - 1]);
                            assert(now[i] == entries[if i - 1 < at {
                                i - 1
                            } else {
                                i
                            }]);
                        }
                    }
                }
            },
            None => {
                let mut new_cache = witness_cache_new(self.chunk_producer_cache_capacity);
                proof {
                    lemma_position_found(witness_cache_entries(new_cache), height);
                }
                witness_cache_put(&mut new_cache, height, witness);
                let ghost fresh: Cached = seq![(height, filed_witness)];
                assert(witness_cache_entries(new_cache) =~= fresh);
                let ejected = producer_caches_push(
                    &mut self.chunk_producer_caches,
                    clone_producer_id(&chunk_producer_id),
                    new_cache,
                );
                proof {
                    let now = producer_caches_entries(self.chunk_producer_caches);
                    assert(now == admitted(entries, before.producers_limit, key, new_cache));
                    assert(caches_view(now) =~= admitted(
                        before.caches,
                        before.producers_limit,
                        key,
                        fresh,
                    ));
                    assert forall|i: int| 0 <= i < now.len() implies witness_cache_limit(
                        (#[trigger] now[i]).1,
                    ) == self.chunk_producer_cache_capacity by {
                        if i > 0 {
                            assert(now[i] == entries[i - 1]);
                        }
                    }
                }
                match ejected {
                    Some(ejected) => {
                        let ejected_id = ejected.0;
                        let ghost last = before.caches.last();
                        assert(last == before.caches[before.caches.len() - 1]);
                        assert(producer_key(ejected_id) == last.0);
                        assert(witness_cache_entries(ejected.1) == last.1);
                        let ejected_entries = witness_cache_into_entries(ejected.1);
                        let mut n: usize = 0;
                        assert(listings.take(0) =~= Seq::empty());
                        while n < ejected_entries.len()
                            invariant
                                n <= ejected_entries.len(),
                                ejected_entries@ == last.1.reverse(),
                                producer_key(ejected_id) == last.0,
                                listings == Seq::new(
                                    last.1.len(),
                                    |n: int| listing(last.0, last.1[last.1.len() - 1 - n].1),
                                ),
                                listings.no_duplicates(),
                                well_kept(before.waiting),
                                forall|n: int|
                                    0 <= n < listings.len() ==> waits(
                                        before.waiting,
                                        (#[trigger] listings[n]).0,
                                        listings[n].1,
                                    ),
                                self.waiting_for_block@ == forgotten_all(
                                    before.waiting,
                                    listings.take(n as int),
                                ),
                                producer_caches_entries(self.chunk_producer_caches) == admitted(
                                    entries,
                                    before.producers_limit,
                                    key,
                                    new_cache,
                                ),
                                producer_caches_limit(self.chunk_producer_caches)
                                    == before.producers_limit,
                                self.chunk_producer_cache_capacity == before.cache_limit,
                            decreases ejected_entries.len() - n,
                        {
                            proof {
                                let done = listings.take(n as int);
                                assert forall|m: int| 0 <= m < done.len() implies waits(
                                    before.waiting,
                                    (#[trigger] done[m]).0,
                                    done[m].1,
                                ) by {
                                    assert(done[m] == listings[m]);
                                }
                                assert forall|a: int, b: int|
                                    0 <= a < done.len() && 0 <= b < done.len() && a
                                        != b implies done[a] != done[b] by {
                                    assert(done[a] == listings[a] && done[b] == listings[b]);
                                }
                                lemma_forgotten_all(before.waiting, done);
                                assert(!done.contains(listings[n as int])) by {
                                    if done.contains(listings[n as int]) {
                                        let a = choose|a: int|
                                            0 <= a < done.len() && done[a] == listings[n as int];
                                        assert(listings[a] == listings[n as int]);
                                    }
                                }
                                assert(waits(
                                    before.waiting,
                                    listings[n as int].0,
                                    listings[n as int].1,
                                ));
                                assert(ejected_entries@[n as int] == last.1[last.1.len() - 1
                                    - n]);
                                assert(listings[n as int] == listing(
                                    last.0,
                                    ejected_entries@[n as int].1,
                                ));
                                let next = listings.take(n + 1);
                                assert(next.drop_last() =~= done);
                                assert(next.last() == listings[n as int]);
                            }
                            self.remove_from_waiting_for_block(&ejected_id, &ejected_entries[n].1);
                            n += 1;
                        }
                        assert(listings.take(listings.len() as int) =~= listings);
                    },
                    None => {
                        assert(listings =~= Seq::empty());
                    },
                }
            },
        }
        proof {
            lemma_forgotten_all(before.waiting, listings);
            lemma_added(before, filed_witness, chunk_producer_id.0@);
        }
        self.waiting_for_block.insert(prev_block_hash, chunk_producer_id, height);
    }

    /// Releases the witnesses that waited for the block `prev_block`, in the
    /// order in which they began to wait. Their producers count as used, and
    /// a producer's cache that is left empty leaves the pool.
    pub fn take_state_witnesses_waiting_for_block(&mut self, prev_block: &CryptoHash) -> (witnesses:
        Vec<ChunkStateWitness>)
        requires
            old(self).wf(),
        ensures
            final(self).wf(),
            final(self)@ == old(self)@.taken(*prev_block),
            witnesses@ == old(self)@.waiting_for(*prev_block),
    {
        let ghost before = self@;
        let mut result: Vec<ChunkStateWitness> = Vec::new();
        let waiting = match self.waiting_for_block.take(prev_block) {
            Some(waiting) => waiting,
            None => {
                return result;
            },
        };
        let ghost at = position(before.waiting, *prev_block);
        let ghost list = before.waiting[at].1;
        proof {
            lemma_taken(before, *prev_block);
            lemma_block_taken(before.waiting, at);
            assert forall|n: int| 0 <= n < list.len() implies witness_of(
                before.caches,
                (#[trigger] list[n]).0,
                list[n].1,
            ) is Some by {
                assert(list.contains(list[n]));
                assert(waits(before.waiting, *prev_block, (list[n].0, list[n].1)));
            }
            assert(list.take(0) =~= Seq::empty());
        }
        let mut n: usize = 0;
        while n < waiting.len()
            invariant
                n <= waiting.len(),
                waiters(waiting@) == list,
                list.no_duplicates(),
                well_filed(before.caches, before.producers_limit, before.cache_limit),
                forall|n: int|
                    0 <= n < list.len() ==> witness_of(
                        before.caches,
                        (#[trigger] list[n]).0,
                        list[n].1,
                    ) is Some,
                self@.caches == released_all(before.caches, list.take(n as int)),
                self@.producers_limit == before.producers_limit,
                self@.cache_limit == before.cache_limit,
                self@.waiting == before.waiting.remove(at),
                self.caches_share_limit(),
                result@ == handed_out(before.caches, list).take(n as int),
            decreases waiting.len() - n,
        {
            let ghost entries = producer_caches_entries(self.chunk_producer_caches);
            let ghost caches = self@.caches;
            let ghost done = list.take(n as int);
            let ghost waiter = list[n as int];
            let id = &waiting[n].0;
            let height = waiting[n].1;
            assert(waiter == (producer_key(*id), height));
            proof {
                assert forall|m: int| 0 <= m < done.len() implies witness_of(
                    before.caches,
                    (#[trigger] done[m]).0,
                    done[m].1,
                ) is Some by {
                    assert(done[m] == list[m]);
                }
                assert forall|a: int, b: int|
                    0 <= a < done.len() && 0 <= b < done.len() && a != b implies done[a]
                    != done[b] by {
                    assert(done[a] == list[a] && done[b] == list[b]);
                }
                lemma_released_all(
                    before.caches,
                    before.producers_limit,
                    before.cache_limit,
                    done,
                );
                assert(!done.contains(waiter)) by {
                    if done.contains(waiter) {
                        let a = choose|a: int| 0 <= a < done.len() && done[a] == waiter;
                        assert(list[a] == list[n as int]);
                    }
                }
                assert(witness_of(caches, waiter.0, waiter.1) == witness_of(
                    before.caches,
                    waiter.0,
                    waiter.1,
                ));
                lemma_witness_filed(
                    caches,
                    before.producers_limit,
                    before.cache_limit,
                    waiter.0,
                    waiter.1,
                );
                lemma_caches_view_keys(entries, waiter.0);
                let next = list.take(n + 1);
                assert(next.drop_last() =~= done);
                assert(next.last() == waiter);
            }
            let ghost place = position(entries, waiter.0);
            let ghost cache_before = caches[place].1;
            let ghost slot = position(cache_before, height);
            let ghost rest = cache_before.remove(slot);
            match producer_caches_get_mut(&mut self.chunk_producer_caches, id) {
                Some(producer_cache) => {
                    let popped = witness_cache_pop(producer_cache, &height);
                    let empty = witness_cache_is_empty(producer_cache);
                    let ghost inner = *producer_cache;
                    proof {
                        let now = producer_caches_entries(self.chunk_producer_caches);
                        assert(now == promoted(entries, place, inner));
                        assert(witness_cache_entries(inner) == rest);
                        assert forall|i: int| 0 <= i < now.len() implies witness_cache_limit(
                            (#[trigger] now[i]).1,
                        ) == self.chunk_producer_cache_capacity by {
                            if i > 0 {
                                assert(now[i] == entries.remove(place)[i - 1]);
                                assert(now[i] == entries[if i - 1 < place {
                                    i - 1
                                } else {
                                    i
                                }]);
                            }
                        }
                        lemma_promoted(entries, place, inner);
                        lemma_position_of_entry(now, 0);
                        if !empty {
                            assert(caches_view(now) =~= promoted(caches, place, rest));
                        }
                    }
                    if empty {
                        let ghost promoted_entries = producer_caches_entries(
                            self.chunk_producer_caches,
                        );
                        producer_caches_pop(&mut self.chunk_producer_caches, id);
                        proof {
                            let now = producer_caches_entries(self.chunk_producer_caches);
                            assert(now == promoted_entries.remove(0));
                            assert(now =~= entries.remove(place));
                            assert(caches_view(now) =~= caches.remove(place));
                            assert forall|i: int| 0 <= i < now.len() implies witness_cache_limit(
                                (#[trigger] now[i]).1,
                            ) == self.chunk_producer_cache_capacity by {
                                assert(now[i] == entries[if i < place {
                                    i
                                } else {
                                    i + 1
                                }]);
                            }
                        }
                    }
                    match popped {
                        Some(witness) => {
                            let ghost old_result = result@;
                            result.push(witness);
                            assert(result@ =~= handed_out(before.caches, list).take(n + 1));
                        },
                        None => {
                            assert(false);
                        },
                    }
                },
                None => {
                    assert(false);
                },
            }
            n += 1;
        }
        proof {
            assert(list.take(list.len() as int) =~= list);
            assert(handed_out(before.caches, list).take(list.len() as int) =~= handed_out(
                before.caches,
                list,
            ));
        }
        result
    }
}

impl Default for OrphanStateWitnessPool {
    /// A pool for 128 chunk producers with 4 witnesses each.
    fn default() -> (pool: OrphanStateWitnessPool)
        ensures
            pool.wf(),
            pool@ == (PoolView {
                caches: Seq::empty(),
                producers_limit: 128,
                cache_limit: 4,
                waiting: Seq::empty(),
            }),
    {
        OrphanStateWitnessPool::new(128, 4)
    }
}

} // verus!
