//! The orphan witness pool as a mathematical object: the witness caches of
//! the chunk producers in order of use, the index of who waits for which
//! block, and what filing and releasing a witness does to both. The two are
//! in step when each cached witness waits for exactly the block it declares
//! as its parent, and nothing else waits.

use vstd::prelude::*;
use crate::hash::CryptoHash;
use crate::lru_cache::{
    admitted, bounded, displaces, distinct_keys, position, promoted, ProducerKey,
};
use crate::primitives::{BlockHeight, ChunkStateWitness};
use crate::recency::{
    contents, lemma_admitted, lemma_contents_of_entry, lemma_position_found,
    lemma_promoted, lemma_put_first, lemma_removed,
};
use crate::waiting_index::{
    forgotten, lemma_block_taken, lemma_forgotten, lemma_registered, registered, waits,
    well_kept, Waiter, Waiting,
};

verus! {

/// The witnesses of one producer and shard by chunk height, the most recently
/// used first.
pub type Cached = Seq<(BlockHeight, ChunkStateWitness)>;

/// The caches of all producers, the most recently used first.
pub type Caches = Seq<(ProducerKey, Cached)>;

/// The pool: its caches, their limits, and who waits for which block.
pub struct PoolView {
    pub caches: Caches,
    pub producers_limit: nat,
    pub cache_limit: nat,
    pub waiting: Waiting,
}

/// The witness cached for a producer, shard and chunk height.
pub open spec fn witness_of(caches: Caches, key: ProducerKey, height: BlockHeight) -> Option<
    ChunkStateWitness,
> {
    let by_producer = contents(caches);
    if by_producer.contains_key(key) && contents(by_producer[key]).contains_key(height) {
        Some(contents(by_producer[key])[height])
    } else {
        None
    }
}

/// The parent block that the cached witness declares.
pub open spec fn parent_of(caches: Caches, key: ProducerKey, height: BlockHeight) -> Option<
    CryptoHash,
> {
    match witness_of(caches, key, height) {
        Some(witness) => Some(witness.chunk_header.prev_block_hash),
        None => None,
    }
}

/// A witness is filed under its own shard and chunk height.
pub open spec fn filed_under(key: ProducerKey, entry: (BlockHeight, ChunkStateWitness)) -> bool {
    entry.1.chunk_header.shard_id == key.1 && entry.1.chunk_header.height_created == entry.0
}

/// One cache of a well-filed pool: within its limit, not empty, every witness
/// under its own height and shard.
pub open spec fn cache_well_filed(cache: (ProducerKey, Cached), cache_limit: nat) -> bool {
    &&& bounded(cache.1, cache_limit)
    &&& cache.1.len() > 0
    &&& forall|j: int| 0 <= j < cache.1.len() ==> filed_under(cache.0, #[trigger] cache.1[j])
}

/// Each producer has one cache, within the limits.
pub open spec fn well_filed(caches: Caches, producers_limit: nat, cache_limit: nat) -> bool {
    &&& bounded(caches, producers_limit)
    &&& forall|i: int|
        0 <= i < caches.len() ==> cache_well_filed(#[trigger] caches[i], cache_limit)
}

/// The index lists a waiter under a block exactly when the caches hold a
/// witness for that producer, shard and height which declares that block as
/// its parent.
pub open spec fn in_step(caches: Caches, waiting: Waiting) -> bool {
    forall|hash: CryptoHash, key: ProducerKey, height: BlockHeight| #[trigger]
        waits(waiting, hash, (key, height)) <==> parent_of(caches, key, height) == Some(hash)
}

impl PoolView {
    /// What every pool keeps.
    pub open spec fn wf(self) -> bool {
        &&& well_filed(self.caches, self.producers_limit, self.cache_limit)
        &&& well_kept(self.waiting)
        &&& in_step(self.caches, self.waiting)
    }

    /// The cached witness for a producer, shard and chunk height.
    pub open spec fn witness(self, key: ProducerKey, height: BlockHeight) -> Option<
        ChunkStateWitness,
    > {
        witness_of(self.caches, key, height)
    }

    /// Whether a witness for the producer, shard and height waits for `hash`.
    pub open spec fn waits_for(self, hash: CryptoHash, key: ProducerKey, height: BlockHeight) -> bool {
        waits(self.waiting, hash, (key, height))
    }

    /// The key that a witness of `producer` is filed under.
    pub open spec fn key_of(producer: Seq<char>, witness: ChunkStateWitness) -> ProducerKey {
        (producer, witness.chunk_header.shard_id)
    }

    /// The pool after a witness of `producer` was added.
    pub open spec fn added(self, witness: ChunkStateWitness, producer: Seq<char>) -> PoolView {
        if self.producers_limit == 0 || self.cache_limit == 0 {
            self
        } else {
            let key = Self::key_of(producer, witness);
            PoolView {
                caches: filed(self.caches, self.producers_limit, self.cache_limit, key, witness),
                waiting: registered(
                    forgotten_all(
                        self.waiting,
                        dropped(self.caches, self.producers_limit, self.cache_limit, key, witness),
                    ),
                    witness.chunk_header.prev_block_hash,
                    (key, witness.chunk_header.height_created),
                ),
                ..self
            }
        }
    }

    /// The pool after the witnesses that waited for `hash` were taken.
    pub open spec fn taken(self, hash: CryptoHash) -> PoolView {
        let at = position(self.waiting, hash);
        if at < 0 {
            self
        } else {
            PoolView {
                caches: released_all(self.caches, self.waiting[at].1),
                waiting: self.waiting.remove(at),
                ..self
            }
        }
    }

    /// The witnesses that wait for `hash`, in the order in which they began to
    /// wait.
    pub open spec fn waiting_for(self, hash: CryptoHash) -> Seq<ChunkStateWitness> {
        let at = position(self.waiting, hash);
        if at < 0 {
            Seq::empty()
        } else {
            handed_out(self.caches, self.waiting[at].1)
        }
    }
}

/// The caches after `witness` was filed under `key`. A producer that has a
/// cache is used again, and the witness takes the place of one of the same
/// height or comes in, at the cost of the least recently used witness if the
/// cache is full. A producer without a cache gets one, at the cost of the
/// least recently used producer if there is no room.
pub open spec fn filed(
    caches: Caches,
    producers_limit: nat,
    cache_limit: nat,
    key: ProducerKey,
    witness: ChunkStateWitness,
) -> Caches {
    let height = witness.chunk_header.height_created;
    let at = position(caches, key);
    if at >= 0 {
        let cache = caches[at].1;
        let slot = position(cache, height);
        promoted(
            caches,
            at,
            if slot >= 0 {
                promoted(cache, slot, witness)
            } else {
                admitted(cache, cache_limit, height, witness)
            },
        )
    } else {
        admitted(caches, producers_limit, key, seq![(height, witness)])
    }
}

/// The block and the waiter under which a cached witness is listed.
pub open spec fn listing(key: ProducerKey, witness: ChunkStateWitness) -> (CryptoHash, Waiter) {
    (witness.chunk_header.prev_block_hash, (key, witness.chunk_header.height_created))
}

/// The listings of the witnesses that leave the caches when `witness` is
/// filed under `key`, in the order in which they are forgotten: the witness
/// it replaces, or the one that makes room for it, or all witnesses of the
/// producer that makes room, the least recently used first.
pub open spec fn dropped(
    caches: Caches,
    producers_limit: nat,
    cache_limit: nat,
    key: ProducerKey,
    witness: ChunkStateWitness,
) -> Seq<(CryptoHash, Waiter)> {
    let height = witness.chunk_header.height_created;
    let at = position(caches, key);
    if at >= 0 {
        let cache = caches[at].1;
        let slot = position(cache, height);
        if slot >= 0 {
            seq![listing(key, cache[slot].1)]
        } else if displaces(cache, cache_limit) {
            seq![listing(key, cache.last().1)]
        } else {
            Seq::empty()
        }
    } else if displaces(caches, producers_limit) {
        let last = caches.last();
        Seq::new(last.1.len(), |n: int| listing(last.0, last.1[last.1.len() - 1 - n].1))
    } else {
        Seq::empty()
    }
}

/// The index after each listing in turn was forgotten.
pub open spec fn forgotten_all(waiting: Waiting, listings: Seq<(CryptoHash, Waiter)>) -> Waiting
    decreases listings.len(),
{
    if listings.len() == 0 {
        waiting
    } else {
        forgotten(
            forgotten_all(waiting, listings.drop_last()),
            listings.last().0,
            listings.last().1,
        )
    }
}

/// The caches after the witness of `waiter` left: its producer was used
/// again, and a cache that is left empty leaves with it.
pub open spec fn released(caches: Caches, waiter: Waiter) -> Caches {
    let at = position(caches, waiter.0);
    let rest = caches[at].1.remove(position(caches[at].1, waiter.1));
    if rest.len() == 0 {
        caches.remove(at)
    } else {
        promoted(caches, at, rest)
    }
}

/// The caches after the witness of each waiter in turn left.
pub open spec fn released_all(caches: Caches, waiters: Seq<Waiter>) -> Caches
    decreases waiters.len(),
{
    if waiters.len() == 0 {
        caches
    } else {
        released(released_all(caches, waiters.drop_last()), waiters.last())
    }
}

/// The cached witnesses of the waiters, in their order.
pub open spec fn handed_out(caches: Caches, waiters: Seq<Waiter>) -> Seq<ChunkStateWitness> {
    Seq::new(waiters.len(), |n: int| witness_of(caches, waiters[n].0, waiters[n].1).unwrap())
}

/// Whether the witness for `k` and `h` leaves the caches when `witness` is
/// filed under `key`.
pub open spec fn leaves(
    caches: Caches,
    producers_limit: nat,
    cache_limit: nat,
    key: ProducerKey,
    witness: ChunkStateWitness,
    k: ProducerKey,
    h: BlockHeight,
) -> bool {
    let height = witness.chunk_header.height_created;
    let at = position(caches, key);
    if at >= 0 {
        let cache = caches[at].1;
        if position(cache, height) >= 0 {
            k == key && h == height
        } else {
            displaces(cache, cache_limit) && k == key && h == cache.last().0
        }
    } else {
        displaces(caches, producers_limit) && k == caches.last().0 && witness_of(caches, k, h)
            is Some
    }
}

/// What a lookup finds in well-filed caches is filed under its own key.
pub proof fn lemma_witness_filed(
    caches: Caches,
    producers_limit: nat,
    cache_limit: nat,
    key: ProducerKey,
    height: BlockHeight,
)
    requires
        well_filed(caches, producers_limit, cache_limit),
        witness_of(caches, key, height) is Some,
    ensures
        filed_under(key, (height, witness_of(caches, key, height).unwrap())),
        position(caches, key) >= 0,
        position(caches[position(caches, key)].1, height) >= 0,
        witness_of(caches, key, height).unwrap() == caches[position(caches, key)].1[position(
            caches[position(caches, key)].1,
            height,
        )].1,
{
    lemma_position_found(caches, key);
    let at = position(caches, key);
    assert(cache_well_filed(caches[at], cache_limit));
    lemma_position_found(caches[at].1, height);
}

/// Filing a witness: the caches stay well filed; the witness is found under
/// its key and height; what leaves is no longer found; every other lookup
/// finds what it found before.
pub proof fn lemma_filed(
    caches: Caches,
    producers_limit: nat,
    cache_limit: nat,
    key: ProducerKey,
    witness: ChunkStateWitness,
)
    requires
        well_filed(caches, producers_limit, cache_limit),
        producers_limit > 0,
        cache_limit > 0,
        key.1 == witness.chunk_header.shard_id,
    ensures
        well_filed(
            filed(caches, producers_limit, cache_limit, key, witness),
            producers_limit,
            cache_limit,
        ),
        forall|k: ProducerKey, h: BlockHeight| #[trigger]
            witness_of(filed(caches, producers_limit, cache_limit, key, witness), k, h) == if k
                == key && h == witness.chunk_header.height_created {
                Some(witness)
            } else if leaves(caches, producers_limit, cache_limit, key, witness, k, h) {
                None
            } else {
                witness_of(caches, k, h)
            },
{
    let height = witness.chunk_header.height_created;
    let at = position(caches, key);
    let after = filed(caches, producers_limit, cache_limit, key, witness);
    lemma_position_found(caches, key);
    if at >= 0 {
        let cache = caches[at].1;
        let slot = position(cache, height);
        assert(cache_well_filed(caches[at], cache_limit));
        lemma_position_found(cache, height);
        let cache_after = if slot >= 0 {
            promoted(cache, slot, witness)
        } else {
            admitted(cache, cache_limit, height, witness)
        };
        if slot >= 0 {
            lemma_promoted(cache, slot, witness);
        } else {
            lemma_admitted(cache, cache_limit, height, witness);
            if displaces(cache, cache_limit) {
                lemma_contents_of_entry(cache, cache.len() - 1);
            }
        }
        lemma_promoted(caches, at, cache_after);
        assert(after[0] == (key, cache_after));
        assert forall|i: int| 0 <= i < after.len() implies cache_well_filed(
            #[trigger] after[i],
            cache_limit,
        ) by {
            if i == 0 {
                assert forall|j: int| 0 <= j < cache_after.len() implies filed_under(
                    key,
                    #[trigger] cache_after[j],
                ) by {
                    if j > 0 {
                        if slot >= 0 {
                            assert(cache_after[j] == cache.remove(slot)[j - 1]);
                            assert(filed_under(
                                key,
                                cache[if j - 1 < slot {
                                    j - 1
                                } else {
                                    j
                                }],
                            ));
                        } else if displaces(cache, cache_limit) {
                            assert(cache_after[j] == cache.drop_last()[j - 1]);
                            assert(filed_under(key, cache[j - 1]));
                        } else {
                            assert(cache_after[j] == cache[j - 1]);
                            assert(filed_under(key, cache[j - 1]));
                        }
                    }
                }
            } else {
                assert(after[i] == caches.remove(at)[i - 1]);
                assert(after[i] == caches[if i - 1 < at {
                    i - 1
                } else {
                    i
                }]);
            }
        }
        assert forall|k: ProducerKey, h: BlockHeight| #[trigger]
            witness_of(after, k, h) == if k == key && h == height {
                Some(witness)
            } else if leaves(caches, producers_limit, cache_limit, key, witness, k, h) {
                None
            } else {
                witness_of(caches, k, h)
            } by {
            lemma_contents_of_entry(caches, at);
        }
    } else {
        let fresh: Cached = seq![(height, witness)];
        lemma_admitted(caches, producers_limit, key, fresh);
        assert(fresh[0] == (height, witness));
        assert(distinct_keys(fresh));
        lemma_put_first(Seq::<(BlockHeight, ChunkStateWitness)>::empty(), height, witness);
        assert(fresh =~= seq![(height, witness)] + Seq::<
            (BlockHeight, ChunkStateWitness),
        >::empty());
        assert(after[0] == (key, fresh));
        assert forall|i: int| 0 <= i < after.len() implies cache_well_filed(
            #[trigger] after[i],
            cache_limit,
        ) by {
            if i > 0 {
                assert(after[i] == caches[i - 1]);
            }
        }
        if displaces(caches, producers_limit) {
            lemma_contents_of_entry(caches, caches.len() - 1);
        }
        assert forall|k: ProducerKey, h: BlockHeight| #[trigger]
            witness_of(after, k, h) == if k == key && h == height {
                Some(witness)
            } else if leaves(caches, producers_limit, cache_limit, key, witness, k, h) {
                None
            } else {
                witness_of(caches, k, h)
            } by {
            lemma_position_found(fresh, h);
            if k == key {
                assert(contents(after)[key] == fresh);
                if h != height {
                    assert(!contents(fresh).contains_key(h));
                }
            }
        }
    }
}

/// What is dropped when a witness is filed: each listing is that of a witness
/// which leaves the caches, none comes twice, and every witness that leaves
/// is listed.
pub proof fn lemma_dropped(
    caches: Caches,
    producers_limit: nat,
    cache_limit: nat,
    key: ProducerKey,
    witness: ChunkStateWitness,
)
    requires
        well_filed(caches, producers_limit, cache_limit),
    ensures
        dropped(caches, producers_limit, cache_limit, key, witness).no_duplicates(),
        forall|hash: CryptoHash, k: ProducerKey, h: BlockHeight| #[trigger]
            dropped(caches, producers_limit, cache_limit, key, witness).contains((hash, (k, h)))
                <==> (leaves(caches, producers_limit, cache_limit, key, witness, k, h)
                && parent_of(caches, k, h) == Some(hash)),
{
    let height = witness.chunk_header.height_created;
    let at = position(caches, key);
    let list = dropped(caches, producers_limit, cache_limit, key, witness);
    lemma_position_found(caches, key);
    if at >= 0 {
        let cache = caches[at].1;
        let slot = position(cache, height);
        assert(cache_well_filed(caches[at], cache_limit));
        lemma_position_found(cache, height);
        lemma_contents_of_entry(caches, at);
        if slot >= 0 {
            assert(filed_under(key, cache[slot]));
            lemma_contents_of_entry(cache, slot);
            assert(list[0] == listing(key, cache[slot].1));
        } else if displaces(cache, cache_limit) {
            assert(filed_under(key, cache[cache.len() - 1]));
            lemma_contents_of_entry(cache, cache.len() - 1);
            assert(list[0] == listing(key, cache.last().1));
        } else {
        }
    } else if displaces(caches, producers_limit) {
        let last = caches.last();
        let n = last.1.len() as int;
        assert(cache_well_filed(caches[caches.len() - 1], cache_limit));
        lemma_contents_of_entry(caches, caches.len() - 1);
        assert forall|a: int, b: int| 0 <= a < list.len() && 0 <= b < list.len() && a != b implies list[a]
            != list[b] by {
            assert(filed_under(last.0, last.1[n - 1 - a]));
            assert(filed_under(last.0, last.1[n - 1 - b]));
        }
        assert forall|hash: CryptoHash, k: ProducerKey, h: BlockHeight| #[trigger]
            list.contains((hash, (k, h))) <==> (leaves(
                caches,
                producers_limit,
                cache_limit,
                key,
                witness,
                k,
                h,
            ) && parent_of(caches, k, h) == Some(hash)) by {
            if list.contains((hash, (k, h))) {
                let a = choose|a: int| 0 <= a < list.len() && list[a] == (hash, (k, h));
                assert(filed_under(last.0, last.1[n - 1 - a]));
                lemma_contents_of_entry(last.1, n - 1 - a);
            }
            if k == last.0 && witness_of(caches, k, h) is Some && parent_of(caches, k, h) == Some(
                hash,
            ) {
                lemma_position_found(last.1, h);
                let j = position(last.1, h);
                assert(filed_under(last.0, last.1[j]));
                assert(list[n - 1 - j] == (hash, (k, h)));
            }
        }
    } else {
    }
}

/// Forgetting listings that wait, each once: exactly the others still wait.
pub proof fn lemma_forgotten_all(waiting: Waiting, listings: Seq<(CryptoHash, Waiter)>)
    requires
        well_kept(waiting),
        listings.no_duplicates(),
        forall|n: int|
            0 <= n < listings.len() ==> waits(
                waiting,
                (#[trigger] listings[n]).0,
                listings[n].1,
            ),
    ensures
        well_kept(forgotten_all(waiting, listings)),
        forall|h: CryptoHash, w: Waiter| #[trigger]
            waits(forgotten_all(waiting, listings), h, w) <==> (waits(waiting, h, w)
                && !listings.contains((h, w))),
    decreases listings.len(),
{
    if listings.len() == 0 {
    } else {
        let front = listings.drop_last();
        let last = listings.last();
        assert forall|n: int| 0 <= n < front.len() implies waits(
            waiting,
            (#[trigger] front[n]).0,
            front[n].1,
        ) by {
            assert(front[n] == listings[n]);
        }
        assert forall|a: int, b: int| 0 <= a < front.len() && 0 <= b < front.len() && a != b implies front[a]
            != front[b] by {
            assert(front[a] == listings[a] && front[b] == listings[b]);
        }
        lemma_forgotten_all(waiting, front);
        let mid = forgotten_all(waiting, front);
        assert(!front.contains(last)) by {
            if front.contains(last) {
                let a = choose|a: int| 0 <= a < front.len() && front[a] == last;
                assert(listings[a] == listings[listings.len() - 1]);
            }
        }
        assert(waits(waiting, listings[listings.len() - 1].0, listings[listings.len() - 1].1));
        assert(waits(mid, last.0, last.1));
        lemma_forgotten(mid, last.0, last.1);
        assert forall|h: CryptoHash, w: Waiter| #[trigger]
            waits(forgotten_all(waiting, listings), h, w) <==> (waits(waiting, h, w)
                && !listings.contains((h, w))) by {
            assert(waits(mid, h, w) <==> (waits(waiting, h, w) && !front.contains((h, w))));
            if front.contains((h, w)) {
                let a = choose|a: int| 0 <= a < front.len() && front[a] == (h, w);
                assert(listings[a] == (h, w));
            }
            if listings.contains((h, w)) && (h, w) != last {
                let a = choose|a: int| 0 <= a < listings.len() && listings[a] == (h, w);
                assert(front[a] == (h, w));
            }
            assert(listings[listings.len() - 1] == last);
        }
    }
}

/// Adding a witness keeps the pool in step.
pub proof fn lemma_added(view: PoolView, witness: ChunkStateWitness, producer: Seq<char>)
    requires
        view.wf(),
    ensures
        view.added(witness, producer).wf(),
{
    if view.producers_limit == 0 || view.cache_limit == 0 {
    } else {
        let key = PoolView::key_of(producer, witness);
        let height = witness.chunk_header.height_created;
        let parent = witness.chunk_header.prev_block_hash;
        let listings = dropped(view.caches, view.producers_limit, view.cache_limit, key, witness);
        lemma_filed(view.caches, view.producers_limit, view.cache_limit, key, witness);
        lemma_dropped(view.caches, view.producers_limit, view.cache_limit, key, witness);
        assert forall|n: int| 0 <= n < listings.len() implies waits(
            view.waiting,
            (#[trigger] listings[n]).0,
            listings[n].1,
        ) by {
            let l = listings[n];
            assert(listings.contains((l.0, (l.1.0, l.1.1))));
            assert(waits(view.waiting, l.0, (l.1.0, l.1.1)));
        }
        lemma_forgotten_all(view.waiting, listings);
        let mid = forgotten_all(view.waiting, listings);
        lemma_registered(mid, parent, (key, height));
        let after = view.added(witness, producer);
        assert forall|hash: CryptoHash, k: ProducerKey, h: BlockHeight| #[trigger]
            waits(after.waiting, hash, (k, h)) <==> parent_of(after.caches, k, h) == Some(
                hash,
            ) by {
            assert(waits(after.waiting, hash, (k, h)) <==> (waits(mid, hash, (k, h)) || (hash
                == parent && (k, h) == (key, height))));
            assert(waits(mid, hash, (k, h)) <==> (waits(view.waiting, hash, (k, h))
                && !listings.contains((hash, (k, h)))));
            assert(waits(view.waiting, hash, (k, h)) <==> parent_of(view.caches, k, h) == Some(
                hash,
            ));
            assert(witness_of(after.caches, k, h) == if k == key && h == height {
                Some(witness)
            } else if leaves(
                view.caches,
                view.producers_limit,
                view.cache_limit,
                key,
                witness,
                k,
                h,
            ) {
                None
            } else {
                witness_of(view.caches, k, h)
            });
            if k == key && h == height {
                if witness_of(view.caches, key, height) is Some {
                    lemma_witness_filed(
                        view.caches,
                        view.producers_limit,
                        view.cache_limit,
                        key,
                        height,
                    );
                    assert(leaves(
                        view.caches,
                        view.producers_limit,
                        view.cache_limit,
                        key,
                        witness,
                        k,
                        h,
                    ));
                }
            }
        }
    }
}

/// Releasing a cached witness: the caches stay well filed, the witness is no
/// longer found, and every other lookup finds what it found before.
pub proof fn lemma_released(
    caches: Caches,
    producers_limit: nat,
    cache_limit: nat,
    waiter: Waiter,
)
    requires
        well_filed(caches, producers_limit, cache_limit),
        witness_of(caches, waiter.0, waiter.1) is Some,
    ensures
        well_filed(released(caches, waiter), producers_limit, cache_limit),
        forall|k: ProducerKey, h: BlockHeight| #[trigger]
            witness_of(released(caches, waiter), k, h) == if (k, h) == waiter {
                None
            } else {
                witness_of(caches, k, h)
            },
{
    lemma_witness_filed(caches, producers_limit, cache_limit, waiter.0, waiter.1);
    let at = position(caches, waiter.0);
    let cache = caches[at].1;
    let slot = position(cache, waiter.1);
    let rest = cache.remove(slot);
    let after = released(caches, waiter);
    lemma_position_found(caches, waiter.0);
    lemma_position_found(cache, waiter.1);
    assert(cache_well_filed(caches[at], cache_limit));
    lemma_removed(cache, slot);
    lemma_contents_of_entry(caches, at);
    assert forall|j: int| 0 <= j < rest.len() implies filed_under(
        waiter.0,
        #[trigger] rest[j],
    ) by {
        assert(rest[j] == cache[if j < slot {
            j
        } else {
            j + 1
        }]);
    }
    if rest.len() == 0 {
        lemma_removed(caches, at);
        assert forall|i: int| 0 <= i < after.len() implies cache_well_filed(
            #[trigger] after[i],
            cache_limit,
        ) by {
            assert(after[i] == caches[if i < at {
                i
            } else {
                i + 1
            }]);
        }
        assert forall|k: ProducerKey, h: BlockHeight| #[trigger]
            witness_of(after, k, h) == if (k, h) == waiter {
                None
            } else {
                witness_of(caches, k, h)
            } by {
            if k == waiter.0 && h != waiter.1 {
                lemma_position_found(cache, h);
                if position(cache, h) >= 0 {
                    let j = position(cache, h);
                    assert(rest[if j < slot {
                        j
                    } else {
                        j - 1
                    }] == cache[j]);
                }
            }
        }
    } else {
        lemma_promoted(caches, at, rest);
        assert(after[0] == (waiter.0, rest));
        assert forall|i: int| 0 <= i < after.len() implies cache_well_filed(
            #[trigger] after[i],
            cache_limit,
        ) by {
            if i > 0 {
                assert(after[i] == caches.remove(at)[i - 1]);
                assert(after[i] == caches[if i - 1 < at {
                    i - 1
                } else {
                    i
                }]);
            }
        }
    }
}

/// Releasing several cached witnesses, each once: the caches stay well filed,
/// none of them is found any more, and every other lookup finds what it found
/// before.
pub proof fn lemma_released_all(
    caches: Caches,
    producers_limit: nat,
    cache_limit: nat,
    waiters: Seq<Waiter>,
)
    requires
        well_filed(caches, producers_limit, cache_limit),
        waiters.no_duplicates(),
        forall|n: int|
            0 <= n < waiters.len() ==> witness_of(caches, (#[trigger] waiters[n]).0, waiters[n].1)
                is Some,
    ensures
        well_filed(released_all(caches, waiters), producers_limit, cache_limit),
        forall|k: ProducerKey, h: BlockHeight| #[trigger]
            witness_of(released_all(caches, waiters), k, h) == if waiters.contains((k, h)) {
                None
            } else {
                witness_of(caches, k, h)
            },
    decreases waiters.len(),
{
    if waiters.len() == 0 {
    } else {
        let front = waiters.drop_last();
        let last = waiters.last();
        assert forall|n: int| 0 <= n < front.len() implies witness_of(
            caches,
            (#[trigger] front[n]).0,
            front[n].1,
        ) is Some by {
            assert(front[n] == waiters[n]);
        }
        assert forall|a: int, b: int| 0 <= a < front.len() && 0 <= b < front.len() && a != b implies front[a]
            != front[b] by {
            assert(front[a] == waiters[a] && front[b] == waiters[b]);
        }
        lemma_released_all(caches, producers_limit, cache_limit, front);
        let mid = released_all(caches, front);
        assert(!front.contains(last)) by {
            if front.contains(last) {
                let a = choose|a: int| 0 <= a < front.len() && front[a] == last;
                assert(waiters[a] == waiters[waiters.len() - 1]);
            }
        }
        assert(witness_of(caches, waiters[waiters.len() - 1].0, waiters[waiters.len() - 1].1)
            is Some);
        assert(witness_of(mid, last.0, last.1) == witness_of(caches, last.0, last.1));
        lemma_released(mid, producers_limit, cache_limit, last);
        assert forall|k: ProducerKey, h: BlockHeight| #[trigger]
            witness_of(released_all(caches, waiters), k, h) == if waiters.contains((k, h)) {
                None
            } else {
                witness_of(caches, k, h)
            } by {
            assert(witness_of(mid, k, h) == if front.contains((k, h)) {
                None
            } else {
                witness_of(caches, k, h)
            });
            if front.contains((k, h)) {
                let a = choose|a: int| 0 <= a < front.len() && front[a] == (k, h);
                assert(waiters[a] == (k, h));
            }
            if waiters.contains((k, h)) && (k, h) != last {
                let a = choose|a: int| 0 <= a < waiters.len() && waiters[a] == (k, h);
                assert(front[a] == (k, h));
            }
            assert(waiters[waiters.len() - 1] == last);
        }
    }
}

/// Taking the witnesses that wait for a block keeps the pool in step, hands
/// out exactly the cached witnesses that declare the block as their parent,
/// each once, and leaves every other witness where it was.
pub proof fn lemma_taken(view: PoolView, hash: CryptoHash)
    requires
        view.wf(),
    ensures
        view.taken(hash).wf(),
        forall|k: ProducerKey, h: BlockHeight| #[trigger]
            view.taken(hash).witness(k, h) == if parent_of(view.caches, k, h) == Some(hash) {
                None
            } else {
                view.witness(k, h)
            },
        forall|k: ProducerKey, h: BlockHeight| !#[trigger] view.taken(hash).waits_for(hash, k, h),
        forall|n: int|
            0 <= n < view.waiting_for(hash).len() ==> (#[trigger] view.waiting_for(
                hash,
            )[n]).chunk_header.prev_block_hash == hash,
        forall|k: ProducerKey, h: BlockHeight|
            parent_of(view.caches, k, h) == Some(hash) ==> view.waiting_for(hash).contains(
                #[trigger] view.witness(k, h).unwrap(),
            ),
{
    let at = position(view.waiting, hash);
    lemma_position_found(view.waiting, hash);
    if at < 0 {
        assert forall|k: ProducerKey, h: BlockHeight| parent_of(view.caches, k, h) != Some(
            hash,
        ) by {
            assert(!waits(view.waiting, hash, (k, h)));
        }
    } else {
        let list = view.waiting[at].1;
        lemma_block_taken(view.waiting, at);
        assert forall|n: int| 0 <= n < list.len() implies witness_of(
            view.caches,
            (#[trigger] list[n]).0,
            list[n].1,
        ) is Some && parent_of(view.caches, list[n].0, list[n].1) == Some(hash) by {
            assert(list.contains(list[n]));
            assert(waits(view.waiting, hash, (list[n].0, list[n].1)));
        }
        lemma_released_all(view.caches, view.producers_limit, view.cache_limit, list);
        let after = view.taken(hash);
        assert forall|k: ProducerKey, h: BlockHeight| #[trigger]
            list.contains((k, h)) <==> parent_of(view.caches, k, h) == Some(hash) by {
            assert(waits(view.waiting, hash, (k, h)) <==> list.contains((k, h)));
        }
        assert forall|hh: CryptoHash, k: ProducerKey, h: BlockHeight| #[trigger]
            waits(after.waiting, hh, (k, h)) <==> parent_of(after.caches, k, h) == Some(hh) by {
            assert(waits(after.waiting, hh, (k, h)) <==> (waits(view.waiting, hh, (k, h)) && hh
                != hash));
            assert(waits(view.waiting, hh, (k, h)) <==> parent_of(view.caches, k, h) == Some(
                hh,
            ));
            assert(list.contains((k, h)) <==> parent_of(view.caches, k, h) == Some(hash));
        }
        assert forall|k: ProducerKey, h: BlockHeight| #[trigger]
            after.witness(k, h) == if parent_of(view.caches, k, h) == Some(hash) {
                None
            } else {
                view.witness(k, h)
            } by {
            assert(list.contains((k, h)) <==> parent_of(view.caches, k, h) == Some(hash));
        }
        assert forall|k: ProducerKey, h: BlockHeight| parent_of(view.caches, k, h) == Some(
            hash,
        ) implies view.waiting_for(hash).contains(#[trigger] view.witness(k, h).unwrap()) by {
            assert(list.contains((k, h)));
            let n = choose|n: int| 0 <= n < list.len() && list[n] == (k, h);
            assert(view.waiting_for(hash)[n] == view.witness(k, h).unwrap());
        }
    }
}

/// Witnesses to add, each with the account of its chunk producer.
pub type Batch = Seq<(ChunkStateWitness, Seq<char>)>;

/// The pool after the witnesses of the batch were added in turn.
pub open spec fn added_all(view: PoolView, batch: Batch) -> PoolView
    decreases batch.len(),
{
    if batch.len() == 0 {
        view
    } else {
        added_all(view, batch.drop_last()).added(batch.last().0, batch.last().1)
    }
}

/// Where a witness of the batch is filed: its producer and shard, and the
/// height of its chunk.
pub open spec fn filing(entry: (ChunkStateWitness, Seq<char>)) -> (ProducerKey, BlockHeight) {
    (PoolView::key_of(entry.1, entry.0), entry.0.chunk_header.height_created)
}

/// Whether no witness has to leave when witness `n` of the batch is added
/// after those before it, neither to make room nor because the new one takes
/// its place.
pub open spec fn room_at(view: PoolView, batch: Batch, n: int) -> bool {
    dropped(
        added_all(view, batch.take(n)).caches,
        view.producers_limit,
        view.cache_limit,
        filing(batch[n]).0,
        batch[n].0,
    ).len() == 0
}

/// Whether the pool has room for the whole batch: nothing has to leave along
/// the way.
pub open spec fn has_room_for(view: PoolView, batch: Batch) -> bool {
    forall|n: int| 0 <= n < batch.len() ==> #[trigger] room_at(view, batch, n)
}

/// Whether a witness of the batch is filed under `key` and `height`.
pub open spec fn filed_in_batch(batch: Batch, key: ProducerKey, height: BlockHeight) -> bool {
    exists|i: int| 0 <= i < batch.len() && filing(#[trigger] batch[i]) == (key, height)
}

/// Whether the witness is one of the batch.
pub open spec fn in_batch(batch: Batch, witness: ChunkStateWitness) -> bool {
    exists|i: int| 0 <= i < batch.len() && (#[trigger] batch[i]).0 == witness
}

/// Adding a batch that the pool has room for keeps the pool in step, keeps
/// every witness that was there, and files every witness of the batch.
pub proof fn lemma_added_all(view: PoolView, batch: Batch)
    requires
        view.wf(),
        view.producers_limit > 0,
        view.cache_limit > 0,
        has_room_for(view, batch),
    ensures
        added_all(view, batch).wf(),
        added_all(view, batch).producers_limit == view.producers_limit,
        added_all(view, batch).cache_limit == view.cache_limit,
        forall|i: int|
            0 <= i < batch.len() ==> added_all(view, batch).witness(
                PoolView::key_of((#[trigger] batch[i]).1, batch[i].0),
                batch[i].0.chunk_header.height_created,
            ) == Some(batch[i].0),
        forall|k: ProducerKey, h: BlockHeight|
            (#[trigger] added_all(view, batch).witness(k, h)) is Some ==> added_all(
                view,
                batch,
            ).witness(k, h) == view.witness(k, h) || in_batch(
                batch,
                added_all(view, batch).witness(k, h).unwrap(),
            ),
        forall|k: ProducerKey, h: BlockHeight|
            (#[trigger] added_all(view, batch).witness(k, h)) is Some ==> view.witness(k, h)
                is Some || filed_in_batch(batch, k, h),
    decreases batch.len(),
{
    if batch.len() == 0 {
    } else {
        let front = batch.drop_last();
        let last = batch.last();
        let n = batch.len() - 1;
        assert forall|m: int| 0 <= m < front.len() implies #[trigger] room_at(view, front, m) by {
            assert(front.take(m) =~= batch.take(m));
            assert(front[m] == batch[m]);
            assert(room_at(view, batch, m));
        }
        lemma_added_all(view, front);
        let mid = added_all(view, front);
        let key = PoolView::key_of(last.1, last.0);
        let height = last.0.chunk_header.height_created;
        assert(batch.take(n) =~= front);
        assert(batch[n] == last);
        assert(room_at(view, batch, n));
        let listings = dropped(mid.caches, mid.producers_limit, mid.cache_limit, key, last.0);
        assert(listings.len() == 0);
        lemma_added(mid, last.0, last.1);
        lemma_filed(mid.caches, mid.producers_limit, mid.cache_limit, key, last.0);
        lemma_dropped(mid.caches, mid.producers_limit, mid.cache_limit, key, last.0);
        let full = added_all(view, batch);
        assert(full == mid.added(last.0, last.1));
        assert forall|k: ProducerKey, h: BlockHeight| #[trigger]
            witness_of(full.caches, k, h) == if k == key && h == height {
                Some(last.0)
            } else {
                witness_of(mid.caches, k, h)
            } by {
            if leaves(mid.caches, mid.producers_limit, mid.cache_limit, key, last.0, k, h) {
                if witness_of(mid.caches, k, h) is Some {
                    let parent = witness_of(mid.caches, k, h).unwrap().chunk_header.prev_block_hash;
                    assert(parent_of(mid.caches, k, h) == Some(parent));
                    assert(listings.contains((parent, (k, h))));
                }
            }
        }
        assert(witness_of(mid.caches, key, height) is None) by {
            if witness_of(mid.caches, key, height) is Some {
                lemma_witness_filed(mid.caches, mid.producers_limit, mid.cache_limit, key, height);
            }
        }
        assert forall|i: int| 0 <= i < batch.len() implies full.witness(
            PoolView::key_of((#[trigger] batch[i]).1, batch[i].0),
            batch[i].0.chunk_header.height_created,
        ) == Some(batch[i].0) by {
            if i < n {
                assert(front[i] == batch[i]);
                assert(mid.witness(
                    PoolView::key_of(front[i].1, front[i].0),
                    front[i].0.chunk_header.height_created,
                ) == Some(front[i].0));
            }
        }
        assert forall|k: ProducerKey, h: BlockHeight| (#[trigger] full.witness(k, h))
            is Some implies full.witness(k, h) == view.witness(k, h) || in_batch(
            batch,
            full.witness(k, h).unwrap(),
        ) by {
            if k == key && h == height {
                assert(batch[n].0 == last.0);
            } else {
                assert(mid.witness(k, h) is Some);
                if mid.witness(k, h) != view.witness(k, h) {
                    let i = choose|i: int|
                        0 <= i < front.len() && (#[trigger] front[i]).0 == mid.witness(
                            k,
                            h,
                        ).unwrap();
                    assert(batch[i] == front[i]);
                }
            }
        }
        assert forall|k: ProducerKey, h: BlockHeight| (#[trigger] full.witness(k, h))
            is Some implies view.witness(k, h) is Some || filed_in_batch(batch, k, h) by {
            if k == key && h == height {
                assert(filing(batch[n]) == (k, h));
            } else {
                assert(mid.witness(k, h) is Some);
                if view.witness(k, h) is None {
                    let i = choose|i: int|
                        0 <= i < front.len() && filing(#[trigger] front[i]) == (k, h);
                    assert(batch[i] == front[i]);
                }
            }
        }
    }
}

/// What is added to an empty pool with room for it, all of it waiting for the
/// same block, is what the pool releases when that block arrives: every
/// witness of the batch and nothing else. After that the pool holds no
/// witness, and nothing waits.
pub proof fn lemma_release_returns_what_was_added(view: PoolView, batch: Batch, hash: CryptoHash)
    requires
        view.wf(),
        view.caches.len() == 0,
        view.producers_limit > 0,
        view.cache_limit > 0,
        has_room_for(view, batch),
        forall|i: int|
            0 <= i < batch.len() ==> (#[trigger] batch[i]).0.chunk_header.prev_block_hash == hash,
    ensures
        forall|i: int|
            0 <= i < batch.len() ==> added_all(view, batch).waiting_for(hash).contains(
                (#[trigger] batch[i]).0,
            ),
        forall|witness: ChunkStateWitness| #[trigger]
            added_all(view, batch).waiting_for(hash).contains(witness) ==> in_batch(
                batch,
                witness,
            ),
        forall|k: ProducerKey, h: BlockHeight|
            (#[trigger] added_all(view, batch).taken(hash).witness(k, h)) is None,
        forall|block: CryptoHash, k: ProducerKey, h: BlockHeight|
            !#[trigger] added_all(view, batch).taken(hash).waits_for(block, k, h),
{
    let full = added_all(view, batch);
    lemma_added_all(view, batch);
    lemma_taken(full, hash);
    assert forall|k: ProducerKey, h: BlockHeight| view.witness(k, h) is None by {
        lemma_position_found(view.caches, k);
    }
    assert forall|k: ProducerKey, h: BlockHeight| (#[trigger] full.witness(k, h))
        is Some implies parent_of(full.caches, k, h) == Some(hash) by {
        assert(in_batch(batch, full.witness(k, h).unwrap()));
    }
    assert forall|i: int| 0 <= i < batch.len() implies full.waiting_for(hash).contains(
        (#[trigger] batch[i]).0,
    ) by {
        let k = PoolView::key_of(batch[i].1, batch[i].0);
        let h = batch[i].0.chunk_header.height_created;
        assert(full.witness(k, h) == Some(batch[i].0));
        assert(parent_of(full.caches, k, h) == Some(hash));
    }
    assert forall|witness: ChunkStateWitness| #[trigger]
        full.waiting_for(hash).contains(witness) implies in_batch(batch, witness) by {
        let list = full.waiting_for(hash);
        let n = choose|n: int| 0 <= n < list.len() && list[n] == witness;
        let at = position(full.waiting, hash);
        lemma_position_found(full.waiting, hash);
        let waiter = full.waiting[at].1[n];
        lemma_block_taken(full.waiting, at);
        assert(full.waiting[at].1.contains(waiter));
        assert(waits(full.waiting, hash, (waiter.0, waiter.1)));
        assert(full.witness(waiter.0, waiter.1) is Some);
    }
    let after = full.taken(hash);
    assert forall|k: ProducerKey, h: BlockHeight| (#[trigger] after.witness(k, h)) is None by {
        if full.witness(k, h) is Some {
            assert(parent_of(full.caches, k, h) == Some(hash));
        }
    }
    assert forall|block: CryptoHash, k: ProducerKey, h: BlockHeight|
        !#[trigger] after.waits_for(block, k, h) by {
        assert(after.witness(k, h) is None);
        assert(waits(after.waiting, block, (k, h)) <==> parent_of(after.caches, k, h) == Some(
            block,
        ));
    }
}

/// Whatever is added to a pool, in whatever order and however much of it has
/// to leave again, the pool stays in step: a witness waits for a block
/// exactly when it is cached and declares that block as its parent.
pub proof fn lemma_in_step_after_any_batch(view: PoolView, batch: Batch)
    requires
        view.wf(),
    ensures
        added_all(view, batch).wf(),
        forall|hash: CryptoHash, key: ProducerKey, height: BlockHeight| #[trigger]
            added_all(view, batch).waits_for(hash, key, height) <==> parent_of(
                added_all(view, batch).caches,
                key,
                height,
            ) == Some(hash),
    decreases batch.len(),
{
    if batch.len() > 0 {
        lemma_in_step_after_any_batch(view, batch.drop_last());
        lemma_added(added_all(view, batch.drop_last()), batch.last().0, batch.last().1);
    }
}

/// The producers and shards that the batch files witnesses under.
pub open spec fn producers_of(batch: Batch) -> Set<ProducerKey> {
    Set::new(
        |key: ProducerKey|
            exists|i: int| 0 <= i < batch.len() && filing(#[trigger] batch[i]).0 == key,
    )
}

/// The chunk heights at which the batch files witnesses under `key`.
pub open spec fn heights_of(batch: Batch, key: ProducerKey) -> Set<BlockHeight> {
    Set::new(|height: BlockHeight| filed_in_batch(batch, key, height))
}

/// Whether an empty pool with these limits takes the whole batch: no two of
/// its witnesses are filed under the same producer, shard and height, it
/// names no more producers and shards than the pool has caches for, and none
/// of them with more heights than a cache holds.
pub open spec fn fits(batch: Batch, producers_limit: nat, cache_limit: nat) -> bool {
    &&& forall|i: int, j: int|
        0 <= i < batch.len() && 0 <= j < batch.len() && filing(#[trigger] batch[i]) == filing(
            #[trigger] batch[j],
        ) ==> i == j
    &&& producers_of(batch).len() <= producers_limit
    &&& forall|key: ProducerKey| #[trigger] heights_of(batch, key).len() <= cache_limit
}

/// A batch names finitely many producers and heights.
pub proof fn lemma_batch_is_finite(batch: Batch, key: ProducerKey)
    ensures
        producers_of(batch).finite(),
        heights_of(batch, key).finite(),
    decreases batch.len(),
{
    if batch.len() == 0 {
        assert(producers_of(batch) =~= Set::empty());
        assert(heights_of(batch, key) =~= Set::empty());
    } else {
        let front = batch.drop_last();
        let last = filing(batch.last());
        lemma_batch_is_finite(front, key);
        assert(producers_of(batch) =~= producers_of(front).insert(last.0)) by {
            assert forall|k: ProducerKey| producers_of(batch).contains(k) implies producers_of(
                front,
            ).insert(last.0).contains(k) by {
                let i = choose|i: int| 0 <= i < batch.len() && filing(#[trigger] batch[i]).0 == k;
                if i < front.len() {
                    assert(front[i] == batch[i]);
                }
            }
            assert forall|k: ProducerKey| producers_of(front).insert(last.0).contains(
                k,
            ) implies producers_of(batch).contains(k) by {
                if producers_of(front).contains(k) {
                    let i = choose|i: int|
                        0 <= i < front.len() && filing(#[trigger] front[i]).0 == k;
                    assert(batch[i] == front[i]);
                } else {
                    assert(filing(batch[batch.len() - 1]).0 == k);
                }
            }
        }
        let more = if last.0 == key {
            heights_of(front, key).insert(last.1)
        } else {
            heights_of(front, key)
        };
        assert(heights_of(batch, key) =~= more) by {
            assert forall|h: BlockHeight| heights_of(batch, key).contains(h) implies more.contains(
                h,
            ) by {
                let i = choose|i: int|
                    0 <= i < batch.len() && filing(#[trigger] batch[i]) == (key, h);
                if i < front.len() {
                    assert(front[i] == batch[i]);
                    assert(filed_in_batch(front, key, h));
                }
            }
            assert forall|h: BlockHeight| more.contains(h) implies heights_of(batch, key).contains(
                h,
            ) by {
                if heights_of(front, key).contains(h) {
                    let i = choose|i: int|
                        0 <= i < front.len() && filing(#[trigger] front[i]) == (key, h);
                    assert(batch[i] == front[i]);
                } else {
                    assert(filing(batch[batch.len() - 1]) == (key, h));
                }
            }
        }
    }
}

/// Distinct keys are as many as there are entries.
proof fn lemma_keys_count<K, V>(entries: Seq<(K, V)>)
    requires
        distinct_keys(entries),
    ensures
        Seq::new(entries.len(), |i: int| entries[i].0).to_set().len() == entries.len(),
        Seq::new(entries.len(), |i: int| entries[i].0).to_set().finite(),
{
    let keys = Seq::new(entries.len(), |i: int| entries[i].0);
    assert(keys.no_duplicates());
    keys.unique_seq_to_set();
    vstd::seq_lib::seq_to_set_is_finite(keys);
}

/// An empty pool takes a batch that fits it without letting any witness go.
pub proof fn lemma_fitting_batch_has_room(view: PoolView, batch: Batch, n: int)
    requires
        view.wf(),
        view.caches.len() == 0,
        view.producers_limit > 0,
        view.cache_limit > 0,
        fits(batch, view.producers_limit, view.cache_limit),
        0 <= n <= batch.len(),
    ensures
        forall|m: int| 0 <= m < n ==> #[trigger] room_at(view, batch, m),
    decreases n,
{
    if n > 0 {
        lemma_fitting_batch_has_room(view, batch, n - 1);
        let m = n - 1;
        let front = batch.take(m);
        assert forall|a: int| 0 <= a < front.len() implies #[trigger] room_at(view, front, a) by {
            assert(front.take(a) =~= batch.take(a));
            assert(front[a] == batch[a]);
            assert(room_at(view, batch, a));
        }
        lemma_added_all(view, front);
        let mid = added_all(view, front);
        let key = filing(batch[m]).0;
        let height = filing(batch[m]).1;
        lemma_batch_is_finite(batch, key);
        assert forall|k: ProducerKey, h: BlockHeight| view.witness(k, h) is None by {
            lemma_position_found(view.caches, k);
        }
        // What is cached was filed by an earlier witness of the batch.
        assert forall|k: ProducerKey, h: BlockHeight| (#[trigger] mid.witness(k, h))
            is Some implies filed_in_batch(batch, k, h) && !(k == key && h == height) by {
            assert(filed_in_batch(front, k, h));
            let i = choose|i: int| 0 <= i < front.len() && filing(#[trigger] front[i]) == (k, h);
            assert(front[i] == batch[i]);
            assert(filing(batch[i]) == (k, h));
        }
        let at = position(mid.caches, key);
        lemma_position_found(mid.caches, key);
        if at >= 0 {
            let cache = mid.caches[at].1;
            assert(cache_well_filed(mid.caches[at], mid.cache_limit));
            lemma_contents_of_entry(mid.caches, at);
            lemma_position_found(cache, height);
            if position(cache, height) >= 0 {
                lemma_contents_of_entry(cache, position(cache, height));
                assert(mid.witness(key, height) is Some);
            }
            let heights = Seq::new(cache.len(), |j: int| cache[j].0);
            lemma_keys_count(cache);
            let taken = heights.to_set().insert(height);
            assert(!heights.to_set().contains(height)) by {
                if heights.to_set().contains(height) {
                    let j = choose|j: int| 0 <= j < heights.len() && heights[j] == height;
                    assert(cache[j].0 == height);
                }
            }
            assert(taken.subset_of(heights_of(batch, key))) by {
                assert forall|h: BlockHeight| taken.contains(h) implies heights_of(
                    batch,
                    key,
                ).contains(h) by {
                    if h == height {
                        assert(filing(batch[m]) == (key, height));
                    } else {
                        let j = choose|j: int| 0 <= j < heights.len() && heights[j] == h;
                        lemma_contents_of_entry(cache, j);
                        assert(mid.witness(key, h) is Some);
                    }
                }
            }
            vstd::set_lib::lemma_len_subset(taken, heights_of(batch, key));
            assert(heights_of(batch, key).len() <= view.cache_limit);
            assert(cache.len() < view.cache_limit);
        } else {
            let keys = Seq::new(mid.caches.len(), |i: int| mid.caches[i].0);
            lemma_keys_count(mid.caches);
            let taken = keys.to_set().insert(key);
            assert(!keys.to_set().contains(key)) by {
                if keys.to_set().contains(key) {
                    let i = choose|i: int| 0 <= i < keys.len() && keys[i] == key;
                    assert(mid.caches[i].0 == key);
                }
            }
            assert(taken.subset_of(producers_of(batch))) by {
                assert forall|k: ProducerKey| taken.contains(k) implies producers_of(
                    batch,
                ).contains(k) by {
                    if k == key {
                        assert(filing(batch[m]).0 == key);
                    } else {
                        let i = choose|i: int| 0 <= i < keys.len() && keys[i] == k;
                        assert(cache_well_filed(mid.caches[i], mid.cache_limit));
                        lemma_contents_of_entry(mid.caches, i);
                        lemma_contents_of_entry(mid.caches[i].1, 0);
                        let h = mid.caches[i].1[0].0;
                        assert(mid.witness(k, h) is Some);
                        assert(filed_in_batch(batch, k, h));
                        let b = choose|b: int|
                            0 <= b < batch.len() && filing(#[trigger] batch[b]) == (k, h);
                        assert(filing(batch[b]).0 == k);
                    }
                }
            }
            vstd::set_lib::lemma_len_subset(taken, producers_of(batch));
            assert(mid.caches.len() < view.producers_limit);
        }
    }
}

/// What the default pool is made for: witnesses of at most as many producers
/// as the pool has caches for, with at most as many heights each as a cache
/// holds, all waiting for the same block, come back together when that block
/// arrives, and the pool is empty again.
pub proof fn lemma_fitting_batch_is_released(view: PoolView, batch: Batch, hash: CryptoHash)
    requires
        view.wf(),
        view.caches.len() == 0,
        view.producers_limit > 0,
        view.cache_limit > 0,
        fits(batch, view.producers_limit, view.cache_limit),
        forall|i: int|
            0 <= i < batch.len() ==> (#[trigger] batch[i]).0.chunk_header.prev_block_hash == hash,
    ensures
        forall|i: int|
            0 <= i < batch.len() ==> added_all(view, batch).waiting_for(hash).contains(
                (#[trigger] batch[i]).0,
            ),
        forall|witness: ChunkStateWitness| #[trigger]
            added_all(view, batch).waiting_for(hash).contains(witness) ==> in_batch(
                batch,
                witness,
            ),
        forall|k: ProducerKey, h: BlockHeight|
            (#[trigger] added_all(view, batch).taken(hash).witness(k, h)) is None,
        forall|block: CryptoHash, k: ProducerKey, h: BlockHeight|
            !#[trigger] added_all(view, batch).taken(hash).waits_for(block, k, h),
{
    lemma_fitting_batch_has_room(view, batch, batch.len() as int);
    lemma_release_returns_what_was_added(view, batch, hash);
}

} // verus!
