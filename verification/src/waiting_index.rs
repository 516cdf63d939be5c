//! The reverse index of the orphan witness pool: for each block hash, the
//! witnesses that wait for that block, each named by its chunk producer, its
//! shard and the height of its chunk.

use vstd::prelude::*;
use crate::hash::CryptoHash;
use crate::lru_cache::{distinct_keys, position, producer_key, ChunkProducerId, ProducerKey};
use crate::primitives::BlockHeight;
use crate::recency::{
    contents, lemma_contents_of_entry, lemma_position_found, lemma_position_of_entry,
    lemma_put_last, lemma_removed, lemma_replaced,
};

verus! {

/// A witness that waits: the producer and shard it is filed under, and the
/// height of its chunk.
pub type Waiter = (ProducerKey, BlockHeight);

/// The waiters of every awaited block, in the order in which the blocks were
/// first awaited.
pub type Waiting = Seq<(CryptoHash, Seq<Waiter>)>;

/// Every awaited block is listed once, with at least one waiter, and lists
/// none of its waiters twice.
pub open spec fn well_kept(waiting: Waiting) -> bool {
    &&& distinct_keys(waiting)
    &&& forall|a: int|
        0 <= a < waiting.len() ==> (#[trigger] waiting[a]).1.len() > 0
            && waiting[a].1.no_duplicates()
}

/// Whether `waiter` waits for the block `hash`.
pub open spec fn waits(waiting: Waiting, hash: CryptoHash, waiter: Waiter) -> bool {
    contents(waiting).contains_key(hash) && contents(waiting)[hash].contains(waiter)
}

/// The index once `waiter` no longer waits for `hash`: it leaves the block's
/// list, and a list that is left empty leaves the index.
pub open spec fn forgotten(waiting: Waiting, hash: CryptoHash, waiter: Waiter) -> Waiting {
    let at = position(waiting, hash);
    let rest = waiting[at].1.remove(waiting[at].1.index_of(waiter));
    if rest.len() == 0 {
        waiting.remove(at)
    } else {
        waiting.update(at, (hash, rest))
    }
}

/// The index once `waiter` waits for `hash`: it joins the block's list, or
/// starts one if the block was not awaited yet.
pub open spec fn registered(waiting: Waiting, hash: CryptoHash, waiter: Waiter) -> Waiting {
    let at = position(waiting, hash);
    if at < 0 {
        waiting.push((hash, seq![waiter]))
    } else if waiting[at].1.contains(waiter) {
        waiting
    } else {
        waiting.update(at, (hash, waiting[at].1.push(waiter)))
    }
}

/// After a waiter is forgotten, exactly the others still wait.
pub proof fn lemma_forgotten(waiting: Waiting, hash: CryptoHash, waiter: Waiter)
    requires
        well_kept(waiting),
        waits(waiting, hash, waiter),
    ensures
        well_kept(forgotten(waiting, hash, waiter)),
        forall|h: CryptoHash, w: Waiter| #[trigger]
            waits(forgotten(waiting, hash, waiter), h, w) <==> (waits(waiting, h, w) && !(h == hash
                && w == waiter)),
{
    let at = position(waiting, hash);
    lemma_position_found(waiting, hash);
    let list = waiting[at].1;
    let b = list.index_of(waiter);
    assert(list.contains(waiter));
    assert(0 <= b < list.len() && list[b] == waiter);
    let rest = list.remove(b);
    let after = forgotten(waiting, hash, waiter);
    assert forall|i: int| 0 <= i < rest.len() implies #[trigger] rest[i] == list[if i < b {
        i
    } else {
        i + 1
    }] by {}
    assert(rest.no_duplicates());
    assert forall|w: Waiter| #[trigger] rest.contains(w) <==> (list.contains(w) && w != waiter) by {
        if rest.contains(w) {
            let i = choose|i: int| 0 <= i < rest.len() && rest[i] == w;
            assert(list[if i < b {
                i
            } else {
                i + 1
            }] == w);
        }
        if list.contains(w) && w != waiter {
            let i = choose|i: int| 0 <= i < list.len() && list[i] == w;
            assert(rest[if i < b {
                i
            } else {
                i - 1
            }] == w);
        }
    }
    if rest.len() == 0 {
        lemma_removed(waiting, at);
        assert forall|a: int| 0 <= a < after.len() implies (#[trigger] after[a]).1.len() > 0
            && after[a].1.no_duplicates() by {
            assert(after[a] == waiting[if a < at {
                a
            } else {
                a + 1
            }]);
        }
        assert forall|w: Waiter| list.contains(w) implies w == waiter by {
            if w != waiter {
                assert(rest.contains(w));
            }
        }
    } else {
        lemma_replaced(waiting, at, rest);
        assert forall|a: int| 0 <= a < after.len() implies (#[trigger] after[a]).1.len() > 0
            && after[a].1.no_duplicates() by {
            if a != at {
                assert(after[a] == waiting[a]);
            }
        }
    }
}

/// After a waiter is registered, it waits, and so does whoever waited.
pub proof fn lemma_registered(waiting: Waiting, hash: CryptoHash, waiter: Waiter)
    requires
        well_kept(waiting),
    ensures
        well_kept(registered(waiting, hash, waiter)),
        forall|h: CryptoHash, w: Waiter| #[trigger]
            waits(registered(waiting, hash, waiter), h, w) <==> (waits(waiting, h, w) || (h == hash
                && w == waiter)),
{
    let at = position(waiting, hash);
    lemma_position_found(waiting, hash);
    let after = registered(waiting, hash, waiter);
    if at < 0 {
        lemma_put_last(waiting, hash, seq![waiter]);
        assert forall|a: int| 0 <= a < after.len() implies (#[trigger] after[a]).1.len() > 0
            && after[a].1.no_duplicates() by {
            if a < waiting.len() {
                assert(after[a] == waiting[a]);
            }
        }
        assert(seq![waiter][0] == waiter);
    } else if waiting[at].1.contains(waiter) {
    } else {
        let list = waiting[at].1;
        let more = list.push(waiter);
        lemma_replaced(waiting, at, more);
        assert forall|i: int| 0 <= i < list.len() implies #[trigger] more[i] == list[i] by {}
        assert(more[list.len() as int] == waiter);
        assert(more.no_duplicates());
        assert forall|a: int| 0 <= a < after.len() implies (#[trigger] after[a]).1.len() > 0
            && after[a].1.no_duplicates() by {
            if a != at {
                assert(after[a] == waiting[a]);
            }
        }
        assert forall|w: Waiter| #[trigger] more.contains(w) <==> (list.contains(w) || w
            == waiter) by {
            if list.contains(w) {
                let i = choose|i: int| 0 <= i < list.len() && list[i] == w;
                assert(more[i] == w);
            }
        }
    }
}

/// After a block's list is taken out, exactly the waiters of other blocks
/// still wait.
pub proof fn lemma_block_taken(waiting: Waiting, at: int)
    requires
        well_kept(waiting),
        0 <= at < waiting.len(),
    ensures
        well_kept(waiting.remove(at)),
        forall|h: CryptoHash, w: Waiter| #[trigger]
            waits(waiting.remove(at), h, w) <==> (waits(waiting, h, w) && h != waiting[at].0),
        forall|w: Waiter| #[trigger]
            waits(waiting, waiting[at].0, w) <==> waiting[at].1.contains(w),
{
    let after = waiting.remove(at);
    lemma_removed(waiting, at);
    lemma_contents_of_entry(waiting, at);
    assert forall|a: int| 0 <= a < after.len() implies (#[trigger] after[a]).1.len() > 0
        && after[a].1.no_duplicates() by {
        assert(after[a] == waiting[if a < at {
            a
        } else {
            a + 1
        }]);
    }
}

/// One awaited block and its waiters.
struct WaitingEntry {
    block_hash: CryptoHash,
    waiting: Vec<(ChunkProducerId, BlockHeight)>,
}

/// The view of a list of waiters.
pub open spec fn waiters(list: Seq<(ChunkProducerId, BlockHeight)>) -> Seq<Waiter> {
    Seq::new(list.len(), |b: int| (producer_key(list[b].0), list[b].1))
}

/// For each block hash, who waits for it.
pub struct WaitingIndex {
    entries: Vec<WaitingEntry>,
}

/// Copies the name of a chunk producer and shard.
pub fn clone_producer_id(id: &ChunkProducerId) -> (copy: ChunkProducerId)
    ensures
        producer_key(copy) == producer_key(*id),
{
    (id.0.clone(), id.1)
}

/// The place of `waiter` in the list, if it is there.
fn find_waiter(list: &Vec<(ChunkProducerId, BlockHeight)>, id: &ChunkProducerId, height: BlockHeight) -> (at:
    Option<usize>)
    ensures
        match at {
            Some(at) => at < list.len() && waiters(list@)[at as int] == (producer_key(*id), height),
            None => !waiters(list@).contains((producer_key(*id), height)),
        },
{
    let mut b: usize = 0;
    while b < list.len()
        invariant
            b <= list.len(),
            forall|i: int| 0 <= i < b ==> waiters(list@)[i] != (producer_key(*id), height),
        decreases list.len() - b,
    {
        let entry = &list[b];
        assert(waiters(list@)[b as int] == (producer_key(entry.0), entry.1));
        if entry.1 == height && entry.0.1 == id.1 && entry.0.0 == id.0 {
            return Some(b);
        }
        b += 1;
    }
    None
}

impl WaitingIndex {
    pub closed spec fn view(&self) -> Waiting {
        Seq::new(
            self.entries.len() as nat,
            |a: int| (self.entries[a].block_hash, waiters(self.entries[a].waiting@)),
        )
    }

    /// An index in which nobody waits.
    pub fn new() -> (index: WaitingIndex)
        ensures
            index@ == Seq::<(CryptoHash, Seq<Waiter>)>::empty(),
    {
        let index = WaitingIndex { entries: Vec::new() };
        assert(index@ =~= Seq::empty());
        index
    }

    /// Whether no block is awaited.
    pub fn is_empty(&self) -> (empty: bool)
        ensures
            empty == (self@.len() == 0),
    {
        self.entries.len() == 0
    }

    /// The place of the block's entry.
    fn find_block(&self, hash: &CryptoHash) -> (at: Option<usize>)
        requires
            distinct_keys(self@),
        ensures
            match at {
                Some(at) => at < self.entries.len() && position(self@, *hash) == at,
                None => position(self@, *hash) < 0,
            },
    {
        let mut a: usize = 0;
        while a < self.entries.len()
            invariant
                a <= self.entries.len(),
                distinct_keys(self@),
                forall|i: int| 0 <= i < a ==> (#[trigger] self@[i]).0 != *hash,
            decreases self.entries.len() - a,
        {
            if self.entries[a].block_hash == *hash {
                proof {
                    assert(self@[a as int].0 == *hash);
                    lemma_position_of_entry(self@, a as int);
                }
                return Some(a);
            }
            a += 1;
        }
        proof {
            lemma_position_found(self@, *hash);
        }
        None
    }

    /// `waiter` stops waiting for the block `hash`.
    pub fn remove(&mut self, hash: &CryptoHash, id: &ChunkProducerId, height: BlockHeight)
        requires
            well_kept(old(self)@),
            waits(old(self)@, *hash, (producer_key(*id), height)),
        ensures
            final(self)@ == forgotten(old(self)@, *hash, (producer_key(*id), height)),
    {
        let ghost waiter = (producer_key(*id), height);
        let ghost before = self@;
        let at = match self.find_block(hash) {
            Some(at) => at,
            None => {
                proof {
                    lemma_position_found(before, *hash);
                }
                return ;
            },
        };
        proof {
            lemma_contents_of_entry(before, at as int);
        }
        let ghost list = before[at as int].1;
        assert(list.contains(waiter));
        let b = match find_waiter(&self.entries[at].waiting, id, height) {
            Some(b) => b,
            None => {
                return ;
            },
        };
        assert(list[b as int] == waiter);
        assert(list.index_of(waiter) == b);
        if self.entries[at].waiting.len() == 1 {
            self.entries.remove(at);
            assert(self@ =~= before.remove(at as int));
            assert(list.remove(b as int).len() == 0);
        } else {
            let entry = &mut self.entries[at];
            entry.waiting.remove(b);
            assert(waiters(entry.waiting@) =~= list.remove(b as int));
            assert(self@ =~= before.update(at as int, (*hash, list.remove(b as int))));
        }
    }

    /// `waiter` starts to wait for the block `hash`.
    pub fn insert(&mut self, hash: CryptoHash, id: ChunkProducerId, height: BlockHeight)
        requires
            well_kept(old(self)@),
        ensures
            final(self)@ == registered(old(self)@, hash, (producer_key(id), height)),
    {
        let ghost waiter = (producer_key(id), height);
        let ghost before = self@;
        let at = match self.find_block(&hash) {
            Some(at) => at,
            None => {
                let mut waiting: Vec<(ChunkProducerId, BlockHeight)> = Vec::new();
                waiting.push((id, height));
                assert(waiters(waiting@) =~= seq![waiter]);
                self.entries.push(WaitingEntry { block_hash: hash, waiting });
                assert(self@ =~= before.push((hash, seq![waiter])));
                return ;
            },
        };
        let ghost list = before[at as int].1;
        if find_waiter(&self.entries[at].waiting, &id, height).is_some() {
            assert(list.contains(waiter));
            return ;
        }
        assert(!list.contains(waiter));
        let entry = &mut self.entries[at];
        entry.waiting.push((id, height));
        assert(waiters(entry.waiting@) =~= list.push(waiter));
        assert(self@ =~= before.update(at as int, (hash, list.push(waiter))));
    }

    /// Takes the waiters of the block `hash` out of the index.
    pub fn take(&mut self, hash: &CryptoHash) -> (taken: Option<
        Vec<(ChunkProducerId, BlockHeight)>,
    >)
        requires
            well_kept(old(self)@),
        ensures
            match taken {
                Some(list) => {
                    &&& position(old(self)@, *hash) >= 0
                    &&& waiters(list@) == old(self)@[position(old(self)@, *hash)].1
                    &&& final(self)@ == old(self)@.remove(position(old(self)@, *hash))
                },
                None => position(old(self)@, *hash) < 0 && final(self)@ == old(self)@,
            },
    {
        let ghost before = self@;
        match self.find_block(hash) {
            Some(at) => {
                let entry = self.entries.remove(at);
                assert(self@ =~= before.remove(at as int));
                Some(entry.waiting)
            },
            None => None,
        }
    }
}

} // verus!
