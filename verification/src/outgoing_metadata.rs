//! What a shard remembers about the receipts in its outgoing buffer to
//! another shard: their sizes, summed up in groups in the order in which the
//! receipts were buffered.

use vstd::prelude::*;
use vstd::laws_cmp::group_laws_cmp;
use vstd::std_specs::btree::group_btree_axioms;
use std::collections::{BTreeMap, VecDeque};
use crate::receipt_groups::{
    lemma_sum_of_positive, lemma_sum_update_first, receipts_after_events, sum, BufferEvent,
};

verus! {

/// The receipts of one group, by their total size.
#[derive(Debug, Clone, Copy, PartialEq, Eq)]
pub struct OutgoingReceiptGroup {
    pub group_size: u64,
}

/// The sizes of the groups.
pub open spec fn group_sizes(groups: Seq<OutgoingReceiptGroup>) -> Seq<u64> {
    Seq::new(groups.len(), |i: int| groups[i].group_size)
}

/// The group sizes after a receipt of `receipt_size` was buffered: it joins
/// the last group if that is below the threshold, else it starts a group.
pub open spec fn sizes_after_push(sizes: Seq<u64>, threshold: u64, receipt_size: u64) -> Seq<u64> {
    if sizes.len() > 0 && sizes.last() < threshold {
        sizes.update(sizes.len() - 1, (sizes.last() + receipt_size) as u64)
    } else {
        sizes.push(receipt_size)
    }
}

/// The group sizes after the oldest receipt, of `receipt_size`, left the
/// buffer: it leaves the first group, and a group that is left empty leaves
/// too.
pub open spec fn sizes_after_pop(sizes: Seq<u64>, receipt_size: u64) -> Seq<u64> {
    if sizes[0] == receipt_size {
        sizes.drop_first()
    } else {
        sizes.update(0, (sizes[0] - receipt_size) as u64)
    }
}

/// Whether a receipt of `receipt_size` can be buffered without the size of
/// its group leaving the range of the counter.
pub open spec fn push_fits(sizes: Seq<u64>, threshold: u64, receipt_size: u64) -> bool {
    sizes.len() > 0 && sizes.last() < threshold ==> sizes.last() + receipt_size <= u64::MAX
}

/// Whether the first group holds a receipt of `receipt_size` to remove.
pub open spec fn pop_fits(sizes: Seq<u64>, receipt_size: u64) -> bool {
    sizes.len() > 0 && sizes[0] >= receipt_size
}

/// The group sizes after the events, from a buffer without receipts.
pub open spec fn sizes_after_events(events: Seq<BufferEvent>, threshold: u64) -> Seq<u64>
    decreases events.len(),
{
    if events.len() == 0 {
        Seq::empty()
    } else {
        let before = sizes_after_events(events.drop_last(), threshold);
        match events.last() {
            BufferEvent::Pushed(receipt_size) => sizes_after_push(before, threshold, receipt_size),
            BufferEvent::Popped(receipt_size) => sizes_after_pop(before, receipt_size),
        }
    }
}

/// The total size of the receipts that the events leave in the buffer: what
/// was pushed less what was popped.
pub open spec fn buffered_after_events(events: Seq<BufferEvent>) -> int
    decreases events.len(),
{
    if events.len() == 0 {
        0
    } else {
        match events.last() {
            BufferEvent::Pushed(receipt_size) => buffered_after_events(events.drop_last())
                + receipt_size,
            BufferEvent::Popped(receipt_size) => buffered_after_events(events.drop_last())
                - receipt_size,
        }
    }
}

/// Whether every event finds what `on_receipt_pushed` and `on_receipt_popped`
/// ask for.
pub open spec fn events_fit(events: Seq<BufferEvent>, threshold: u64) -> bool
    decreases events.len(),
{
    events.len() > 0 ==> {
        let before = sizes_after_events(events.drop_last(), threshold);
        &&& events_fit(events.drop_last(), threshold)
        &&& match events.last() {
            BufferEvent::Pushed(receipt_size) => push_fits(before, threshold, receipt_size),
            BufferEvent::Popped(receipt_size) => pop_fits(before, receipt_size),
        }
    }
}

/// Over any run of pushes and pops from a buffer without receipts, the groups
/// account for what is buffered: their sizes add up to what was pushed less
/// what was popped.
pub proof fn lemma_groups_account_for_the_buffer(events: Seq<BufferEvent>, threshold: u64)
    requires
        events_fit(events, threshold),
    ensures
        sum(sizes_after_events(events, threshold)) == buffered_after_events(events),
    decreases events.len(),
{
    if events.len() > 0 {
        let before = sizes_after_events(events.drop_last(), threshold);
        let after = sizes_after_events(events, threshold);
        lemma_groups_account_for_the_buffer(events.drop_last(), threshold);
        match events.last() {
            BufferEvent::Pushed(receipt_size) => {
                if before.len() > 0 && before.last() < threshold {
                    assert(after.drop_last() =~= before.drop_last());
                } else {
                    assert(after.drop_last() =~= before);
                }
            },
            BufferEvent::Popped(receipt_size) => {
                lemma_sum_update_first(before, (before[0] - receipt_size) as u64);
            },
        }
    }
}

/// Over any such run, no group is empty, and a group that is neither the
/// first nor the last has reached the threshold, provided that no receipt
/// without size is pushed.
pub proof fn lemma_inner_groups_are_full(events: Seq<BufferEvent>, threshold: u64)
    requires
        events_fit(events, threshold),
        forall|i: int|
            0 <= i < events.len() ==> (#[trigger] events[i]) != BufferEvent::Pushed(0),
    ensures
        forall|i: int|
            0 <= i < sizes_after_events(events, threshold).len() ==> #[trigger] sizes_after_events(
                events,
                threshold,
            )[i] > 0,
        forall|i: int|
            0 < i < sizes_after_events(events, threshold).len() - 1 ==> #[trigger] sizes_after_events(
                events,
                threshold,
            )[i] >= threshold,
    decreases events.len(),
{
    if events.len() > 0 {
        let earlier = events.drop_last();
        assert forall|i: int| 0 <= i < earlier.len() implies (#[trigger] earlier[i])
            != BufferEvent::Pushed(0) by {
            assert(earlier[i] == events[i]);
        }
        lemma_inner_groups_are_full(earlier, threshold);
        let before = sizes_after_events(earlier, threshold);
        let after = sizes_after_events(events, threshold);
        assert(events.last() == events[events.len() - 1]);
        assert forall|i: int| 0 <= i < after.len() implies #[trigger] after[i] > 0 && (0 < i
            < after.len() - 1 ==> after[i] >= threshold) by {
            match events.last() {
                BufferEvent::Pushed(receipt_size) => {
                    assert(receipt_size != 0);
                    if i < before.len() {
                        assert(before[i] > 0);
                    }
                    if 0 < i < before.len() - 1 {
                        assert(before[i] >= threshold);
                    }
                },
                BufferEvent::Popped(receipt_size) => {
                    if before[0] == receipt_size {
                        assert(after[i] == before[i + 1]);
                        assert(before[i + 1] > 0);
                        if 0 < i < after.len() - 1 {
                            assert(before[i + 1] >= threshold);
                        }
                    } else {
                        assert(before[i] > 0);
                        if 0 < i < after.len() - 1 {
                            assert(before[i] >= threshold);
                        }
                    }
                },
            }
        }
    }
}

/// Whether the events are the life of a buffer: every pushed receipt has a
/// size and fits the counter of its group, and every pop names the size of
/// the receipt that is the oldest in the buffer by then.
pub open spec fn life_of_a_buffer(events: Seq<BufferEvent>, threshold: u64) -> bool
    decreases events.len(),
{
    events.len() > 0 ==> {
        let sizes = sizes_after_events(events.drop_last(), threshold);
        let receipts = receipts_after_events(events.drop_last(), threshold);
        &&& life_of_a_buffer(events.drop_last(), threshold)
        &&& match events.last() {
            BufferEvent::Pushed(receipt_size) => receipt_size > 0 && push_fits(
                sizes,
                threshold,
                receipt_size,
            ),
            BufferEvent::Popped(receipt_size) => receipts.len() > 0 && receipts[0].len() > 0
                && receipts[0][0] == receipt_size,
        }
    }
}

/// Through the life of a buffer every pop finds its receipt in the first
/// group, and every group has the size of the receipts that it stands for.
pub proof fn lemma_groups_follow_the_buffer(events: Seq<BufferEvent>, threshold: u64)
    requires
        life_of_a_buffer(events, threshold),
    ensures
        events_fit(events, threshold),
        sizes_after_events(events, threshold).len() == receipts_after_events(
            events,
            threshold,
        ).len(),
        forall|i: int|
            0 <= i < receipts_after_events(events, threshold).len() ==> {
                &&& (#[trigger] receipts_after_events(events, threshold)[i]).len() > 0
                &&& sizes_after_events(events, threshold)[i] == sum(
                    receipts_after_events(events, threshold)[i],
                )
                &&& forall|j: int|
                    0 <= j < receipts_after_events(events, threshold)[i].len()
                        ==> #[trigger] receipts_after_events(events, threshold)[i][j] > 0
            },
    decreases events.len(),
{
    if events.len() > 0 {
        lemma_groups_follow_the_buffer(events.drop_last(), threshold);
        let sizes = sizes_after_events(events.drop_last(), threshold);
        let receipts = receipts_after_events(events.drop_last(), threshold);
        let after = receipts_after_events(events, threshold);
        let sizes_after = sizes_after_events(events, threshold);
        match events.last() {
            BufferEvent::Pushed(receipt_size) => {
                if receipts.len() > 0 {
                    assert(sizes.last() == sum(receipts.last()));
                }
                if receipts.len() > 0 && sum(receipts.last()) < threshold {
                    let joined = receipts.last().push(receipt_size);
                    assert(joined.drop_last() =~= receipts.last());
                    assert(sum(joined) == sum(receipts.last()) + receipt_size);
                    assert forall|i: int| 0 <= i < after.len() implies {
                        &&& (#[trigger] after[i]).len() > 0
                        &&& sizes_after[i] == sum(after[i])
                        &&& forall|j: int| 0 <= j < after[i].len() ==> #[trigger] after[i][j] > 0
                    } by {
                        if i < after.len() - 1 {
                            assert(after[i] == receipts[i]);
                        }
                    }
                } else {
                    let alone = seq![receipt_size];
                    assert(alone.drop_last() =~= Seq::<u64>::empty());
                    assert(sum(alone.drop_last()) == 0);
                    assert(sum(alone) == receipt_size);
                    assert forall|i: int| 0 <= i < after.len() implies {
                        &&& (#[trigger] after[i]).len() > 0
                        &&& sizes_after[i] == sum(after[i])
                        &&& forall|j: int| 0 <= j < after[i].len() ==> #[trigger] after[i][j] > 0
                    } by {
                        if i < after.len() - 1 {
                            assert(after[i] == receipts[i]);
                        }
                    }
                }
            },
            BufferEvent::Popped(receipt_size) => {
                let first = receipts[0];
                assert(sizes[0] == sum(first));
                lemma_sum_of_positive(first);
                lemma_sum_update_first(first, 0);
                assert(pop_fits(sizes, receipt_size));
                if first.len() <= 1 {
                    assert(first.drop_first() =~= Seq::<u64>::empty());
                    assert(sum(first.drop_first()) == 0);
                    assert(sizes[0] == receipt_size);
                    assert forall|i: int| 0 <= i < after.len() implies {
                        &&& (#[trigger] after[i]).len() > 0
                        &&& sizes_after[i] == sum(after[i])
                        &&& forall|j: int| 0 <= j < after[i].len() ==> #[trigger] after[i][j] > 0
                    } by {
                        assert(after[i] == receipts[i + 1]);
                    }
                } else {
                    assert(sizes[0] > receipt_size);
                    let rest = first.drop_first();
                    assert forall|i: int| 0 <= i < after.len() implies {
                        &&& (#[trigger] after[i]).len() > 0
                        &&& sizes_after[i] == sum(after[i])
                        &&& forall|j: int| 0 <= j < after[i].len() ==> #[trigger] after[i][j] > 0
                    } by {
                        if i > 0 {
                            assert(after[i] == receipts[i]);
                        } else {
                            assert forall|j: int| 0 <= j < rest.len() implies #[trigger] rest[j]
                                > 0 by {
                                assert(rest[j] == first[j + 1]);
                            }
                        }
                    }
                }
            },
        }
    }
}

/// The groups of buffered receipts, oldest first, and the size from which on
/// a group takes no further receipt.
#[derive(Debug, Clone, PartialEq, Eq)]
pub struct OutgoingBufferMetadataV0 {
    pub groups: VecDeque<OutgoingReceiptGroup>,
    pub group_size_threshold: u64,
}

impl OutgoingBufferMetadataV0 {
    /// The sizes of the groups, oldest first.
    pub open spec fn sizes(&self) -> Seq<u64> {
        group_sizes(self.groups@)
    }

    pub fn new(group_size_threshold: u64) -> (metadata: Self)
        ensures
            metadata.sizes() == Seq::<u64>::empty(),
            metadata.group_size_threshold == group_size_threshold,
    {
        let metadata = Self { groups: VecDeque::new(), group_size_threshold };
        assert(metadata.sizes() =~= Seq::empty());
        metadata
    }

    /// A receipt of `receipt_size` was put at the end of the buffer.
    pub fn on_receipt_pushed(&mut self, receipt_size: u64)
        requires
            push_fits(old(self).sizes(), old(self).group_size_threshold, receipt_size),
        ensures
            final(self).group_size_threshold == old(self).group_size_threshold,
            final(self).sizes() == sizes_after_push(
                old(self).sizes(),
                old(self).group_size_threshold,
                receipt_size,
            ),
    {
        let ghost before = self.groups@;
        match self.groups.pop_back() {
            Some(last_group) => {
                if last_group.group_size >= self.group_size_threshold {
                    self.groups.push_back(last_group);
                    self.groups.push_back(OutgoingReceiptGroup { group_size: receipt_size });
                    assert(self.groups@ =~= before.push(
                        OutgoingReceiptGroup { group_size: receipt_size },
                    ));
                } else {
                    assert(group_sizes(before).last() == last_group.group_size);
                    self.groups.push_back(
                        OutgoingReceiptGroup { group_size: last_group.group_size + receipt_size },
                    );
                }
            },
            None => {
                self.groups.push_back(OutgoingReceiptGroup { group_size: receipt_size });
            },
        }
        assert(self.sizes() =~= sizes_after_push(
            group_sizes(before),
            self.group_size_threshold,
            receipt_size,
        ));
    }

    /// The receipt at the front of the buffer, of `receipt_size`, was taken
    /// out.
    pub fn on_receipt_popped(&mut self, receipt_size: u64)
        requires
            pop_fits(old(self).sizes(), receipt_size),
        ensures
            final(self).group_size_threshold == old(self).group_size_threshold,
            final(self).sizes() == sizes_after_pop(old(self).sizes(), receipt_size),
    {
        let ghost before = self.groups@;
        match self.groups.pop_front() {
            Some(first_group) => {
                assert(group_sizes(before)[0] == first_group.group_size);
                let group_size = first_group.group_size - receipt_size;
                if group_size != 0 {
                    self.groups.push_front(OutgoingReceiptGroup { group_size });
                }
            },
            None => {},
        }
        assert(self.sizes() =~= sizes_after_pop(group_sizes(before), receipt_size));
    }

    /// The sizes of the groups, oldest first.
    pub fn receipt_group_sizes(&self) -> (sizes: Vec<u64>)
        ensures
            sizes@ == self.sizes(),
    {
        let mut sizes: Vec<u64> = Vec::new();
        let mut i: usize = 0;
        while i < self.groups.len()
            invariant
                i <= self.groups.len(),
                sizes@ == self.sizes().take(i as int),
            decreases self.groups.len() - i,
        {
            sizes.push(self.groups[i].group_size);
            assert(sizes@ =~= self.sizes().take(i + 1));
            i += 1;
        }
        assert(sizes@ =~= self.sizes());
        sizes
    }
}

/// The metadata of an outgoing buffer, by the version of its layout.
#[derive(Debug, Clone, PartialEq, Eq)]
pub enum OutgoingBufferMetadata {
    V0(OutgoingBufferMetadataV0),
}

impl OutgoingBufferMetadata {
    /// The sizes of the groups, oldest first.
    pub open spec fn sizes(&self) -> Seq<u64> {
        match self {
            OutgoingBufferMetadata::V0(metadata) => metadata.sizes(),
        }
    }

    /// The size from which on a group takes no further receipt.
    pub open spec fn threshold(&self) -> u64 {
        match self {
            OutgoingBufferMetadata::V0(metadata) => metadata.group_size_threshold,
        }
    }

    pub fn new(group_size_threshold: u64) -> (metadata: Self)
        ensures
            metadata.sizes() == Seq::<u64>::empty(),
            metadata.threshold() == group_size_threshold,
    {
        OutgoingBufferMetadata::V0(OutgoingBufferMetadataV0::new(group_size_threshold))
    }

    /// A receipt of `receipt_size` was put at the end of the buffer.
    pub fn on_receipt_buffered(&mut self, receipt_size: u64)
        requires
            push_fits(old(self).sizes(), old(self).threshold(), receipt_size),
        ensures
            final(self).threshold() == old(self).threshold(),
            final(self).sizes() == sizes_after_push(
                old(self).sizes(),
                old(self).threshold(),
                receipt_size,
            ),
    {
        match self {
            OutgoingBufferMetadata::V0(metadata) => {
                metadata.on_receipt_pushed(receipt_size);
            },
        }
    }

    /// The receipt at the front of the buffer, of `receipt_size`, was taken
    /// out.
    pub fn on_receipt_removed(&mut self, receipt_size: u64)
        requires
            pop_fits(old(self).sizes(), receipt_size),
        ensures
            final(self).threshold() == old(self).threshold(),
            final(self).sizes() == sizes_after_pop(old(self).sizes(), receipt_size),
    {
        match self {
            OutgoingBufferMetadata::V0(metadata) => {
                metadata.on_receipt_popped(receipt_size);
            },
        }
    }

    /// The sizes of the groups, oldest first.
    pub fn receipt_group_sizes(&self) -> (sizes: Vec<u64>)
        ensures
            sizes@ == self.sizes(),
    {
        match self {
            OutgoingBufferMetadata::V0(metadata) => metadata.receipt_group_sizes(),
        }
    }
}

/// The metadata of the outgoing buffers of a shard, one per receiving shard
/// that ever had a receipt buffered.
#[derive(Debug)]
pub struct OutgoingMetadatas {
    pub metadatas: BTreeMap<u64, OutgoingBufferMetadata>,
    pub group_size_threshold: u64,
}

impl OutgoingMetadatas {
    /// The group sizes of the buffer to `shard_id`, if it has metadata.
    pub open spec fn sizes(&self, shard_id: u64) -> Option<Seq<u64>> {
        if self.metadatas@.contains_key(shard_id) {
            Some(self.metadatas@[shard_id].sizes())
        } else {
            None
        }
    }

    /// Every buffer groups by the same threshold.
    pub open spec fn wf(&self) -> bool {
        forall|shard_id: u64| #[trigger]
            self.metadatas@.contains_key(shard_id) ==> self.metadatas@[shard_id].threshold()
                == self.group_size_threshold
    }

    /// What a receipt of `receipt_size` meets in the buffer to `shard_id`:
    /// the groups there are, or none yet.
    pub open spec fn sizes_or_none(&self, shard_id: u64) -> Seq<u64> {
        match self.sizes(shard_id) {
            Some(sizes) => sizes,
            None => Seq::empty(),
        }
    }

    pub fn new(group_size_threshold: u64) -> (metadatas: Self)
        ensures
            metadatas.wf(),
            metadatas.metadatas@ == Map::<u64, OutgoingBufferMetadata>::empty(),
            metadatas.group_size_threshold == group_size_threshold,
    {
        Self { metadatas: BTreeMap::new(), group_size_threshold }
    }

    /// A receipt of `receipt_size` was buffered for `shard_id`. The first
    /// receipt for a shard starts its metadata.
    pub fn on_receipt_buffered(&mut self, shard_id: u64, receipt_size: u64)
        requires
            old(self).wf(),
            push_fits(
                old(self).sizes_or_none(shard_id),
                old(self).group_size_threshold,
                receipt_size,
            ),
        ensures
            final(self).wf(),
            final(self).group_size_threshold == old(self).group_size_threshold,
            final(self).metadatas@.dom() == old(self).metadatas@.dom().insert(shard_id),
            final(self).sizes(shard_id) == Some(
                sizes_after_push(
                    old(self).sizes_or_none(shard_id),
                    old(self).group_size_threshold,
                    receipt_size,
                ),
            ),
            forall|other: u64|
                other != shard_id ==> #[trigger] final(self).sizes(other) == old(self).sizes(other),
    {
        broadcast use group_btree_axioms, group_laws_cmp;

        let mut metadata = match self.metadatas.remove(&shard_id) {
            Some(metadata) => metadata,
            None => OutgoingBufferMetadata::new(self.group_size_threshold),
        };
        metadata.on_receipt_buffered(receipt_size);
        self.metadatas.insert(shard_id, metadata);
        assert(self.metadatas@.dom() =~= old(self).metadatas@.dom().insert(shard_id));
    }

    /// The receipt at the front of the buffer to `shard_id`, of
    /// `receipt_size`, was taken out.
    pub fn on_receipt_removed(&mut self, shard_id: u64, receipt_size: u64)
        requires
            old(self).wf(),
            old(self).sizes(shard_id) is Some,
            pop_fits(old(self).sizes(shard_id).unwrap(), receipt_size),
        ensures
            final(self).wf(),
            final(self).group_size_threshold == old(self).group_size_threshold,
            final(self).metadatas@.dom() == old(self).metadatas@.dom(),
            final(self).sizes(shard_id) == Some(
                sizes_after_pop(old(self).sizes(shard_id).unwrap(), receipt_size),
            ),
            forall|other: u64|
                other != shard_id ==> #[trigger] final(self).sizes(other) == old(self).sizes(other),
    {
        broadcast use group_btree_axioms, group_laws_cmp;

        match self.metadatas.remove(&shard_id) {
            Some(mut metadata) => {
                metadata.on_receipt_removed(receipt_size);
                self.metadatas.insert(shard_id, metadata);
            },
            None => {},
        }
        assert(self.metadatas@.dom() =~= old(self).metadatas@.dom());
    }
}

} // verus!
