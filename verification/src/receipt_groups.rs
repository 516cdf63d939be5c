//! The grouping of the receipts in an outgoing buffer by size, as the
//! bandwidth scheduler reads it: consecutive receipts form a group until the
//! group has reached a minimum size.

use vstd::prelude::*;
use std::collections::VecDeque;

verus! {

/// The minimum size of a group in this version of the metadata.
pub const MIN_GROUP_SIZE: u64 = 30_000;

/// Consecutive buffered receipts, by their total size.
#[derive(Debug, Clone, Copy)]
pub struct BufferedReceiptGroup {
    pub total_size: u64,
}

impl BufferedReceiptGroup {
    /// A group without receipts.
    pub fn new() -> (group: BufferedReceiptGroup)
        ensures
            group.total_size == 0,
    {
        BufferedReceiptGroup { total_size: 0 }
    }
}

/// The total sizes of the groups.
pub open spec fn total_sizes(groups: Seq<BufferedReceiptGroup>) -> Seq<u64> {
    Seq::new(groups.len(), |i: int| groups[i].total_size)
}

/// The groups that a pushed receipt meets: those there are, or one empty
/// group if there is none.
pub open spec fn open_groups(sizes: Seq<u64>) -> Seq<u64> {
    if sizes.len() == 0 {
        seq![0u64]
    } else {
        sizes
    }
}

/// The group sizes after a receipt of `receipt_size` was pushed: it starts a
/// group if the last one has reached the minimum size, else it joins the last
/// one.
pub open spec fn sizes_after_push(sizes: Seq<u64>, min_group_size: u64, receipt_size: u64) -> Seq<
    u64,
> {
    let open = open_groups(sizes);
    if open.last() >= min_group_size {
        open.push(receipt_size)
    } else {
        open.update(open.len() - 1, (open.last() + receipt_size) as u64)
    }
}

/// The group sizes after the oldest receipt, of `receipt_size`, was popped:
/// it leaves the first group, and a group that is left empty leaves too.
/// Without groups nothing changes: the receipt dates from before groups were
/// tracked.
pub open spec fn sizes_after_pop(sizes: Seq<u64>, receipt_size: u64) -> Seq<u64> {
    if sizes.len() == 0 {
        sizes
    } else if sizes[0] == receipt_size {
        sizes.drop_first()
    } else {
        sizes.update(0, (sizes[0] - receipt_size) as u64)
    }
}

/// Whether a receipt of `receipt_size` can be pushed without the size of its
/// group leaving the range of the counter.
pub open spec fn push_fits(sizes: Seq<u64>, min_group_size: u64, receipt_size: u64) -> bool {
    open_groups(sizes).last() < min_group_size ==> open_groups(sizes).last() + receipt_size
        <= u64::MAX
}

/// Whether the first group, if there is one, holds a receipt of
/// `receipt_size` to remove.
pub open spec fn pop_fits(sizes: Seq<u64>, receipt_size: u64) -> bool {
    sizes.len() > 0 ==> sizes[0] >= receipt_size
}

/// The groups of the buffered receipts, oldest first.
#[derive(Debug, Clone)]
pub struct BufferedReceiptGroups {
    pub groups: VecDeque<BufferedReceiptGroup>,
    pub min_group_size: u64,
}

impl BufferedReceiptGroups {
    /// The total sizes of the groups, oldest first.
    pub open spec fn sizes(&self) -> Seq<u64> {
        total_sizes(self.groups@)
    }

    pub fn new(min_group_size: u64) -> (groups: BufferedReceiptGroups)
        ensures
            groups.sizes() == Seq::<u64>::empty(),
            groups.min_group_size == min_group_size,
    {
        let groups = BufferedReceiptGroups { groups: VecDeque::new(), min_group_size };
        assert(groups.sizes() =~= Seq::empty());
        groups
    }

    /// A receipt of `receipt_size` was pushed onto the buffer.
    pub fn on_receipt_pushed(&mut self, receipt_size: u64)
        requires
            push_fits(old(self).sizes(), old(self).min_group_size, receipt_size),
        ensures
            final(self).min_group_size == old(self).min_group_size,
            final(self).sizes() == sizes_after_push(
                old(self).sizes(),
                old(self).min_group_size,
                receipt_size,
            ),
    {
        let ghost before = self.sizes();
        let mut last_group = match self.groups.pop_back() {
            Some(group) => group,
            None => BufferedReceiptGroup::new(),
        };
        assert(last_group.total_size == open_groups(before).last());
        assert(total_sizes(self.groups@) =~= open_groups(before).drop_last());
        if last_group.total_size >= self.min_group_size {
            self.groups.push_back(last_group);
            last_group = BufferedReceiptGroup::new();
        }
        last_group.total_size = last_group.total_size + receipt_size;
        self.groups.push_back(last_group);
        assert(self.sizes() =~= sizes_after_push(before, self.min_group_size, receipt_size));
    }

    /// The receipt at the front of the buffer, of `receipt_size`, was popped.
    pub fn on_receipt_popped(&mut self, receipt_size: u64)
        requires
            pop_fits(old(self).sizes(), receipt_size),
        ensures
            final(self).min_group_size == old(self).min_group_size,
            final(self).sizes() == sizes_after_pop(old(self).sizes(), receipt_size),
    {
        let ghost before = self.sizes();
        let mut first_group = match self.groups.pop_front() {
            Some(group) => group,
            None => {
                return ;
            },
        };
        assert(first_group.total_size == before[0]);
        first_group.total_size = first_group.total_size - receipt_size;
        if first_group.total_size > 0 {
            self.groups.push_front(first_group);
        }
        assert(self.sizes() =~= sizes_after_pop(before, receipt_size));
    }

    /// The total sizes of the groups, oldest first.
    pub fn group_sizes_iter(&self) -> (sizes: Vec<u64>)
        ensures
            sizes@ == self.sizes(),
    {
        let mut sizes: Vec<u64> = Vec::new();
        let mut i: usize = 0;
        while i < self.groups.len()
            invariant
                i <= self.groups.len(),
                sizes@ == self.sizes().take(i as int),
            decreases self.groups.len() - i,
        {
            sizes.push(self.groups[i].total_size);
            assert(sizes@ =~= self.sizes().take(i + 1));
            i += 1;
        }
        assert(sizes@ =~= self.sizes());
        sizes
    }
}

/// The sum of the sizes.
pub open spec fn sum(sizes: Seq<u64>) -> int
    decreases sizes.len(),
{
    if sizes.len() == 0 {
        0
    } else {
        sum(sizes.drop_last()) + sizes.last()
    }
}

/// The sum of a list with its first entry replaced, and without it.
pub proof fn lemma_sum_update_first(sizes: Seq<u64>, value: u64)
    requires
        sizes.len() > 0,
    ensures
        sum(sizes.update(0, value)) == sum(sizes) - sizes[0] + value,
        sum(sizes.drop_first()) == sum(sizes) - sizes[0],
    decreases sizes.len(),
{
    if sizes.len() == 1 {
        assert(sizes.update(0, value).drop_last() =~= Seq::<u64>::empty());
        assert(sizes.drop_last() =~= Seq::<u64>::empty());
        assert(sizes.drop_first() =~= Seq::<u64>::empty());
        assert(sum(Seq::<u64>::empty()) == 0);
    } else {
        lemma_sum_update_first(sizes.drop_last(), value);
        assert(sizes.update(0, value).drop_last() =~= sizes.drop_last().update(0, value));
        assert(sizes.drop_first().drop_last() =~= sizes.drop_last().drop_first());
    }
}

/// The sum of sizes that are not zero is not zero, and not less than the
/// first of them.
pub proof fn lemma_sum_of_positive(sizes: Seq<u64>)
    requires
        forall|i: int| 0 <= i < sizes.len() ==> #[trigger] sizes[i] > 0,
    ensures
        sum(sizes) >= 0,
        sizes.len() > 0 ==> sum(sizes) >= sizes[0],
        sizes.len() > 1 ==> sum(sizes) > sizes[0],
    decreases sizes.len(),
{
    if sizes.len() > 0 {
        let rest = sizes.drop_last();
        assert forall|i: int| 0 <= i < rest.len() implies #[trigger] rest[i] > 0 by {
            assert(rest[i] == sizes[i]);
        }
        lemma_sum_of_positive(rest);
        assert(sizes.last() == sizes[sizes.len() - 1]);
        if sizes.len() > 1 {
            assert(rest[0] == sizes[0]);
        }
    }
}

/// The groups account for what is buffered: a pushed receipt adds its size to
/// the total of the group sizes.
pub proof fn lemma_push_adds_size(sizes: Seq<u64>, min_group_size: u64, receipt_size: u64)
    requires
        push_fits(sizes, min_group_size, receipt_size),
    ensures
        sum(sizes_after_push(sizes, min_group_size, receipt_size)) == sum(sizes) + receipt_size,
{
    let open = open_groups(sizes);
    assert(sum(open) == sum(sizes)) by {
        if sizes.len() == 0 {
            assert(open.drop_last() =~= Seq::<u64>::empty());
            assert(sum(Seq::<u64>::empty()) == 0);
            assert(sizes =~= Seq::<u64>::empty());
            assert(open.last() == 0);
        }
    }
    let after = sizes_after_push(sizes, min_group_size, receipt_size);
    if open.last() >= min_group_size {
        assert(after.drop_last() =~= open);
    } else {
        assert(after.drop_last() =~= open.drop_last());
    }
}

/// A popped receipt takes its size off the total of the group sizes, unless
/// no group was tracked.
pub proof fn lemma_pop_removes_size(sizes: Seq<u64>, receipt_size: u64)
    requires
        pop_fits(sizes, receipt_size),
        sizes.len() > 0,
    ensures
        sum(sizes_after_pop(sizes, receipt_size)) == sum(sizes) - receipt_size,
{
    lemma_sum_update_first(sizes, (sizes[0] - receipt_size) as u64);
}

/// What happens to a buffer: a receipt of some size is pushed onto its end, or
/// the oldest receipt, of some size, is popped.
pub enum BufferEvent {
    Pushed(u64),
    Popped(u64),
}

/// The group sizes after the events, from a buffer without receipts.
pub open spec fn sizes_after_events(events: Seq<BufferEvent>, min_group_size: u64) -> Seq<u64>
    decreases events.len(),
{
    if events.len() == 0 {
        Seq::empty()
    } else {
        let before = sizes_after_events(events.drop_last(), min_group_size);
        match events.last() {
            BufferEvent::Pushed(receipt_size) => sizes_after_push(
                before,
                min_group_size,
                receipt_size,
            ),
            BufferEvent::Popped(receipt_size) => sizes_after_pop(before, receipt_size),
        }
    }
}

/// The total size of the receipts that the events leave in the buffer: what
/// was pushed less what was popped.
pub open spec fn buffered_after_events(events: Seq<BufferEvent>) -> int
    decreases events.len(),
{
    if events.len() == 0 {
        0
    } else {
        match events.last() {
            BufferEvent::Pushed(receipt_size) => buffered_after_events(events.drop_last())
                + receipt_size,
            BufferEvent::Popped(receipt_size) => buffered_after_events(events.drop_last())
                - receipt_size,
        }
    }
}

/// Whether every event finds what `on_receipt_pushed` and `on_receipt_popped`
/// ask for: a pushed receipt fits the counter of its group, and a popped one
/// is held by the first group.
pub open spec fn events_fit(events: Seq<BufferEvent>, min_group_size: u64) -> bool
    decreases events.len(),
{
    events.len() > 0 ==> {
        let before = sizes_after_events(events.drop_last(), min_group_size);
        &&& events_fit(events.drop_last(), min_group_size)
        &&& match events.last() {
            BufferEvent::Pushed(receipt_size) => push_fits(before, min_group_size, receipt_size),
            BufferEvent::Popped(receipt_size) => before.len() > 0 && before[0] >= receipt_size,
        }
    }
}

/// Over any run of pushes and pops from a buffer without receipts, the groups
/// account for what is buffered: their sizes add up to what was pushed less
/// what was popped.
pub proof fn lemma_groups_account_for_the_buffer(events: Seq<BufferEvent>, min_group_size: u64)
    requires
        events_fit(events, min_group_size),
    ensures
        sum(sizes_after_events(events, min_group_size)) == buffered_after_events(events),
    decreases events.len(),
{
    if events.len() > 0 {
        let before = sizes_after_events(events.drop_last(), min_group_size);
        lemma_groups_account_for_the_buffer(events.drop_last(), min_group_size);
        match events.last() {
            BufferEvent::Pushed(receipt_size) => {
                lemma_push_adds_size(before, min_group_size, receipt_size);
            },
            BufferEvent::Popped(receipt_size) => {
                lemma_pop_removes_size(before, receipt_size);
            },
        }
    }
}

/// Over any such run, a group that is neither the first nor the last has
/// reached the minimum size: only the last group takes receipts, and only
/// the first gives them up.
pub proof fn lemma_inner_groups_are_full(events: Seq<BufferEvent>, min_group_size: u64)
    requires
        events_fit(events, min_group_size),
    ensures
        forall|i: int|
            0 < i < sizes_after_events(events, min_group_size).len() - 1
                ==> #[trigger] sizes_after_events(events, min_group_size)[i] >= min_group_size,
    decreases events.len(),
{
    if events.len() > 0 {
        lemma_inner_groups_are_full(events.drop_last(), min_group_size);
        let before = sizes_after_events(events.drop_last(), min_group_size);
        let after = sizes_after_events(events, min_group_size);
        assert forall|i: int| 0 < i < after.len() - 1 implies #[trigger] after[i]
            >= min_group_size by {
            match events.last() {
                BufferEvent::Pushed(receipt_size) => {
                    if i < before.len() - 1 {
                        assert(before[i] >= min_group_size);
                    }
                },
                BufferEvent::Popped(receipt_size) => {
                    if before[0] == receipt_size {
                        assert(after[i] == before[i + 1]);
                        assert(before[i + 1] >= min_group_size);
                    } else {
                        assert(before[i] >= min_group_size);
                    }
                },
            }
        }
    }
}

/// The buffer after the events, cut into its groups: the sizes of the
/// receipts of each group, oldest first. A pushed receipt joins the last
/// group or starts one, as its size does in the group sizes; a pop takes
/// the oldest receipt away, and its group with it if it was alone.
pub open spec fn receipts_after_events(events: Seq<BufferEvent>, threshold: u64) -> Seq<Seq<u64>>
    decreases events.len(),
{
    if events.len() == 0 {
        Seq::empty()
    } else {
        let before = receipts_after_events(events.drop_last(), threshold);
        match events.last() {
            BufferEvent::Pushed(receipt_size) => if before.len() > 0 && sum(before.last())
                < threshold {
                before.update(before.len() - 1, before.last().push(receipt_size))
            } else {
                before.push(seq![receipt_size])
            },
            BufferEvent::Popped(_) => if before.len() == 0 {
                before
            } else if before[0].len() <= 1 {
                before.drop_first()
            } else {
                before.update(0, before[0].drop_first())
            },
        }
    }
}

/// Whether the events are the life of a buffer whose groups have a minimum
/// size: every pushed receipt has a size and fits the counter of its group,
/// and every pop names the size of the receipt that is the oldest in the
/// buffer by then.
pub open spec fn life_of_a_buffer(events: Seq<BufferEvent>, min_group_size: u64) -> bool
    decreases events.len(),
{
    events.len() > 0 ==> {
        let sizes = sizes_after_events(events.drop_last(), min_group_size);
        let receipts = receipts_after_events(events.drop_last(), min_group_size);
        &&& min_group_size > 0
        &&& life_of_a_buffer(events.drop_last(), min_group_size)
        &&& match events.last() {
            BufferEvent::Pushed(receipt_size) => receipt_size > 0 && push_fits(
                sizes,
                min_group_size,
                receipt_size,
            ),
            BufferEvent::Popped(receipt_size) => receipts.len() > 0 && receipts[0].len() > 0
                && receipts[0][0] == receipt_size,
        }
    }
}

/// Through the life of a buffer every pop finds its receipt in the first
/// group, and every group has the size of the receipts that it stands for.
pub proof fn lemma_groups_follow_the_buffer(events: Seq<BufferEvent>, min_group_size: u64)
    requires
        life_of_a_buffer(events, min_group_size),
    ensures
        events_fit(events, min_group_size),
        sizes_after_events(events, min_group_size).len() == receipts_after_events(
            events,
            min_group_size,
        ).len(),
        forall|i: int|
            0 <= i < receipts_after_events(events, min_group_size).len() ==> {
                &&& (#[trigger] receipts_after_events(events, min_group_size)[i]).len() > 0
                &&& sizes_after_events(events, min_group_size)[i] == sum(
                    receipts_after_events(events, min_group_size)[i],
                )
                &&& forall|j: int|
                    0 <= j < receipts_after_events(events, min_group_size)[i].len()
                        ==> #[trigger] receipts_after_events(events, min_group_size)[i][j] > 0
            },
    decreases events.len(),
{
    if events.len() > 0 {
        lemma_groups_follow_the_buffer(events.drop_last(), min_group_size);
        let sizes = sizes_after_events(events.drop_last(), min_group_size);
        let receipts = receipts_after_events(events.drop_last(), min_group_size);
        let after = receipts_after_events(events, min_group_size);
        let sizes_after = sizes_after_events(events, min_group_size);
        match events.last() {
            BufferEvent::Pushed(receipt_size) => {
                if receipts.len() > 0 {
                    assert(sizes.last() == sum(receipts.last()));
                }
                if receipts.len() > 0 && sum(receipts.last()) < min_group_size {
                    let joined = receipts.last().push(receipt_size);
                    assert(joined.drop_last() =~= receipts.last());
                    assert(sum(joined) == sum(receipts.last()) + receipt_size);
                    assert forall|i: int| 0 <= i < after.len() implies {
                        &&& (#[trigger] after[i]).len() > 0
                        &&& sizes_after[i] == sum(after[i])
                        &&& forall|j: int| 0 <= j < after[i].len() ==> #[trigger] after[i][j] > 0
                    } by {
                        if i < after.len() - 1 {
                            assert(after[i] == receipts[i]);
                        }
                    }
                } else {
                    let alone = seq![receipt_size];
                    assert(alone.drop_last() =~= Seq::<u64>::empty());
                    assert(sum(alone.drop_last()) == 0);
                    assert(sum(alone) == receipt_size);
                    assert forall|i: int| 0 <= i < after.len() implies {
                        &&& (#[trigger] after[i]).len() > 0
                        &&& sizes_after[i] == sum(after[i])
                        &&& forall|j: int| 0 <= j < after[i].len() ==> #[trigger] after[i][j] > 0
                    } by {
                        if i < after.len() - 1 {
                            assert(after[i] == receipts[i]);
                        }
                    }
                }
            },
            BufferEvent::Popped(receipt_size) => {
                let first = receipts[0];
                assert(sizes[0] == sum(first));
                lemma_sum_of_positive(first);
                lemma_sum_update_first(first, 0);
                assert(sizes[0] >= receipt_size);
                if first.len() <= 1 {
                    assert(first.drop_first() =~= Seq::<u64>::empty());
                    assert(sum(first.drop_first()) == 0);
                    assert(sizes[0] == receipt_size);
                    assert forall|i: int| 0 <= i < after.len() implies {
                        &&& (#[trigger] after[i]).len() > 0
                        &&& sizes_after[i] == sum(after[i])
                        &&& forall|j: int| 0 <= j < after[i].len() ==> #[trigger] after[i][j] > 0
                    } by {
                        assert(after[i] == receipts[i + 1]);
                    }
                } else {
                    assert(sizes[0] > receipt_size);
                    let rest = first.drop_first();
                    assert forall|i: int| 0 <= i < after.len() implies {
                        &&& (#[trigger] after[i]).len() > 0
                        &&& sizes_after[i] == sum(after[i])
                        &&& forall|j: int| 0 <= j < after[i].len() ==> #[trigger] after[i][j] > 0
                    } by {
                        if i > 0 {
                            assert(after[i] == receipts[i]);
                        } else {
                            assert forall|j: int| 0 <= j < rest.len() implies #[trigger] rest[j]
                                > 0 by {
                                assert(rest[j] == first[j + 1]);
                            }
                        }
                    }
                }
            },
        }
    }
}

/// The metadata of an outgoing buffer in its second layout.
#[derive(Clone, Debug)]
pub struct OutgoingBufferMetadataV1 {
    pub groups: BufferedReceiptGroups,
}

impl OutgoingBufferMetadataV1 {
    pub fn new() -> (metadata: Self)
        ensures
            metadata.groups.sizes() == Seq::<u64>::empty(),
            metadata.groups.min_group_size == MIN_GROUP_SIZE,
    {
        OutgoingBufferMetadataV1 { groups: BufferedReceiptGroups::new(MIN_GROUP_SIZE) }
    }
}

/// The metadata of an outgoing buffer, by the version of its layout.
#[derive(Clone, Debug)]
pub enum OutgoingBufferMetadata {
    V1(OutgoingBufferMetadataV1),
}

impl OutgoingBufferMetadata {
    /// The total sizes of the groups, oldest first.
    pub open spec fn sizes(&self) -> Seq<u64> {
        match self {
            OutgoingBufferMetadata::V1(v1) => v1.groups.sizes(),
        }
    }

    /// The minimum size of a group.
    pub open spec fn min_group_size(&self) -> u64 {
        match self {
            OutgoingBufferMetadata::V1(v1) => v1.groups.min_group_size,
        }
    }

    pub fn new() -> (metadata: OutgoingBufferMetadata)
        ensures
            metadata.sizes() == Seq::<u64>::empty(),
            metadata.min_group_size() == MIN_GROUP_SIZE,
    {
        OutgoingBufferMetadata::V1(OutgoingBufferMetadataV1::new())
    }

    /// A receipt of `receipt_size` was pushed onto the buffer.
    pub fn update_on_receipt_pushed(&mut self, receipt_size: u64)
        requires
            push_fits(old(self).sizes(), old(self).min_group_size(), receipt_size),
        ensures
            final(self).min_group_size() == old(self).min_group_size(),
            final(self).sizes() == sizes_after_push(
                old(self).sizes(),
                old(self).min_group_size(),
                receipt_size,
            ),
    {
        match self {
            OutgoingBufferMetadata::V1(v1) => v1.groups.on_receipt_pushed(receipt_size),
        }
    }

    /// The receipt at the front of the buffer, of `receipt_size`, was popped.
    pub fn update_on_receipt_popped(&mut self, receipt_size: u64)
        requires
            pop_fits(old(self).sizes(), receipt_size),
        ensures
            final(self).min_group_size() == old(self).min_group_size(),
            final(self).sizes() == sizes_after_pop(old(self).sizes(), receipt_size),
    {
        match self {
            OutgoingBufferMetadata::V1(v1) => v1.groups.on_receipt_popped(receipt_size),
        }
    }

    /// The total sizes of the groups, oldest first.
    pub fn grouped_receipts_sizes(&self) -> (sizes: Vec<u64>)
        ensures
            sizes@ == self.sizes(),
    {
        match self {
            OutgoingBufferMetadata::V1(v1) => v1.groups.group_sizes_iter(),
        }
    }
}

} // verus!
