//! Finding the blocks whose ordinal leads to another block: the table from
//! block to ordinal and the table from ordinal to block should be each
//! other's inverse, and where they are not, the table of heights says which
//! block is the right one.
//!
//! The work is shared out by striding: worker `thread_id` of `num_threads`
//! looks at the entries `thread_id`, `thread_id + num_threads`, and so on.

use vstd::prelude::*;
use vstd::std_specs::hash::group_hash_axioms;
use std::collections::HashMap;

verus! {

/// A number that stands for a block hash.
#[derive(Clone, Copy, PartialEq, Eq, Debug)]
pub struct HashIndex(pub u32);

/// What a worker tells about its share of the table.
#[derive(Clone, Copy, PartialEq, Eq, Debug)]
pub enum FindInconsistenciesUpdate {
    /// The ordinal of the block at `block_height` leads to another block.
    Inconsistency {
        block_height: u32,
        block_ordinal: u32,
        correct_block_hash: HashIndex,
        actual_block_hash: HashIndex,
    },
    /// So many entries were looked at since the last such update.
    Processed(usize),
}

/// The number of entries after which a worker tells how far it is.
pub const PROGRESS_INTERVAL: usize = 1000;

/// What there is to tell about one entry of the table of heights: nothing,
/// unless its block has an ordinal, the ordinal has a block, and that block
/// is another.
pub open spec fn inconsistency_of(
    entry: (u32, HashIndex),
    ordinal_to_hash: Map<u32, HashIndex>,
    hash_to_ordinal: Map<u32, u32>,
) -> Seq<FindInconsistenciesUpdate> {
    let block_hash = entry.1;
    if hash_to_ordinal.contains_key(block_hash.0) && ordinal_to_hash.contains_key(
        hash_to_ordinal[block_hash.0],
    ) && ordinal_to_hash[hash_to_ordinal[block_hash.0]] != block_hash {
        seq![
            FindInconsistenciesUpdate::Inconsistency {
                block_height: entry.0,
                block_ordinal: hash_to_ordinal[block_hash.0],
                correct_block_hash: block_hash,
                actual_block_hash: ordinal_to_hash[hash_to_ordinal[block_hash.0]],
            },
        ]
    } else {
        Seq::empty()
    }
}

/// The updates of a worker that stands before the entry `at`, takes every
/// `stride`-th entry from there, and has looked at `counted` entries since it
/// last told how far it is. It ends by telling what is left of the count.
pub open spec fn updates_from(
    height_to_hash: Seq<(u32, HashIndex)>,
    ordinal_to_hash: Map<u32, HashIndex>,
    hash_to_ordinal: Map<u32, u32>,
    at: int,
    stride: int,
    counted: int,
) -> Seq<FindInconsistenciesUpdate>
    decreases
        (if at < height_to_hash.len() {
            height_to_hash.len() - at
        } else {
            0
        }),
{
    if stride <= 0 || at < 0 || at >= height_to_hash.len() {
        seq![FindInconsistenciesUpdate::Processed(counted as usize)]
    } else if counted + 1 == PROGRESS_INTERVAL {
        inconsistency_of(height_to_hash[at], ordinal_to_hash, hash_to_ordinal)
            + seq![FindInconsistenciesUpdate::Processed(PROGRESS_INTERVAL)] + updates_from(
            height_to_hash,
            ordinal_to_hash,
            hash_to_ordinal,
            at + stride,
            stride,
            0,
        )
    } else {
        inconsistency_of(height_to_hash[at], ordinal_to_hash, hash_to_ordinal) + updates_from(
            height_to_hash,
            ordinal_to_hash,
            hash_to_ordinal,
            at + stride,
            stride,
            counted + 1,
        )
    }
}

/// A worker tells every inconsistency on its way: if the entry that it
/// reaches after `steps` strides has one, the worker's updates hold it.
pub proof fn lemma_inconsistency_is_told(
    height_to_hash: Seq<(u32, HashIndex)>,
    ordinal_to_hash: Map<u32, HashIndex>,
    hash_to_ordinal: Map<u32, u32>,
    at: int,
    stride: int,
    counted: int,
    steps: nat,
)
    requires
        stride > 0,
        0 <= at,
        at + steps * stride < height_to_hash.len(),
        inconsistency_of(
            height_to_hash[at + steps * stride],
            ordinal_to_hash,
            hash_to_ordinal,
        ).len() > 0,
    ensures
        updates_from(
            height_to_hash,
            ordinal_to_hash,
            hash_to_ordinal,
            at,
            stride,
            counted,
        ).contains(
            inconsistency_of(
                height_to_hash[at + steps * stride],
                ordinal_to_hash,
                hash_to_ordinal,
            )[0],
        ),
    decreases steps,
{
    let updates = updates_from(
        height_to_hash,
        ordinal_to_hash,
        hash_to_ordinal,
        at,
        stride,
        counted,
    );
    let here = inconsistency_of(height_to_hash[at], ordinal_to_hash, hash_to_ordinal);
    assert(steps * stride >= 0) by (nonlinear_arith)
        requires
            steps >= 0,
            stride > 0,
    ;
    assert(at < height_to_hash.len());
    if steps == 0 {
        assert(steps * stride == 0) by (nonlinear_arith)
            requires
                steps == 0,
        ;
        assert(updates[0] == here[0]);
    } else {
        assert(steps * stride == stride + (steps - 1) * stride) by (nonlinear_arith);
        let carried = if counted + 1 == PROGRESS_INTERVAL {
            0
        } else {
            counted + 1
        };
        let rest = updates_from(
            height_to_hash,
            ordinal_to_hash,
            hash_to_ordinal,
            at + stride,
            stride,
            carried,
        );
        lemma_inconsistency_is_told(
            height_to_hash,
            ordinal_to_hash,
            hash_to_ordinal,
            at + stride,
            stride,
            carried,
            (steps - 1) as nat,
        );
        let told = inconsistency_of(
            height_to_hash[at + steps * stride],
            ordinal_to_hash,
            hash_to_ordinal,
        )[0];
        let place = choose|i: int| 0 <= i < rest.len() && rest[i] == told;
        assert(updates[updates.len() - rest.len() + place] == told);
    }
}

/// The updates of worker `thread_id` of `num_threads`, in the order in which
/// it has them to tell: an inconsistency when it meets one, its progress
/// after every thousand entries, and at last what is left of the count.
///
/// `hash_to_ordinal` is keyed by the number in the `HashIndex`.
pub fn find_inconsistencies_thread(
    height_to_hash: &Vec<(u32, HashIndex)>,
    ordinal_to_hash: &HashMap<u32, HashIndex>,
    hash_to_ordinal: &HashMap<u32, u32>,
    thread_id: usize,
    num_threads: usize,
) -> (updates: Vec<FindInconsistenciesUpdate>)
    requires
        num_threads > 0,
    ensures
        updates@ == updates_from(
            height_to_hash@,
            ordinal_to_hash@,
            hash_to_ordinal@,
            thread_id as int,
            num_threads as int,
            0,
        ),
{
    broadcast use group_hash_axioms;

    let ghost whole = updates_from(
        height_to_hash@,
        ordinal_to_hash@,
        hash_to_ordinal@,
        thread_id as int,
        num_threads as int,
        0,
    );
    let mut updates: Vec<FindInconsistenciesUpdate> = Vec::new();
    let mut processed_counter: usize = 0;
    let mut i: usize = thread_id;
    while i < height_to_hash.len()
        invariant
            num_threads > 0,
            processed_counter < PROGRESS_INTERVAL,
            whole == updates@ + updates_from(
                height_to_hash@,
                ordinal_to_hash@,
                hash_to_ordinal@,
                i as int,
                num_threads as int,
                processed_counter as int,
            ),
        decreases
            (if i < height_to_hash.len() {
                height_to_hash.len() - i
            } else {
                0
            }),
    {
        let ghost told = updates@;
        let ghost found = inconsistency_of(height_to_hash@[i as int], ordinal_to_hash@, hash_to_ordinal@);
        let (height, block_hash) = height_to_hash[i];
        if let Some(block_ordinal) = hash_to_ordinal.get(&block_hash.0) {
            if let Some(hash_at_ordinal) = ordinal_to_hash.get(block_ordinal) {
                if hash_at_ordinal.0 != block_hash.0 {
                    updates.push(
                        FindInconsistenciesUpdate::Inconsistency {
                            block_height: height,
                            block_ordinal: *block_ordinal,
                            correct_block_hash: block_hash,
                            actual_block_hash: *hash_at_ordinal,
                        },
                    );
                }
            }
        }
        assert(updates@ =~= told + found);
        processed_counter += 1;
        if processed_counter == PROGRESS_INTERVAL {
            updates.push(FindInconsistenciesUpdate::Processed(processed_counter));
            processed_counter = 0;
            assert(updates@ =~= told + (found + seq![
                FindInconsistenciesUpdate::Processed(PROGRESS_INTERVAL),
            ]));
        }
        let ghost next = i + num_threads;
        i = match i.checked_add(num_threads) {
            Some(next) => next,
            None => height_to_hash.len(),
        };
        assert(updates_from(
            height_to_hash@,
            ordinal_to_hash@,
            hash_to_ordinal@,
            i as int,
            num_threads as int,
            processed_counter as int,
        ) == updates_from(
            height_to_hash@,
            ordinal_to_hash@,
            hash_to_ordinal@,
            next,
            num_threads as int,
            processed_counter as int,
        ));
        assert(whole =~= updates@ + updates_from(
            height_to_hash@,
            ordinal_to_hash@,
            hash_to_ordinal@,
            i as int,
            num_threads as int,
            processed_counter as int,
        ));
    }
    updates.push(FindInconsistenciesUpdate::Processed(processed_counter));
    assert(updates@ =~= whole);
    updates
}

} // verus!
