//! Facts about lists of entries in order of use, which is how this crate
//! models a bounded least-recently-used cache: what a lookup finds after an
//! entry was used again, came in or left.

use vstd::prelude::*;
use crate::lru_cache::{admitted, bounded, displaces, distinct_keys, position, promoted};

verus! {

/// What a lookup by key finds in the entries.
pub open spec fn contents<K, V>(entries: Seq<(K, V)>) -> Map<K, V> {
    Map::new(|key: K| position(entries, key) >= 0, |key: K| entries[position(entries, key)].1)
}

/// The position of a key is within the entries and holds that key, or it is
/// -1 and no entry holds the key.
pub proof fn lemma_position_found<K, V>(entries: Seq<(K, V)>, key: K)
    ensures
        -1 <= position(entries, key) < entries.len(),
        position(entries, key) >= 0 ==> entries[position(entries, key)].0 == key,
        position(entries, key) < 0 ==> forall|i: int|
            0 <= i < entries.len() ==> (#[trigger] entries[i]).0 != key,
{
}

/// Among distinct keys, the position of the key of an entry is that entry's
/// index.
pub proof fn lemma_position_of_entry<K, V>(entries: Seq<(K, V)>, index: int)
    requires
        distinct_keys(entries),
        0 <= index < entries.len(),
    ensures
        position(entries, entries[index].0) == index,
{
    lemma_position_found(entries, entries[index].0);
}

/// An entry that is used again is found with its new value; every other
/// lookup finds what it found before.
pub proof fn lemma_promoted<K, V>(entries: Seq<(K, V)>, index: int, value: V)
    requires
        distinct_keys(entries),
        0 <= index < entries.len(),
    ensures
        distinct_keys(promoted(entries, index, value)),
        promoted(entries, index, value).len() == entries.len(),
        contents(promoted(entries, index, value)) == contents(entries).insert(
            entries[index].0,
            value,
        ),
{
    let after = promoted(entries, index, value);
    let rest = entries.remove(index);
    assert forall|i: int| 0 < i < after.len() implies #[trigger] after[i] == rest[i - 1] by {}
    assert forall|i: int| 0 <= i < rest.len() implies #[trigger] rest[i] == entries[if i
        < index {
        i
    } else {
        i + 1
    }] by {}
    assert(after[0] == (entries[index].0, value));
    assert forall|i: int, j: int|
        0 <= i < after.len() && 0 <= j < after.len() && (#[trigger] after[i]).0 == (
        #[trigger] after[j]).0 implies i == j by {
        let src = |n: int|
            if n == 0 {
                index
            } else if n - 1 < index {
                n - 1
            } else {
                n
            };
        assert(after[i].0 == entries[src(i)].0);
        assert(after[j].0 == entries[src(j)].0);
        assert(src(i) == src(j));
    }
    assert forall|key: K| #[trigger]
        contents(after).contains_key(key) == contents(entries).insert(
            entries[index].0,
            value,
        ).contains_key(key) by {
        lemma_position_found(entries, key);
        lemma_position_found(after, key);
        if position(entries, key) >= 0 {
            let at = position(entries, key);
            let moved = if at == index {
                0
            } else if at < index {
                at + 1
            } else {
                at
            };
            assert(after[moved].0 == key);
        }
        if position(after, key) >= 0 {
            let at = position(after, key);
            if at > 0 {
                assert(after[at] == rest[at - 1]);
            }
        }
    }
    assert forall|key: K| #[trigger] contents(after).contains_key(key) implies contents(after)[key]
        == contents(entries).insert(entries[index].0, value)[key] by {
        lemma_position_found(entries, key);
        lemma_position_found(after, key);
        let at = position(after, key);
        if at == 0 {
        } else {
            assert(after[at] == rest[at - 1]);
            let from = if at - 1 < index {
                at - 1
            } else {
                at
            };
            assert(after[at] == entries[from]);
            lemma_position_of_entry(entries, from);
            lemma_position_of_entry(entries, index);
        }
    }
    assert(contents(after) =~= contents(entries).insert(entries[index].0, value));
}

/// An entry that comes first under a key that was absent is found, and every
/// other lookup finds what it found before.
pub proof fn lemma_put_first<K, V>(entries: Seq<(K, V)>, key: K, value: V)
    requires
        distinct_keys(entries),
        position(entries, key) < 0,
    ensures
        distinct_keys(seq![(key, value)] + entries),
        contents(seq![(key, value)] + entries) == contents(entries).insert(key, value),
{
    let after = seq![(key, value)] + entries;
    lemma_position_found(entries, key);
    assert forall|i: int| 0 < i < after.len() implies #[trigger] after[i] == entries[i - 1] by {}
    assert(after[0] == (key, value));
    assert forall|i: int, j: int|
        0 <= i < after.len() && 0 <= j < after.len() && (#[trigger] after[i]).0 == (
        #[trigger] after[j]).0 implies i == j by {
        if i > 0 {
            assert(after[i] == entries[i - 1]);
        }
        if j > 0 {
            assert(after[j] == entries[j - 1]);
        }
    }
    assert forall|k: K| #[trigger]
        contents(after).contains_key(k) == contents(entries).insert(key, value).contains_key(
            k,
        ) by {
        lemma_position_found(entries, k);
        lemma_position_found(after, k);
        if position(entries, k) >= 0 {
            assert(after[position(entries, k) + 1].0 == k);
        }
        if position(after, k) > 0 {
            assert(after[position(after, k)] == entries[position(after, k) - 1]);
        }
    }
    assert forall|k: K| #[trigger] contents(after).contains_key(k) implies contents(after)[k]
        == contents(entries).insert(key, value)[k] by {
        lemma_position_found(entries, k);
        lemma_position_found(after, k);
        let at = position(after, k);
        if at > 0 {
            assert(after[at] == entries[at - 1]);
            lemma_position_of_entry(entries, at - 1);
        }
    }
    assert(contents(after) =~= contents(entries).insert(key, value));
}

/// An entry that leaves is no longer found; every other lookup finds what it
/// found before.
pub proof fn lemma_removed<K, V>(entries: Seq<(K, V)>, index: int)
    requires
        distinct_keys(entries),
        0 <= index < entries.len(),
    ensures
        distinct_keys(entries.remove(index)),
        contents(entries.remove(index)) == contents(entries).remove(entries[index].0),
{
    let after = entries.remove(index);
    let src = |n: int|
        if n < index {
            n
        } else {
            n + 1
        };
    assert forall|i: int| 0 <= i < after.len() implies #[trigger] after[i] == entries[src(i)] by {}
    assert forall|i: int, j: int|
        0 <= i < after.len() && 0 <= j < after.len() && (#[trigger] after[i]).0 == (
        #[trigger] after[j]).0 implies i == j by {
        assert(after[i] == entries[src(i)]);
        assert(after[j] == entries[src(j)]);
    }
    assert forall|k: K| #[trigger]
        contents(after).contains_key(k) == contents(entries).remove(
            entries[index].0,
        ).contains_key(k) by {
        lemma_position_found(entries, k);
        lemma_position_found(after, k);
        if position(entries, k) >= 0 && k != entries[index].0 {
            let at = position(entries, k);
            let moved = if at < index {
                at
            } else {
                at - 1
            };
            assert(after[moved] == entries[src(moved)]);
        }
        if position(after, k) >= 0 {
            let at = position(after, k);
            assert(after[at] == entries[src(at)]);
            if k == entries[index].0 {
                assert(src(at) == index);
            }
        }
    }
    assert forall|k: K| #[trigger] contents(after).contains_key(k) implies contents(after)[k]
        == contents(entries).remove(entries[index].0)[k] by {
        lemma_position_found(after, k);
        let at = position(after, k);
        assert(after[at] == entries[src(at)]);
        lemma_position_of_entry(entries, src(at));
    }
    assert(contents(after) =~= contents(entries).remove(entries[index].0));
}

/// What a lookup finds once an entry under an absent key came in: the new
/// entry, and all others but the one that had to make room.
pub proof fn lemma_admitted<K, V>(entries: Seq<(K, V)>, limit: nat, key: K, value: V)
    requires
        bounded(entries, limit),
        position(entries, key) < 0,
    ensures
        bounded(admitted(entries, limit, key, value), limit),
        contents(admitted(entries, limit, key, value)) == if limit == 0 {
            contents(entries)
        } else if displaces(entries, limit) {
            contents(entries).remove(entries.last().0).insert(key, value)
        } else {
            contents(entries).insert(key, value)
        },
{
    if limit == 0 {
    } else if entries.len() >= limit {
        let kept = entries.drop_last();
        assert(kept =~= entries.remove(entries.len() - 1));
        lemma_removed(entries, entries.len() - 1);
        lemma_position_found(entries, key);
        lemma_position_found(kept, key);
        if position(kept, key) >= 0 {
            assert(kept[position(kept, key)] == entries[position(kept, key)]);
        }
        lemma_put_first(kept, key, value);
    } else {
        lemma_put_first(entries, key, value);
    }
}

/// An entry whose value is replaced in place is found with its new value;
/// every other lookup finds what it found before.
pub proof fn lemma_replaced<K, V>(entries: Seq<(K, V)>, index: int, value: V)
    requires
        distinct_keys(entries),
        0 <= index < entries.len(),
    ensures
        distinct_keys(entries.update(index, (entries[index].0, value))),
        contents(entries.update(index, (entries[index].0, value))) == contents(entries).insert(
            entries[index].0,
            value,
        ),
{
    let after = entries.update(index, (entries[index].0, value));
    assert forall|i: int| 0 <= i < after.len() implies (#[trigger] after[i]).0 == entries[i].0 by {}
    assert forall|k: K| #[trigger]
        contents(after).contains_key(k) == contents(entries).insert(
            entries[index].0,
            value,
        ).contains_key(k) by {
        lemma_position_found(entries, k);
        lemma_position_found(after, k);
        if position(entries, k) >= 0 {
            assert(after[position(entries, k)].0 == k);
        }
        if position(after, k) >= 0 {
            assert(entries[position(after, k)].0 == k);
        }
    }
    assert forall|k: K| #[trigger] contents(after).contains_key(k) implies contents(after)[k]
        == contents(entries).insert(entries[index].0, value)[k] by {
        lemma_position_found(after, k);
        let at = position(after, k);
        assert(entries[at].0 == k);
        lemma_position_of_entry(entries, at);
    }
    assert(contents(after) =~= contents(entries).insert(entries[index].0, value));
}

/// An entry that comes last under a key that was absent is found, and every
/// other lookup finds what it found before.
pub proof fn lemma_put_last<K, V>(entries: Seq<(K, V)>, key: K, value: V)
    requires
        distinct_keys(entries),
        position(entries, key) < 0,
    ensures
        distinct_keys(entries.push((key, value))),
        contents(entries.push((key, value))) == contents(entries).insert(key, value),
{
    let after = entries.push((key, value));
    lemma_position_found(entries, key);
    assert forall|i: int| 0 <= i < entries.len() implies #[trigger] after[i] == entries[i] by {}
    assert forall|i: int, j: int|
        0 <= i < after.len() && 0 <= j < after.len() && (#[trigger] after[i]).0 == (
        #[trigger] after[j]).0 implies i == j by {
        if i < entries.len() {
            assert(after[i] == entries[i]);
        }
        if j < entries.len() {
            assert(after[j] == entries[j]);
        }
    }
    assert forall|k: K| #[trigger]
        contents(after).contains_key(k) == contents(entries).insert(key, value).contains_key(
            k,
        ) by {
        lemma_position_found(entries, k);
        lemma_position_found(after, k);
        if position(entries, k) >= 0 {
            assert(after[position(entries, k)].0 == k);
        }
        if position(after, k) >= 0 && position(after, k) < entries.len() {
            assert(after[position(after, k)] == entries[position(after, k)]);
        }
        if k == key {
            assert(after[entries.len() as int].0 == k);
        }
    }
    assert forall|k: K| #[trigger] contents(after).contains_key(k) implies contents(after)[k]
        == contents(entries).insert(key, value)[k] by {
        lemma_position_found(after, k);
        let at = position(after, k);
        if at < entries.len() {
            assert(after[at] == entries[at]);
            lemma_position_of_entry(entries, at);
        }
    }
    assert(contents(after) =~= contents(entries).insert(key, value));
}

/// A lookup finds an entry exactly under the keys of the entries.
pub proof fn lemma_contents_of_entry<K, V>(entries: Seq<(K, V)>, index: int)
    requires
        distinct_keys(entries),
        0 <= index < entries.len(),
    ensures
        contents(entries).contains_key(entries[index].0),
        contents(entries)[entries[index].0] == entries[index].1,
{
    lemma_position_of_entry(entries, index);
}

} // verus!
