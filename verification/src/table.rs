//! Looking a key up in a table's column. A table is a sequence of rows; the
//! row that answers a key is the first one that carries it.

use vstd::prelude::*;

verus! {

/// `i` is the first place in `keys` that holds `k`.
pub open spec fn first_at<K>(keys: Seq<K>, k: K, i: int) -> bool {
    &&& 0 <= i < keys.len()
    &&& keys[i] == k
    &&& forall|j: int| 0 <= j < i ==> keys[j] != k
}

/// The first place in `keys` that holds `k`, if any does.
pub open spec fn position<K>(keys: Seq<K>, k: K) -> Option<int> {
    if exists|i: int| first_at(keys, k, i) {
        Some(choose|i: int| first_at(keys, k, i))
    } else {
        None
    }
}

/// No key occurs twice.
pub open spec fn distinct<K>(keys: Seq<K>) -> bool {
    forall|i: int, j: int| 0 <= i < j < keys.len() ==> keys[i] != keys[j]
}

/// A first place is the only first place, so it is the position.
pub proof fn lemma_position_found<K>(keys: Seq<K>, k: K, i: int)
    requires
        first_at(keys, k, i),
    ensures
        position(keys, k) == Some(i),
{
    let c = choose|c: int| first_at(keys, k, c);
    assert(first_at(keys, k, c));
    if c < i {
        assert(keys[c] == k);
    } else if i < c {
        assert(keys[i] == k);
    }
}

/// Among the first `n` places, a key that occurs has a first occurrence.
proof fn lemma_first_exists<K>(keys: Seq<K>, k: K, n: int)
    requires
        0 <= n < keys.len(),
        keys[n] == k,
    ensures
        exists|i: int| first_at(keys, k, i),
    decreases n,
{
    if exists|j: int| 0 <= j < n && keys[j] == k {
        let j = choose|j: int| 0 <= j < n && keys[j] == k;
        lemma_first_exists(keys, k, j);
    } else {
        assert(first_at(keys, k, n));
    }
}

/// What the position says of the column: where it is some place, that place
/// is the first to hold the key; where it is none, no place holds it.
pub proof fn lemma_position<K>(keys: Seq<K>, k: K)
    ensures
        match position(keys, k) {
            Some(i) => first_at(keys, k, i),
            None => forall|j: int| 0 <= j < keys.len() ==> keys[j] != k,
        },
{
    if position(keys, k) is None {
        assert forall|j: int| 0 <= j < keys.len() implies keys[j] != k by {
            if keys[j] == k {
                lemma_first_exists(keys, k, j);
            }
        }
    }
}

/// In a column without repeats every place is the position of its key.
pub proof fn lemma_position_distinct<K>(keys: Seq<K>, i: int)
    requires
        distinct(keys),
        0 <= i < keys.len(),
    ensures
        position(keys, keys[i]) == Some(i),
{
    assert(first_at(keys, keys[i], i));
    lemma_position_found(keys, keys[i], i);
}

/// A key appended to a column that lacks it sits at the old length, and every
/// other key stays where it was.
pub proof fn lemma_position_push<K>(keys: Seq<K>, new: K, k: K)
    ensures
        position(keys, k) is Some ==> position(keys.push(new), k) == position(keys, k),
        position(keys, k) is None && k == new ==> position(keys.push(new), k) == Some(
            keys.len() as int,
        ),
        position(keys, k) is None && k != new ==> position(keys.push(new), k) is None,
{
    lemma_position(keys, k);
    let pushed = keys.push(new);
    match position(keys, k) {
        Some(i) => {
            assert(first_at(pushed, k, i));
            lemma_position_found(pushed, k, i);
        },
        None => {
            if k == new {
                assert(first_at(pushed, k, keys.len() as int));
                lemma_position_found(pushed, k, keys.len() as int);
            } else {
                lemma_position(pushed, k);
                if position(pushed, k) is Some {
                    let i = position(pushed, k)->0;
                    assert(pushed[i] == k);
                    assert(i < keys.len());
                    assert(keys[i] == k);
                }
            }
        },
    }
}

/// Where a column has no repeats, taking the row of one key out leaves every
/// other key findable, one place lower if it stood behind, and the key itself
/// gone.
pub proof fn lemma_position_remove<K>(keys: Seq<K>, at: int, k: K)
    requires
        distinct(keys),
        0 <= at < keys.len(),
    ensures
        distinct(keys.remove(at)),
        k == keys[at] ==> position(keys.remove(at), k) is None,
        k != keys[at] ==> position(keys.remove(at), k) == (match position(keys, k) {
            Some(i) => Some(if i < at { i } else { i - 1 }),
            None => None,
        }),
{
    let cut = keys.remove(at);
    assert forall|i: int| 0 <= i < cut.len() implies cut[i] == keys[if i < at {
        i
    } else {
        i + 1
    }] by {}
    lemma_position(keys, k);
    lemma_position(cut, k);
    if k == keys[at] {
        if position(cut, k) is Some {
            let i = position(cut, k)->0;
            assert(cut[i] == k);
        }
    } else {
        match position(keys, k) {
            Some(i) => {
                let moved = if i < at { i } else { i - 1 };
                assert(cut[moved] == k);
                assert(first_at(cut, k, moved));
                lemma_position_found(cut, k, moved);
            },
            None => {
                if position(cut, k) is Some {
                    let i = position(cut, k)->0;
                    assert(cut[i] == k);
                }
            },
        }
    }
}

} // verus!
