//! Positional lookup of keyed records in a sequence.

use vstd::prelude::*;

verus! {

/// `i` is the first position of `k` in `keys`.
pub open spec fn is_first<K>(keys: Seq<K>, k: K, i: int) -> bool {
    &&& 0 <= i < keys.len()
    &&& keys[i] == k
    &&& forall|j: int| 0 <= j < i ==> keys[j] != k
}

/// The first position of `k` in `keys`, or -1 where `k` does not occur.
pub open spec fn key_index<K>(keys: Seq<K>, k: K) -> int {
    if exists|i: int| is_first(keys, k, i) {
        choose|i: int| is_first(keys, k, i)
    } else {
        -1
    }
}

/// No key occurs twice.
pub open spec fn unique_keys<K>(keys: Seq<K>) -> bool {
    forall|i: int, j: int| 0 <= i < keys.len() && 0 <= j < keys.len() && i != j ==> keys[i] != keys[j]
}

/// Replace the record at `idx`, or append it where `idx` is -1.
pub open spec fn upsert<T>(s: Seq<T>, idx: int, x: T) -> Seq<T> {
    if idx >= 0 {
        s.update(idx, x)
    } else {
        s.push(x)
    }
}

/// Remove the record at `idx`; nothing where `idx` is -1.
pub open spec fn remove_at<T>(s: Seq<T>, idx: int) -> Seq<T> {
    if idx >= 0 {
        s.remove(idx)
    } else {
        s
    }
}

/// A search that found `k` first at `i` agrees with `key_index`.
pub proof fn lemma_key_index_found<K>(keys: Seq<K>, k: K, i: int)
    requires
        is_first(keys, k, i),
    ensures
        key_index(keys, k) == i,
{
    let c = choose|c: int| is_first(keys, k, c);
    assert(is_first(keys, k, c));
    if c < i {
        assert(keys[c] != k);
    } else if c > i {
        assert(keys[i] != k);
    }
}

/// A search that did not find `k` agrees with `key_index`.
pub proof fn lemma_key_index_absent<K>(keys: Seq<K>, k: K)
    requires
        forall|j: int| 0 <= j < keys.len() ==> keys[j] != k,
    ensures
        key_index(keys, k) == -1,
{
}

/// `key_index` is -1 or a position holding `k`.
pub proof fn lemma_key_index_range<K>(keys: Seq<K>, k: K)
    ensures
        -1 <= key_index(keys, k) < keys.len(),
        key_index(keys, k) >= 0 ==> keys[key_index(keys, k)] == k,
        key_index(keys, k) == -1 ==> forall|j: int| 0 <= j < keys.len() ==> keys[j] != k,
{
    if exists|i: int| is_first(keys, k, i) {
        let c = choose|c: int| is_first(keys, k, c);
        assert(is_first(keys, k, c));
    } else {
        assert forall|j: int| 0 <= j < keys.len() implies keys[j] != k by {
            if keys[j] == k {
                assert(exists|i: int| is_first::<K>(keys, k, i)) by {
                    lemma_first_exists(keys, k, j);
                }
            }
        }
    }
}

proof fn lemma_first_exists<K>(keys: Seq<K>, k: K, j: int)
    requires
        0 <= j < keys.len(),
        keys[j] == k,
    ensures
        exists|i: int| is_first(keys, k, i),
    decreases j,
{
    if forall|m: int| 0 <= m < j ==> keys[m] != k {
        assert(is_first(keys, k, j));
    } else {
        let m = choose|m: int| 0 <= m < j && keys[m] == k;
        lemma_first_exists(keys, k, m);
    }
}

/// Replacing the record of a key, or appending a new key, keeps keys unique.
pub proof fn lemma_upsert_unique<K>(keys: Seq<K>, k: K)
    requires
        unique_keys(keys),
    ensures
        unique_keys(upsert(keys, key_index(keys, k), k)),
{
    lemma_key_index_range(keys, k);
    let r = upsert(keys, key_index(keys, k), k);
    assert forall|i: int, j: int| 0 <= i < r.len() && 0 <= j < r.len() && i != j implies r[i] != r[j] by {
        if key_index(keys, k) < 0 {
            if i < keys.len() && j < keys.len() {
                assert(keys[i] != keys[j]);
            }
        } else {
            let x = key_index(keys, k);
            if i != x && j != x {
                assert(keys[i] != keys[j]);
            } else if i == x {
                assert(keys[j] != keys[x]);
            } else {
                assert(keys[i] != keys[x]);
            }
        }
    }
}

/// Removing a record keeps keys unique.
pub proof fn lemma_remove_unique<K>(keys: Seq<K>, idx: int)
    requires
        unique_keys(keys),
        -1 <= idx < keys.len(),
    ensures
        unique_keys(remove_at(keys, idx)),
{
    let r = remove_at(keys, idx);
    if idx >= 0 {
        assert forall|i: int, j: int| 0 <= i < r.len() && 0 <= j < r.len() && i != j implies r[i] != r[j] by {
            let a = if i < idx { i } else { i + 1 };
            let b = if j < idx { j } else { j + 1 };
            assert(r[i] == keys[a]);
            assert(r[j] == keys[b]);
        }
    }
}

/// Once the record of a unique key is removed, the key is gone.
pub proof fn lemma_removed_absent<K>(keys: Seq<K>, k: K)
    requires
        unique_keys(keys),
        key_index(keys, k) >= 0,
    ensures
        key_index(remove_at(keys, key_index(keys, k)), k) == -1,
{
    lemma_key_index_range(keys, k);
    let i = key_index(keys, k);
    let r = remove_at(keys, i);
    assert forall|j: int| 0 <= j < r.len() implies r[j] != k by {
        let a = if j < i { j } else { j + 1 };
        assert(r[j] == keys[a]);
        assert(keys[a] != keys[i]);
    }
    lemma_key_index_absent(r, k);
}

} // verus!
