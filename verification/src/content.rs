//! Content addressing: a table that holds every key once.
//!
//! A table is a sequence of keys. The row at index `i` has the identifier
//! `i + 1`; rows are only ever appended, so an identifier, once given, keeps
//! its key.

use vstd::prelude::*;

verus! {

/// The index of the first row of `table` that holds `key`.
pub open spec fn find<K>(table: Seq<K>, key: K) -> Option<int>
    decreases table.len(),
{
    if table.len() == 0 {
        None
    } else {
        match find(table.drop_last(), key) {
            Some(i) => Some(i),
            None => if table.last() == key {
                Some(table.len() - 1)
            } else {
                None
            },
        }
    }
}

/// The identifier under which `table` holds `key`.
pub open spec fn id_of<K>(table: Seq<K>, key: K) -> int {
    match find(table, key) {
        Some(i) => i + 1,
        None => 0,
    }
}

/// `table` with `key` in it: unchanged if it holds the key, else with the key
/// appended.
pub open spec fn intern<K>(table: Seq<K>, key: K) -> Seq<K> {
    if find(table, key) is Some {
        table
    } else {
        table.push(key)
    }
}

/// `table` after interning each of `keys` in turn.
pub open spec fn intern_all<K>(table: Seq<K>, keys: Seq<K>) -> Seq<K>
    decreases keys.len(),
{
    if keys.len() == 0 {
        table
    } else {
        intern(intern_all(table, keys.drop_last()), keys.last())
    }
}

/// The keys of `keys` in the order of their first occurrence, each once.
pub open spec fn distinct<K>(keys: Seq<K>) -> Seq<K> {
    intern_all(Seq::empty(), keys)
}

/// What `find` returns: the first index that holds the key, or `None` where
/// no row holds it.
pub proof fn lemma_find<K>(table: Seq<K>, key: K)
    ensures
        match find(table, key) {
            Some(i) => 0 <= i < table.len() && table[i] == key && forall|j: int|
                0 <= j < i ==> table[j] != key,
            None => forall|j: int| 0 <= j < table.len() ==> table[j] != key,
        },
    decreases table.len(),
{
    if table.len() > 0 {
        let front = table.drop_last();
        lemma_find(front, key);
        assert forall|j: int| 0 <= j < front.len() implies front[j] == table[j] by {}
        match find(front, key) {
            Some(i) => {
                assert(front[i] == table[i]);
            },
            None => {
                assert forall|j: int| 0 <= j < table.len() - 1 implies table[j] != key by {
                    assert(front[j] == table[j]);
                }
            },
        }
    }
}

/// Appending to a table changes no answer that `find` gave.
pub proof fn lemma_find_push<K>(table: Seq<K>, row: K, key: K)
    ensures
        find(table.push(row), key) == match find(table, key) {
            Some(i) => Some(i),
            None => if row == key {
                Some(table.len() as int)
            } else {
                None
            },
        },
{
    assert(table.push(row).drop_last() =~= table);
}

/// A key that a table holds is found at the same index in every table that
/// the first is a prefix of.
pub proof fn lemma_find_prefix<K>(table: Seq<K>, longer: Seq<K>, key: K)
    requires
        table.is_prefix_of(longer),
        find(table, key) is Some,
    ensures
        find(longer, key) == find(table, key),
    decreases longer.len(),
{
    if longer.len() > table.len() {
        let shorter = longer.drop_last();
        assert(table.is_prefix_of(shorter));
        lemma_find_prefix(table, shorter, key);
    } else {
        assert(longer =~= table);
    }
}

/// Interning appends at most the key, keeps a table free of duplicates, and
/// leaves the key in the table.
pub proof fn lemma_intern<K>(table: Seq<K>, key: K)
    ensures
        table.is_prefix_of(intern(table, key)),
        intern(table, key).len() <= table.len() + 1,
        find(intern(table, key), key) is Some,
        table.no_duplicates() ==> intern(table, key).no_duplicates(),
{
    lemma_find(table, key);
    lemma_find_push(table, key, key);
    assert(table.is_prefix_of(table));
    assert(table.is_prefix_of(table.push(key)));
}

/// Interning the first `n + 1` keys is interning the first `n`, then the key
/// at `n`.
pub proof fn lemma_intern_all_step<K>(table: Seq<K>, keys: Seq<K>, n: int)
    requires
        0 <= n < keys.len(),
    ensures
        intern_all(table, keys.take(n + 1)) == intern(
            intern_all(table, keys.take(n)),
            keys[n],
        ),
{
    assert(keys.take(n + 1).drop_last() =~= keys.take(n));
}

/// Interning keys only appends, by no more than the number of keys, and keeps
/// a table free of duplicates.
pub proof fn lemma_intern_all<K>(table: Seq<K>, keys: Seq<K>)
    ensures
        table.is_prefix_of(intern_all(table, keys)),
        intern_all(table, keys).len() <= table.len() + keys.len(),
        table.no_duplicates() ==> intern_all(table, keys).no_duplicates(),
    decreases keys.len(),
{
    if keys.len() == 0 {
        assert(table.is_prefix_of(table));
    } else {
        let before = intern_all(table, keys.drop_last());
        lemma_intern_all(table, keys.drop_last());
        lemma_intern(before, keys.last());
        assert(table.is_prefix_of(intern(before, keys.last())));
    }
}

/// Interning more keys only appends to what interning fewer of them gave.
pub proof fn lemma_intern_all_grows<K>(table: Seq<K>, keys: Seq<K>, n: int, m: int)
    requires
        0 <= n <= m <= keys.len(),
    ensures
        intern_all(table, keys.take(n)).is_prefix_of(intern_all(table, keys.take(m))),
    decreases m - n,
{
    let low = intern_all(table, keys.take(n));
    if n == m {
        assert(low.is_prefix_of(low));
    } else {
        lemma_intern_all_grows(table, keys, n, m - 1);
        lemma_intern_all_step(table, keys, m - 1);
        let mid = intern_all(table, keys.take(m - 1));
        lemma_intern(mid, keys[m - 1]);
        assert(low.is_prefix_of(intern(mid, keys[m - 1])));
    }
}

/// After interning keys, the table holds each of them, under the identifier
/// that it had when it was interned.
pub proof fn lemma_intern_all_holds<K>(table: Seq<K>, keys: Seq<K>, n: int, m: int)
    requires
        0 <= n < m <= keys.len(),
    ensures
        find(intern_all(table, keys.take(m)), keys[n]) is Some,
        find(intern_all(table, keys.take(m)), keys[n]) == find(
            intern_all(table, keys.take(n + 1)),
            keys[n],
        ),
{
    lemma_intern_all_step(table, keys, n);
    lemma_intern(intern_all(table, keys.take(n)), keys[n]);
    lemma_intern_all_grows(table, keys, n + 1, m);
    lemma_find_prefix(
        intern_all(table, keys.take(n + 1)),
        intern_all(table, keys.take(m)),
        keys[n],
    );
}

/// Whether two byte strings are the same.
pub fn same_bytes(a: &Vec<u8>, b: &Vec<u8>) -> (same: bool)
    ensures
        same == (a@ == b@),
{
    if a.len() != b.len() {
        return false;
    }
    let mut i: usize = 0;
    while i < a.len()
        invariant
            a.len() == b.len(),
            i <= a.len(),
            forall|j: int| 0 <= j < i ==> a@[j] == b@[j],
        decreases a.len() - i,
    {
        if a[i] != b[i] {
            return false;
        }
        i += 1;
    }
    assert(a@ =~= b@);
    true
}

} // verus!
