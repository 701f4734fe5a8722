//! Keyed sequences: the mathematical model shared by the ordered tables.
//!
//! An ordered table is modelled as a sequence of `(key, value)` pairs whose
//! keys are pairwise different. The functions here say where a key sits in
//! such a sequence and what it is bound to.

use vstd::prelude::*;

verus! {

/// The keys of the sequence, in order.
pub open spec fn keys_of<V>(entries: Seq<(Seq<char>, V)>) -> Seq<Seq<char>> {
    Seq::new(entries.len(), |i: int| entries[i].0)
}

/// Position of the first entry bound to `key`, or the length where there is none.
pub open spec fn key_index<V>(entries: Seq<(Seq<char>, V)>, key: Seq<char>) -> int
    decreases entries.len(),
{
    if entries.len() == 0 {
        0
    } else if entries[0].0 == key {
        0
    } else {
        1 + key_index(entries.skip(1), key)
    }
}

/// Whether some entry is bound to `key`.
pub open spec fn has_key<V>(entries: Seq<(Seq<char>, V)>, key: Seq<char>) -> bool {
    key_index(entries, key) < entries.len()
}

/// The value bound to `key`, if any.
pub open spec fn lookup<V>(entries: Seq<(Seq<char>, V)>, key: Seq<char>) -> Option<V> {
    if has_key(entries, key) {
        Some(entries[key_index(entries, key)].1)
    } else {
        None
    }
}

/// No two entries share a key.
pub open spec fn distinct_keys<V>(entries: Seq<(Seq<char>, V)>) -> bool {
    forall|i: int, j: int|
        0 <= i < j < entries.len() ==> (#[trigger] entries[i]).0 != (#[trigger] entries[j]).0
}

/// What binding `key` to `value` does to a table: an existing key keeps its
/// place and gets the new value, a new key goes last.
pub open spec fn bind<V>(entries: Seq<(Seq<char>, V)>, key: Seq<char>, value: V) -> Seq<
    (Seq<char>, V),
> {
    if has_key(entries, key) {
        entries.update(key_index(entries, key), (key, value))
    } else {
        entries.push((key, value))
    }
}

/// `key_index` is the least position that holds `key`.
pub proof fn lemma_key_index<V>(entries: Seq<(Seq<char>, V)>, key: Seq<char>)
    ensures
        0 <= key_index(entries, key) <= entries.len(),
        has_key(entries, key) ==> entries[key_index(entries, key)].0 == key,
        forall|i: int| 0 <= i < key_index(entries, key) ==> (#[trigger] entries[i]).0 != key,
    decreases entries.len(),
{
    if entries.len() > 0 && entries[0].0 != key {
        let rest = entries.skip(1);
        lemma_key_index(rest, key);
        assert forall|i: int| 0 <= i < key_index(entries, key) implies (#[trigger] entries[i]).0
            != key by {
            if i > 0 {
                assert(entries[i] == rest[i - 1]);
            }
        }
    }
}

/// A position that holds `key` with no earlier one doing so is `key_index`.
pub proof fn lemma_key_index_is<V>(entries: Seq<(Seq<char>, V)>, key: Seq<char>, at: int)
    requires
        0 <= at <= entries.len(),
        at < entries.len() ==> entries[at].0 == key,
        forall|i: int| 0 <= i < at ==> (#[trigger] entries[i]).0 != key,
    ensures
        key_index(entries, key) == at,
{
    lemma_key_index(entries, key);
    let k = key_index(entries, key);
    if k < at {
        assert(entries[k].0 != key);
    }
    if at < k {
        assert(entries[at].0 != key);
    }
}

/// Binding keeps the keys distinct.
pub proof fn lemma_bind_distinct<V>(entries: Seq<(Seq<char>, V)>, key: Seq<char>, value: V)
    requires
        distinct_keys(entries),
    ensures
        distinct_keys(bind(entries, key, value)),
        has_key(entries, key) ==> bind(entries, key, value).len() == entries.len(),
        !has_key(entries, key) ==> bind(entries, key, value).len() == entries.len() + 1,
        lookup(bind(entries, key, value), key) == Some(value),
{
    lemma_key_index(entries, key);
    let after = bind(entries, key, value);
    let at = key_index(entries, key);
    assert forall|i: int, j: int| 0 <= i < j < after.len() implies (#[trigger] after[i]).0 != (
    #[trigger] after[j]).0 by {
        if has_key(entries, key) {
            assert(after[i].0 == entries[i].0);
            assert(after[j].0 == entries[j].0);
        } else {
            if j == entries.len() {
                assert(after[i] == entries[i]);
            } else {
                assert(after[i] == entries[i]);
                assert(after[j] == entries[j]);
            }
        }
    }
    assert forall|i: int| 0 <= i < at implies (#[trigger] after[i]).0 != key by {
        assert(after[i].0 == entries[i].0);
    }
    lemma_key_index_is(after, key, at);
}

/// Binding a key that no entry has adds the pair last.
pub proof fn lemma_bind_fresh<V>(entries: Seq<(Seq<char>, V)>, key: Seq<char>, value: V)
    requires
        forall|i: int| 0 <= i < entries.len() ==> (#[trigger] entries[i]).0 != key,
    ensures
        !has_key(entries, key),
        bind(entries, key, value) == entries.push((key, value)),
{
    lemma_key_index_is(entries, key, entries.len() as int);
}

/// Position of the first item that `p` holds of, or the length where there
/// is none.
pub open spec fn first_where<A>(items: Seq<A>, p: spec_fn(A) -> bool) -> int
    decreases items.len(),
{
    if items.len() == 0 {
        0
    } else if p(items[0]) {
        0
    } else {
        1 + first_where(items.skip(1), p)
    }
}

/// `first_where` is the least position whose item `p` holds of.
pub proof fn lemma_first_where<A>(items: Seq<A>, p: spec_fn(A) -> bool)
    ensures
        0 <= first_where(items, p) <= items.len(),
        first_where(items, p) < items.len() ==> p(items[first_where(items, p)]),
        forall|i: int| 0 <= i < first_where(items, p) ==> !p(#[trigger] items[i]),
    decreases items.len(),
{
    if items.len() > 0 && !p(items[0]) {
        let rest = items.skip(1);
        lemma_first_where(rest, p);
        assert forall|i: int| 0 <= i < first_where(items, p) implies !p(#[trigger] items[i]) by {
            if i > 0 {
                assert(items[i] == rest[i - 1]);
            }
        }
    }
}

/// A position whose item `p` holds of, with no earlier one, is `first_where`.
pub proof fn lemma_first_where_is<A>(items: Seq<A>, p: spec_fn(A) -> bool, at: int)
    requires
        0 <= at <= items.len(),
        at < items.len() ==> p(items[at]),
        forall|i: int| 0 <= i < at ==> !p(#[trigger] items[i]),
    ensures
        first_where(items, p) == at,
{
    lemma_first_where(items, p);
}

} // verus!
