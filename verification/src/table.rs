//! Sequences of key-value entries read as maps: each key is looked up at its
//! first entry, entries keep the order in which their keys arrived, and a
//! removed entry leaves the order of the others as it was.

use vstd::prelude::*;
use crate::account::AccountId;

verus! {

/// Index of the first entry of `s` with key `key`; the length of `s` if there
/// is none.
pub open spec fn position<K, T>(s: Seq<(K, T)>, key: K) -> int
    decreases s.len(),
{
    if s.len() == 0 {
        0
    } else if s[0].0 == key {
        0
    } else {
        1 + position(s.drop_first(), key)
    }
}

/// Whether `s` has an entry with key `key`.
pub open spec fn has_key<K, T>(s: Seq<(K, T)>, key: K) -> bool {
    position(s, key) < s.len()
}

/// The value that `s` holds for `key`.
pub open spec fn value_of<K, T>(s: Seq<(K, T)>, key: K) -> T
    recommends
        has_key(s, key),
{
    s[position(s, key)].1
}

/// The value that `s` holds for `key`, if any.
pub open spec fn lookup<K, T>(s: Seq<(K, T)>, key: K) -> Option<T> {
    if has_key(s, key) {
        Some(value_of(s, key))
    } else {
        None
    }
}

/// `s` with `value` for `key`: in the place of the entry for `key` if there is
/// one, else as a new last entry.
pub open spec fn put<K, T>(s: Seq<(K, T)>, key: K, value: T) -> Seq<(K, T)> {
    if has_key(s, key) {
        s.update(position(s, key), (key, value))
    } else {
        s.push((key, value))
    }
}

/// `s` without its entry for `key`.
pub open spec fn without<K, T>(s: Seq<(K, T)>, key: K) -> Seq<(K, T)> {
    if has_key(s, key) {
        s.remove(position(s, key))
    } else {
        s
    }
}

/// Whether no two entries of `s` have the same key.
pub open spec fn unique_keys<K, T>(s: Seq<(K, T)>) -> bool {
    forall|i: int, j: int| 0 <= i < j < s.len() ==> (#[trigger] s[i]).0 != (#[trigger] s[j]).0
}

/// [`position`] is the least index that holds the key.
pub proof fn lemma_position<K, T>(s: Seq<(K, T)>, key: K)
    ensures
        0 <= position(s, key) <= s.len(),
        forall|j: int| 0 <= j < position(s, key) ==> (#[trigger] s[j]).0 != key,
        position(s, key) < s.len() ==> s[position(s, key)].0 == key,
    decreases s.len(),
{
    if s.len() > 0 && s[0].0 != key {
        let rest = s.drop_first();
        lemma_position(rest, key);
        assert forall|j: int| 0 <= j < position(s, key) implies (#[trigger] s[j]).0 != key by {
            if j > 0 {
                assert(rest[j - 1] == s[j]);
            }
        }
    }
}

/// An index before which the key does not occur, and which holds the key or is
/// the length, is the key's [`position`].
pub proof fn lemma_position_is<K, T>(s: Seq<(K, T)>, key: K, i: int)
    requires
        0 <= i <= s.len(),
        forall|j: int| 0 <= j < i ==> (#[trigger] s[j]).0 != key,
        i < s.len() ==> s[i].0 == key,
    ensures
        position(s, key) == i,
{
    lemma_position(s, key);
}

/// Among unique keys, an entry sits at the position of its key.
pub proof fn lemma_position_unique<K, T>(s: Seq<(K, T)>, i: int)
    requires
        unique_keys(s),
        0 <= i < s.len(),
    ensures
        position(s, s[i].0) == i,
        has_key(s, s[i].0),
        value_of(s, s[i].0) == s[i].1,
{
    lemma_position(s, s[i].0);
}

/// What [`put`] leaves behind: the key with its new value at the place it had
/// or at the end, every other key as it was, and unique keys unique.
pub proof fn lemma_put<K, T>(s: Seq<(K, T)>, key: K, value: T)
    ensures
        has_key(put(s, key, value), key),
        value_of(put(s, key, value), key) == value,
        position(put(s, key, value), key) == position(s, key),
        forall|other: K| other != key ==> #[trigger] lookup(put(s, key, value), other) == lookup(s, other),
        forall|other: K| other != key ==> #[trigger] has_key(put(s, key, value), other) == has_key(s, other),
        unique_keys(s) ==> unique_keys(put(s, key, value)),
{
    lemma_position(s, key);
    let t = put(s, key, value);
    let p = position(s, key);
    lemma_position_is(t, key, p);
    assert forall|other: K| other != key implies (lookup(t, other) == lookup(s, other) && has_key(t, other)
        == has_key(s, other)) by {
        lemma_position(s, other);
        let q = position(s, other);
        if q < s.len() {
            lemma_position_is(t, other, q);
        } else {
            lemma_position_is(t, other, t.len() as int);
        }
    }
}

/// What [`without`] leaves behind: the key is gone if keys were unique, every
/// other key keeps its value, and unique keys stay unique.
pub proof fn lemma_without<K, T>(s: Seq<(K, T)>, key: K)
    ensures
        without(s, key).len() == if has_key(s, key) {
            s.len() - 1
        } else {
            s.len() as int
        },
        unique_keys(s) ==> !has_key(without(s, key), key),
        forall|other: K| other != key ==> #[trigger] lookup(without(s, key), other) == lookup(s, other),
        forall|other: K| other != key ==> #[trigger] has_key(without(s, key), other) == has_key(s, other),
        unique_keys(s) ==> unique_keys(without(s, key)),
{
    lemma_position(s, key);
    let t = without(s, key);
    let p = position(s, key);
    if has_key(s, key) {
        // the entries before the one taken out stay in place, those behind it
        // move up by one
        if unique_keys(s) {
            lemma_position_is(t, key, t.len() as int);
        }
        assert forall|other: K| other != key implies (lookup(t, other) == lookup(s, other) && has_key(t, other)
            == has_key(s, other)) by {
            lemma_position(s, other);
            let q = position(s, other);
            lemma_position_is(t, other, if q < p { q } else { q - 1 });
        }
    }
}

/// Putting a value for a key and then another leaves the second: it sits where
/// the first was put.
pub proof fn lemma_put_again<K, T>(s: Seq<(K, T)>, key: K, first: T, second: T)
    ensures
        position(s, key) < put(s, key, first).len(),
        put(s, key, first).update(position(s, key), (key, second)) == put(s, key, second),
{
    lemma_position(s, key);
}

/// A key that does not occur in `s` has no position in it, and conversely.
pub proof fn lemma_has_key<K, T>(s: Seq<(K, T)>, key: K)
    ensures
        has_key(s, key) <==> exists|i: int| 0 <= i < s.len() && (#[trigger] s[i]).0 == key,
{
    lemma_position(s, key);
}

/// Index of the entry of `entries` for `key`, if there is one.
pub fn find<V>(entries: &Vec<(AccountId, V)>, key: &AccountId) -> (at: Option<usize>)
    ensures
        match at {
            Some(i) => has_key(entries@, *key) && i == position(entries@, *key) && entries@[i as int].0 == *key,
            None => !has_key(entries@, *key),
        },
{
    let mut i: usize = 0;
    while i < entries.len()
        invariant
            i <= entries.len(),
            forall|j: int| 0 <= j < i ==> (#[trigger] entries@[j]).0 != *key,
        decreases entries.len() - i,
    {
        if entries[i].0.same(key) {
            proof {
                lemma_position_is(entries@, *key, i as int);
            }
            return Some(i);
        }
        i += 1;
    }
    proof {
        lemma_position_is(entries@, *key, i as int);
    }
    None
}

/// Whether `entries` has an entry for `key`.
pub fn contains<V>(entries: &Vec<(AccountId, V)>, key: &AccountId) -> (r: bool)
    ensures
        r == has_key(entries@, *key),
{
    find(entries, key).is_some()
}

/// The value that `entries` holds for `key`, if any.
pub fn get<V: Copy>(entries: &Vec<(AccountId, V)>, key: &AccountId) -> (value: Option<V>)
    ensures
        value == lookup(entries@, *key),
{
    match find(entries, key) {
        Some(i) => Some(entries[i].1),
        None => None,
    }
}

/// Sets the value for `key`, in place where the key has an entry.
pub fn insert<V>(entries: &mut Vec<(AccountId, V)>, key: AccountId, value: V)
    ensures
        final(entries)@ == put(old(entries)@, key, value),
{
    match find(entries, &key) {
        Some(i) => {
            entries[i] = (key, value);
        },
        None => {
            entries.push((key, value));
        },
    }
}

/// Takes the entry for `key` out and hands back its value, if there was one.
pub fn remove<V>(entries: &mut Vec<(AccountId, V)>, key: &AccountId) -> (value: Option<V>)
    ensures
        final(entries)@ == without(old(entries)@, *key),
        value == lookup(old(entries)@, *key),
{
    match find(entries, key) {
        Some(i) => {
            let entry = entries.remove(i);
            Some(entry.1)
        },
        None => None,
    }
}

/// A copy of `entries`.
pub fn copy_of<V: Copy>(entries: &Vec<(AccountId, V)>) -> (copy: Vec<(AccountId, V)>)
    ensures
        copy@ == entries@,
{
    let mut copy: Vec<(AccountId, V)> = Vec::new();
    let mut i: usize = 0;
    while i < entries.len()
        invariant
            i <= entries.len(),
            copy@ == entries@.take(i as int),
        decreases entries.len() - i,
    {
        copy.push(entries[i]);
        i += 1;
    }
    copy
}

/// The position of a key depends on the keys alone.
pub proof fn lemma_position_keys<K, T, U>(s: Seq<(K, T)>, t: Seq<(K, U)>, key: K)
    requires
        s.len() == t.len(),
        forall|i: int| 0 <= i < s.len() ==> (#[trigger] s[i]).0 == t[i].0,
    ensures
        position(s, key) == position(t, key),
        has_key(s, key) == has_key(t, key),
{
    lemma_position(s, key);
    let p = position(s, key);
    assert forall|j: int| 0 <= j < p implies (#[trigger] t[j]).0 != key by {
        assert(s[j].0 == t[j].0);
    }
    lemma_position_is(t, key, p);
}

/// Whether keys are unique depends on the keys alone.
pub proof fn lemma_unique_keys<K, T, U>(s: Seq<(K, T)>, t: Seq<(K, U)>)
    requires
        s.len() == t.len(),
        forall|i: int| 0 <= i < s.len() ==> (#[trigger] s[i]).0 == t[i].0,
    ensures
        unique_keys(s) == unique_keys(t),
{
    if unique_keys(s) {
        assert forall|i: int, j: int| 0 <= i < j < t.len() implies (#[trigger] t[i]).0 != (#[trigger] t[j]).0 by {
            assert(s[i].0 != s[j].0);
        }
    }
    if unique_keys(t) {
        assert forall|i: int, j: int| 0 <= i < j < s.len() implies (#[trigger] s[i]).0 != (#[trigger] s[j]).0 by {
            assert(t[i].0 != t[j].0);
        }
    }
}

/// Whether no two entries of `entries` have the same key.
pub fn has_unique_keys<V>(entries: &Vec<(AccountId, V)>) -> (r: bool)
    ensures
        r == unique_keys(entries@),
{
    let mut j: usize = 0;
    while j < entries.len()
        invariant
            j <= entries.len(),
            forall|a: int, b: int| 0 <= a < b < j ==> (#[trigger] entries@[a]).0 != (#[trigger] entries@[b]).0,
        decreases entries.len() - j,
    {
        let mut i: usize = 0;
        while i < j
            invariant
                i <= j < entries.len(),
                forall|a: int| 0 <= a < i ==> (#[trigger] entries@[a]).0 != entries@[j as int].0,
            decreases j - i,
        {
            if entries[i].0.same(&entries[j].0) {
                return false;
            }
            i += 1;
        }
        j += 1;
    }
    true
}

} // verus!
