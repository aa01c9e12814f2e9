//! The least-recently-used map behind each representation of the cache.
//!
//! What an `LruCache` holds is the sequence `lru_entries`, most recently used
//! first, and the limit `lru_capacity` it was made with. The methods of
//! `LruCache` that the library calls are stated here over the two.

use crate::keyed::{
    distinct_keys, has_key, key_index, lemma_front, lemma_front_other, lemma_key_absent,
    lemma_key_index, lemma_without_key, lemma_without_key_other, without_key,
};
use indexmap::IndexMap;
use lru::LruCache;
use std::num::NonZeroUsize;
use vstd::prelude::*;

verus! {

#[verifier::external_type_specification]
#[verifier::external_body]
#[verifier::reject_recursive_types(K)]
#[verifier::reject_recursive_types(V)]
#[verifier::reject_recursive_types(S)]
pub struct ExLruCache<K, V, S>(LruCache<K, V, S>);

#[verifier::external_type_specification]
#[verifier::external_body]
pub struct ExLruHasher(lru::DefaultHasher);

/// What the cache keeps for one path, in one of its three representations.
pub enum CacheEntry {
    /// The file decoded as text.
    Text(String),
    /// The raw bytes of the file.
    Bytes(Vec<u8>),
    /// The file parsed as a table.
    Rows(Vec<IndexMap<String, String>>),
}

/// The content of a `CacheEntry`.
pub enum CacheEntryView {
    Text(Seq<char>),
    Bytes(Seq<u8>),
    Rows(Seq<Seq<(Seq<char>, Seq<char>)>>),
}

impl View for CacheEntry {
    type V = CacheEntryView;

    open spec fn view(&self) -> CacheEntryView {
        match self {
            CacheEntry::Text(text) => CacheEntryView::Text(text@),
            CacheEntry::Bytes(bytes) => CacheEntryView::Bytes(bytes@),
            CacheEntry::Rows(rows) => CacheEntryView::Rows(crate::rows::table_cells(rows@)),
        }
    }
}

impl Clone for CacheEntry {
    fn clone(&self) -> (copy: Self)
        ensures
            copy@ == self@,
    {
        match self {
            CacheEntry::Text(text) => CacheEntry::Text(text.clone()),
            CacheEntry::Bytes(bytes) => {
                let copy = bytes.clone();
                assert(copy@ =~= bytes@);
                CacheEntry::Bytes(copy)
            },
            CacheEntry::Rows(rows) => CacheEntry::Rows(crate::rows::clone_table(rows)),
        }
    }
}

/// The entries of a cache as (path, content) pairs, most recently used first.
pub uninterp spec fn lru_entries(cache: LruCache<String, CacheEntry>) -> Seq<
    (Seq<char>, CacheEntryView),
>;

/// The number of entries that a cache was made to hold at most.
pub uninterp spec fn lru_capacity(cache: LruCache<String, CacheEntry>) -> nat;

/// The entries after a lookup of `key`: a hit moves its entry to the front.
pub open spec fn touched<V>(entries: Seq<(Seq<char>, V)>, key: Seq<char>) -> Seq<(Seq<char>, V)> {
    let i = key_index(entries, key);
    if i >= 0 {
        seq![entries[i]] + entries.remove(i)
    } else {
        entries
    }
}

/// The entries after `value` was stored under `key` in a cache of the given
/// capacity. The new entry is the most recent one. It takes the place of an
/// entry with the same key; without one, a full cache first drops its last,
/// least recently used entry.
pub open spec fn stored<V>(entries: Seq<(Seq<char>, V)>, capacity: nat, key: Seq<char>, value: V)
    -> Seq<(Seq<char>, V)> {
    let i = key_index(entries, key);
    if i >= 0 {
        seq![(key, value)] + entries.remove(i)
    } else if entries.len() == capacity {
        seq![(key, value)] + entries.drop_last()
    } else {
        seq![(key, value)] + entries
    }
}

/// Entries that a cache of the given capacity can hold: no more than the
/// capacity, which is at least one, and no key twice.
pub open spec fn fits<V>(entries: Seq<(Seq<char>, V)>, capacity: nat) -> bool {
    &&& capacity >= 1
    &&& entries.len() <= capacity
    &&& distinct_keys(entries)
}

/// `LruCache::sparse`: an empty cache that holds at most `capacity` entries,
/// made without setting room aside for them.
#[verifier::external_body]
pub(crate) fn lru_new(capacity: usize) -> (cache: LruCache<String, CacheEntry>)
    requires
        capacity > 0,
    ensures
        lru_entries(cache) == Seq::<(Seq<char>, CacheEntryView)>::empty(),
        lru_capacity(cache) == capacity,
{
    LruCache::sparse(NonZeroUsize::new(capacity).unwrap())
}

/// `LruCache::clear`: removes every entry; the capacity stays.
#[verifier::external_body]
pub(crate) fn lru_clear(cache: &mut LruCache<String, CacheEntry>)
    ensures
        lru_entries(*final(cache)) == Seq::<(Seq<char>, CacheEntryView)>::empty(),
        lru_capacity(*final(cache)) == lru_capacity(*old(cache)),
{
    cache.clear();
}

/// `LruCache::len`: the number of entries.
#[verifier::external_body]
pub(crate) fn lru_len(cache: &LruCache<String, CacheEntry>) -> (n: usize)
    ensures
        n == lru_entries(*cache).len(),
{
    cache.len()
}

/// `LruCache::get`: the content stored for `key`, copied; a hit makes its
/// entry the most recently used one, a miss changes nothing.
#[verifier::external_body]
pub(crate) fn lru_get(cache: &mut LruCache<String, CacheEntry>, key: &str) -> (found: Option<CacheEntry>)
    ensures
        lru_entries(*final(cache)) == touched(lru_entries(*old(cache)), key@),
        lru_capacity(*final(cache)) == lru_capacity(*old(cache)),
        match found {
            Some(entry) => has_key(lru_entries(*old(cache)), key@) && entry@ == lru_entries(
                *old(cache),
            )[key_index(lru_entries(*old(cache)), key@)].1,
            None => !has_key(lru_entries(*old(cache)), key@),
        },
{
    cache.get(key).cloned()
}

/// `LruCache::put`: stores `value` under `key` as the most recently used
/// entry, in place of an entry with the same key or, in a full cache, of the
/// least recently used one.
#[verifier::external_body]
pub(crate) fn lru_put(cache: &mut LruCache<String, CacheEntry>, key: String, value: CacheEntry)
    ensures
        lru_entries(*final(cache)) == stored(
            lru_entries(*old(cache)),
            lru_capacity(*old(cache)),
            key@,
            value@,
        ),
        lru_capacity(*final(cache)) == lru_capacity(*old(cache)),
{
    cache.put(key, value);
}

/// `LruCache::pop`: removes the entry of `key`, if there is one; the order of
/// the others stays.
#[verifier::external_body]
pub(crate) fn lru_pop(cache: &mut LruCache<String, CacheEntry>, key: &str)
    ensures
        lru_entries(*final(cache)) == without_key(lru_entries(*old(cache)), key@),
        lru_capacity(*final(cache)) == lru_capacity(*old(cache)),
{
    cache.pop(key);
}

/// `LruCache::iter`: the contents of all entries, most recently used first.
#[verifier::external_body]
pub(crate) fn lru_values(cache: &LruCache<String, CacheEntry>) -> (values: Vec<&CacheEntry>)
    ensures
        values@.len() == lru_entries(*cache).len(),
        forall|i: int|
            0 <= i < values@.len() ==> (#[trigger] values@[i])@ == lru_entries(*cache)[i].1,
{
    cache.iter().map(|(_, value)| value).collect()
}

/// A lookup keeps what fits, and a hit puts the entry that was found in front.
pub proof fn lemma_touched<V>(entries: Seq<(Seq<char>, V)>, capacity: nat, key: Seq<char>)
    requires
        fits(entries, capacity),
    ensures
        fits(touched(entries, key), capacity),
        touched(entries, key).len() == entries.len(),
        has_key(entries, key) ==> touched(entries, key)[0] == entries[key_index(entries, key)],
        has_key(entries, key) ==> key_index(touched(entries, key), key) == 0,
{
    let i = key_index(entries, key);
    lemma_key_index(entries, key);
    if i >= 0 {
        lemma_without_key(entries, key);
        lemma_front(entries.remove(i), entries[i]);
    }
}

/// A lookup of one key leaves every key in the cache, with its content.
pub proof fn law_lookup_keeps_entries<V>(
    entries: Seq<(Seq<char>, V)>,
    capacity: nat,
    key: Seq<char>,
    other: Seq<char>,
)
    requires
        fits(entries, capacity),
    ensures
        has_key(touched(entries, key), other) == has_key(entries, other),
        has_key(entries, other) ==> touched(entries, key)[key_index(touched(entries, key), other)].1
            == entries[key_index(entries, other)].1,
{
    let i = key_index(entries, key);
    lemma_key_index(entries, key);
    if i >= 0 {
        lemma_touched(entries, capacity, key);
        if other != key {
            lemma_without_key_other(entries, key, other);
            lemma_front_other(entries.remove(i), entries[i], other);
            lemma_key_index(entries.remove(i), other);
        }
    }
}

/// Storing keeps what fits, and the stored pair is found in front.
pub proof fn lemma_stored<V>(entries: Seq<(Seq<char>, V)>, capacity: nat, key: Seq<char>, value: V)
    requires
        fits(entries, capacity),
    ensures
        fits(stored(entries, capacity, key, value), capacity),
        stored(entries, capacity, key, value)[0] == (key, value),
        key_index(stored(entries, capacity, key, value), key) == 0,
{
    let i = key_index(entries, key);
    lemma_key_index(entries, key);
    let rest = stored(entries, capacity, key, value).drop_first();
    if i >= 0 {
        lemma_without_key(entries, key);
        assert(rest =~= entries.remove(i));
    } else {
        assert(rest =~= if entries.len() == capacity {
            entries.drop_last()
        } else {
            entries
        });
        assert forall|k: int| 0 <= k < rest.len() implies (#[trigger] rest[k]).0 != key by {
            assert(rest[k] == entries[k]);
        }
        lemma_key_absent(rest, key);
        assert forall|a: int, b: int| 0 <= a < b < rest.len() implies (#[trigger] rest[a]).0 != (
        #[trigger] rest[b]).0 by {
            assert(rest[a] == entries[a]);
            assert(rest[b] == entries[b]);
        }
    }
    assert(stored(entries, capacity, key, value) =~= seq![(key, value)] + rest);
    lemma_front(rest, (key, value));
}

/// Whether a store of the new key `key` pushes the key `other` out: the cache
/// is full and `other` is its least recently used key.
pub open spec fn evicts<V>(
    entries: Seq<(Seq<char>, V)>,
    capacity: nat,
    key: Seq<char>,
    other: Seq<char>,
) -> bool {
    !has_key(entries, key) && entries.len() == capacity && other == entries.last().0
}

/// After a store, any other key is in the cache exactly if it was there before
/// and the store did not evict it; it keeps its content.
pub proof fn lemma_stored_other<V>(
    entries: Seq<(Seq<char>, V)>,
    capacity: nat,
    key: Seq<char>,
    value: V,
    other: Seq<char>,
)
    requires
        fits(entries, capacity),
        other != key,
    ensures
        has_key(stored(entries, capacity, key, value), other) <==> has_key(entries, other)
            && !evicts(entries, capacity, key, other),
        has_key(stored(entries, capacity, key, value), other) ==> stored(
            entries,
            capacity,
            key,
            value,
        )[key_index(stored(entries, capacity, key, value), other)].1 == entries[key_index(
            entries,
            other,
        )].1,
{
    let i = key_index(entries, key);
    let after = stored(entries, capacity, key, value);
    lemma_key_index(entries, key);
    lemma_key_index(entries, other);
    let rest = after.drop_first();
    assert(after =~= seq![(key, value)] + rest);
    lemma_front_other(rest, (key, value), other);
    lemma_key_index(rest, other);
    let j = key_index(entries, other);
    let j2 = key_index(rest, other);
    if i >= 0 {
        assert(rest =~= entries.remove(i));
        lemma_without_key_other(entries, key, other);
    } else if entries.len() == capacity {
        assert(rest =~= entries.drop_last());
        if j >= 0 && j < rest.len() {
            assert(rest[j] == entries[j]);
        }
        if j2 >= 0 {
            assert(rest[j2] == entries[j2]);
        }
        if j >= 0 && j == entries.len() - 1 {
            assert(entries[j] == entries.last());
            if j2 >= 0 {
                assert(entries[j2].0 != entries[j].0);
            }
        }
        if j >= 0 && other == entries.last().0 {
            if j < entries.len() - 1 {
                assert(entries[j].0 != entries[entries.len() - 1].0);
            }
        }
    } else {
        assert(rest =~= entries);
    }
}

/// Every pair left by a lookup or a removal was there before.
pub proof fn lemma_kept_members<V>(entries: Seq<(Seq<char>, V)>, key: Seq<char>)
    ensures
        forall|k: int|
            0 <= k < touched(entries, key).len() ==> entries.contains(
                #[trigger] touched(entries, key)[k],
            ),
        forall|k: int|
            0 <= k < without_key(entries, key).len() ==> entries.contains(
                #[trigger] without_key(entries, key)[k],
            ),
{
    let i = key_index(entries, key);
    lemma_key_index(entries, key);
    let t = touched(entries, key);
    assert forall|k: int| 0 <= k < t.len() implies entries.contains(#[trigger] t[k]) by {
        if i >= 0 {
            if k == 0 {
                assert(t[k] == entries[i]);
            } else if k - 1 < i {
                assert(t[k] == entries[k - 1]);
            } else {
                assert(t[k] == entries[k]);
            }
        } else {
            assert(t[k] == entries[k]);
        }
    }
    let w = without_key(entries, key);
    assert forall|k: int| 0 <= k < w.len() implies entries.contains(#[trigger] w[k]) by {
        if i >= 0 {
            if k < i {
                assert(w[k] == entries[k]);
            } else {
                assert(w[k] == entries[k + 1]);
            }
        } else {
            assert(w[k] == entries[k]);
        }
    }
}

/// Every pair left by a store was there before, but for the pair that the
/// store puts in front.
pub proof fn lemma_stored_members<V>(
    entries: Seq<(Seq<char>, V)>,
    capacity: nat,
    key: Seq<char>,
    value: V,
)
    requires
        capacity >= 1,
    ensures
        forall|k: int|
            1 <= k < stored(entries, capacity, key, value).len() ==> entries.contains(
                #[trigger] stored(entries, capacity, key, value)[k],
            ),
        stored(entries, capacity, key, value)[0] == (key, value),
{
    let i = key_index(entries, key);
    lemma_key_index(entries, key);
    let s = stored(entries, capacity, key, value);
    assert forall|k: int| 1 <= k < s.len() implies entries.contains(#[trigger] s[k]) by {
        if i >= 0 {
            if k - 1 < i {
                assert(s[k] == entries[k - 1]);
            } else {
                assert(s[k] == entries[k]);
            }
        } else {
            assert(s[k] == entries[k - 1]);
        }
    }
}

/// A store of a new key into a full cache evicts exactly the least recently
/// used entry: afterwards the cache is still full, the new pair is the most
/// recent one, the last key of before is gone, and every other key of before
/// is kept.
pub proof fn law_full_store_evicts_least_recent<V>(
    entries: Seq<(Seq<char>, V)>,
    capacity: nat,
    key: Seq<char>,
    value: V,
)
    requires
        fits(entries, capacity),
        entries.len() == capacity,
        !has_key(entries, key),
    ensures
        stored(entries, capacity, key, value) == seq![(key, value)] + entries.drop_last(),
        stored(entries, capacity, key, value).len() == capacity,
        !has_key(stored(entries, capacity, key, value), entries.last().0),
        forall|other: Seq<char>|
            has_key(entries, other) && other != entries.last().0 ==> #[trigger] has_key(
                stored(entries, capacity, key, value),
                other,
            ),
{
    lemma_key_index(entries, key);
    let last = entries.last().0;
    let k = entries.len() - 1;
    assert((#[trigger] entries[k]).0 != key);
    lemma_stored_other(entries, capacity, key, value, last);
    assert forall|other: Seq<char>|
        has_key(entries, other) && other != entries.last().0 implies #[trigger] has_key(
        stored(entries, capacity, key, value),
        other,
    ) by {
        lemma_stored_other(entries, capacity, key, value, other);
    }
}

/// A store that finds room, or its own key, evicts nothing: every key of
/// before is kept.
pub proof fn law_store_with_room_keeps_all<V>(
    entries: Seq<(Seq<char>, V)>,
    capacity: nat,
    key: Seq<char>,
    value: V,
)
    requires
        fits(entries, capacity),
        entries.len() < capacity || has_key(entries, key),
    ensures
        forall|other: Seq<char>|
            has_key(entries, other) ==> #[trigger] has_key(
                stored(entries, capacity, key, value),
                other,
            ),
{
    lemma_stored(entries, capacity, key, value);
    assert forall|other: Seq<char>| has_key(entries, other) implies #[trigger] has_key(
        stored(entries, capacity, key, value),
        other,
    ) by {
        if other != key {
            lemma_stored_other(entries, capacity, key, value, other);
        }
    }
}

/// A lookup that hits makes its entry the most recently used one and leaves
/// the others in their order.
pub proof fn law_lookup_promotes<V>(entries: Seq<(Seq<char>, V)>, capacity: nat, key: Seq<char>)
    requires
        fits(entries, capacity),
        has_key(entries, key),
    ensures
        touched(entries, key)[0] == entries[key_index(entries, key)],
        touched(entries, key)[0].0 == key,
        touched(entries, key).drop_first() == without_key(entries, key),
        entries.len() > 1 ==> touched(entries, key).last().0 != key,
{
    lemma_touched(entries, capacity, key);
    lemma_key_index(entries, key);
    let t = touched(entries, key);
    assert(t.drop_first() =~= without_key(entries, key));
    if t.len() > 1 {
        assert(t[0].0 != t[t.len() - 1].0);
    }
}

/// The entries after the pairs were stored one after the other.
pub open spec fn stored_all<V>(
    entries: Seq<(Seq<char>, V)>,
    capacity: nat,
    pairs: Seq<(Seq<char>, V)>,
) -> Seq<(Seq<char>, V)>
    decreases pairs.len(),
{
    if pairs.len() == 0 {
        entries
    } else {
        stored(
            stored_all(entries, capacity, pairs.drop_last()),
            capacity,
            pairs.last().0,
            pairs.last().1,
        )
    }
}

/// Distinct keys stored into an empty cache that has room for all of them are
/// all kept, the last one stored first.
pub proof fn lemma_stored_all_with_room<V>(capacity: nat, pairs: Seq<(Seq<char>, V)>)
    requires
        capacity >= 1,
        distinct_keys(pairs),
        pairs.len() <= capacity,
    ensures
        stored_all(Seq::empty(), capacity, pairs) == pairs.reverse(),
    decreases pairs.len(),
{
    if pairs.len() > 0 {
        let before = pairs.drop_last();
        assert forall|a: int, b: int| 0 <= a < b < before.len() implies (#[trigger] before[a]).0
            != (#[trigger] before[b]).0 by {
            assert(before[a] == pairs[a]);
            assert(before[b] == pairs[b]);
        }
        lemma_stored_all_with_room(capacity, before);
        let held = before.reverse();
        assert forall|k: int| 0 <= k < held.len() implies (#[trigger] held[k]).0
            != pairs.last().0 by {
            assert(held[k] == pairs[before.len() - 1 - k]);
            assert(pairs[before.len() - 1 - k].0 != pairs[pairs.len() - 1].0);
        }
        lemma_key_absent(held, pairs.last().0);
        assert(stored(held, capacity, pairs.last().0, pairs.last().1) =~= pairs.reverse());
    } else {
        assert(pairs.reverse() =~= Seq::<(Seq<char>, V)>::empty());
    }
}

/// One distinct key more than an empty cache can hold: the key stored first is
/// evicted, and the cache holds all the others, the last one stored first.
pub proof fn law_one_too_many_evicts_first<V>(capacity: nat, pairs: Seq<(Seq<char>, V)>)
    requires
        capacity >= 1,
        distinct_keys(pairs),
        pairs.len() == capacity + 1,
    ensures
        stored_all(Seq::empty(), capacity, pairs) == pairs.drop_first().reverse(),
        !has_key(stored_all(Seq::empty(), capacity, pairs), pairs[0].0),
        forall|k: int|
            1 <= k < pairs.len() ==> has_key(
                stored_all(Seq::empty(), capacity, pairs),
                (#[trigger] pairs[k]).0,
            ),
{
    let before = pairs.drop_last();
    assert forall|a: int, b: int| 0 <= a < b < before.len() implies (#[trigger] before[a]).0 != (
    #[trigger] before[b]).0 by {
        assert(before[a] == pairs[a]);
        assert(before[b] == pairs[b]);
    }
    lemma_stored_all_with_room(capacity, before);
    let held = before.reverse();
    assert forall|k: int| 0 <= k < held.len() implies (#[trigger] held[k]).0 != pairs.last().0 by {
        assert(held[k] == pairs[before.len() - 1 - k]);
        assert(pairs[before.len() - 1 - k].0 != pairs[pairs.len() - 1].0);
    }
    lemma_key_absent(held, pairs.last().0);
    let after = stored_all(Seq::empty(), capacity, pairs);
    assert(after == stored(held, capacity, pairs.last().0, pairs.last().1));
    assert(after =~= pairs.drop_first().reverse());
    assert forall|k: int| 0 <= k < after.len() implies (#[trigger] after[k]).0 != pairs[0].0 by {
        assert(after[k] == pairs[pairs.len() - 1 - k]);
        assert(pairs[0].0 != pairs[pairs.len() - 1 - k].0);
    }
    lemma_key_absent(after, pairs[0].0);
    assert forall|k: int| 1 <= k < pairs.len() implies has_key(after, (#[trigger] pairs[k]).0) by {
        assert(after[pairs.len() - 1 - k] == pairs[k]);
        lemma_key_index(after, pairs[k].0);
    }
}

} // verus!
