//! Sequences of (key, value) pairs with text keys: what the ordered maps of the
//! library hold.

use vstd::prelude::*;

verus! {

/// The position of the first pair whose key is `key`, or -1 when there is none.
pub open spec fn key_index<V>(pairs: Seq<(Seq<char>, V)>, key: Seq<char>) -> int
    decreases pairs.len(),
{
    if pairs.len() == 0 {
        -1
    } else if pairs[0].0 == key {
        0
    } else {
        let rest = key_index(pairs.drop_first(), key);
        if rest < 0 {
            -1
        } else {
            rest + 1
        }
    }
}

/// Whether some pair has the key `key`.
pub open spec fn has_key<V>(pairs: Seq<(Seq<char>, V)>, key: Seq<char>) -> bool {
    key_index(pairs, key) >= 0
}

/// No key occurs twice.
pub open spec fn distinct_keys<V>(pairs: Seq<(Seq<char>, V)>) -> bool {
    forall|i: int, j: int|
        0 <= i < j < pairs.len() ==> (#[trigger] pairs[i]).0 != (#[trigger] pairs[j]).0
}

/// The pairs without the first one whose key is `key`.
pub open spec fn without_key<V>(pairs: Seq<(Seq<char>, V)>, key: Seq<char>) -> Seq<
    (Seq<char>, V),
> {
    let i = key_index(pairs, key);
    if i >= 0 {
        pairs.remove(i)
    } else {
        pairs
    }
}

/// `key_index` is -1 or the first position that holds `key`.
pub proof fn lemma_key_index<V>(pairs: Seq<(Seq<char>, V)>, key: Seq<char>)
    ensures
        -1 <= key_index(pairs, key) < pairs.len(),
        key_index(pairs, key) >= 0 ==> pairs[key_index(pairs, key)].0 == key,
        forall|k: int|
            0 <= k < pairs.len() && (key_index(pairs, key) < 0 || k < key_index(pairs, key))
                ==> (#[trigger] pairs[k]).0 != key,
    decreases pairs.len(),
{
    if pairs.len() == 0 {
    } else if pairs[0].0 == key {
    } else {
        let rest = pairs.drop_first();
        lemma_key_index(rest, key);
        assert forall|k: int|
            0 <= k < pairs.len() && (key_index(pairs, key) < 0 || k < key_index(
                pairs,
                key,
            )) implies (#[trigger] pairs[k]).0 != key by {
            if k > 0 {
                assert(rest[k - 1] == pairs[k]);
            }
        }
    }
}

/// A position that holds `key`, with no earlier one that does, is `key_index`.
pub proof fn lemma_key_index_is<V>(pairs: Seq<(Seq<char>, V)>, key: Seq<char>, i: int)
    requires
        0 <= i < pairs.len(),
        pairs[i].0 == key,
        forall|k: int| 0 <= k < i ==> (#[trigger] pairs[k]).0 != key,
    ensures
        key_index(pairs, key) == i,
{
    lemma_key_index(pairs, key);
}

/// Where no pair holds `key`, `key_index` is -1.
pub proof fn lemma_key_absent<V>(pairs: Seq<(Seq<char>, V)>, key: Seq<char>)
    requires
        forall|k: int| 0 <= k < pairs.len() ==> (#[trigger] pairs[k]).0 != key,
    ensures
        key_index(pairs, key) == -1,
{
    lemma_key_index(pairs, key);
}

/// Among distinct keys, a key is gone once its pair is removed.
pub proof fn lemma_without_key<V>(pairs: Seq<(Seq<char>, V)>, key: Seq<char>)
    requires
        distinct_keys(pairs),
    ensures
        distinct_keys(without_key(pairs, key)),
        !has_key(without_key(pairs, key), key),
        without_key(pairs, key).len() <= pairs.len(),
{
    let i = key_index(pairs, key);
    let after = without_key(pairs, key);
    lemma_key_index(pairs, key);
    if i >= 0 {
        assert forall|k: int| 0 <= k < after.len() implies (#[trigger] after[k]).0 != key by {
            if k < i {
                assert(after[k] == pairs[k]);
            } else {
                assert(after[k] == pairs[k + 1]);
            }
        }
        assert forall|a: int, b: int| 0 <= a < b < after.len() implies (#[trigger] after[a]).0 != (
        #[trigger] after[b]).0 by {
            let a0 = if a < i {
                a
            } else {
                a + 1
            };
            let b0 = if b < i {
                b
            } else {
                b + 1
            };
            assert(after[a] == pairs[a0]);
            assert(after[b] == pairs[b0]);
        }
    }
    lemma_key_absent(after, key);
}

/// Removing the pair of one key leaves every other key with its value.
pub proof fn lemma_without_key_other<V>(pairs: Seq<(Seq<char>, V)>, key: Seq<char>, other: Seq<char>)
    requires
        distinct_keys(pairs),
        other != key,
    ensures
        has_key(without_key(pairs, key), other) == has_key(pairs, other),
        has_key(pairs, other) ==> without_key(pairs, key)[key_index(
            without_key(pairs, key),
            other,
        )].1 == pairs[key_index(pairs, other)].1,
{
    let i = key_index(pairs, key);
    let after = without_key(pairs, key);
    lemma_key_index(pairs, key);
    lemma_key_index(pairs, other);
    lemma_key_index(after, other);
    let j = key_index(pairs, other);
    let j2 = key_index(after, other);
    if i >= 0 {
        if j >= 0 {
            let t = if j < i {
                j
            } else {
                j - 1
            };
            assert(after[t] == pairs[j]);
            if j2 < 0 {
                assert(after[t].0 != other);
            } else {
                let back = if j2 < i {
                    j2
                } else {
                    j2 + 1
                };
                assert(after[j2] == pairs[back]);
                if back != j {
                    if back < j {
                        assert(pairs[back].0 != other);
                    } else {
                        assert(pairs[j].0 != pairs[back].0);
                    }
                }
            }
        } else {
            if j2 >= 0 {
                let back = if j2 < i {
                    j2
                } else {
                    j2 + 1
                };
                assert(after[j2] == pairs[back]);
                assert(pairs[back].0 != other);
            }
        }
    }
}

/// Putting a pair with a fresh key in front keeps the keys distinct and finds
/// the new key first.
pub proof fn lemma_front<V>(rest: Seq<(Seq<char>, V)>, first: (Seq<char>, V))
    requires
        distinct_keys(rest),
        !has_key(rest, first.0),
    ensures
        distinct_keys(seq![first] + rest),
        key_index(seq![first] + rest, first.0) == 0,
{
    let all = seq![first] + rest;
    lemma_key_index(rest, first.0);
    assert forall|a: int, b: int| 0 <= a < b < all.len() implies (#[trigger] all[a]).0 != (
    #[trigger] all[b]).0 by {
        assert(all[b] == rest[b - 1]);
        if a > 0 {
            assert(all[a] == rest[a - 1]);
        }
    }
}

/// Behind a pair put in front, every other key is found one place further on.
pub proof fn lemma_front_other<V>(rest: Seq<(Seq<char>, V)>, first: (Seq<char>, V), other: Seq<char>)
    requires
        other != first.0,
    ensures
        key_index(seq![first] + rest, other) == (if key_index(rest, other) < 0 {
            -1
        } else {
            key_index(rest, other) + 1
        }),
{
    let all = seq![first] + rest;
    assert(all.drop_first() =~= rest);
}

} // verus!
