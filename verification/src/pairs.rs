use vstd::prelude::*;

verus! {

// ---------------------------------------------------------------------------
// Association lists: sequences of key-value pairs keyed by values that compare by equality
// ---------------------------------------------------------------------------

/// The first index at which a key occurs in a list of pairs, or -1.
pub open spec fn find_key<K, T>(s: Seq<(K, T)>, k: K) -> int
    decreases s.len(),
{
    if s.len() == 0 {
        -1
    } else if s[0].0 == k {
        0
    } else {
        let r = find_key(s.drop_first(), k);
        if r < 0 {
            -1
        } else {
            r + 1
        }
    }
}

/// The value under a key: the first occurrence wins.
pub open spec fn lookup<K, T>(s: Seq<(K, T)>, k: K) -> Option<T> {
    if find_key(s, k) >= 0 {
        Some(s[find_key(s, k)].1)
    } else {
        None
    }
}

pub open spec fn has_key<K, T>(s: Seq<(K, T)>, k: K) -> bool {
    find_key(s, k) >= 0
}

/// Replaces the first pair under the key, or appends a new pair.
pub open spec fn upsert<K, T>(s: Seq<(K, T)>, k: K, v: T) -> Seq<(K, T)> {
    if find_key(s, k) >= 0 {
        s.update(find_key(s, k), (k, v))
    } else {
        s.push((k, v))
    }
}

/// No key occurs twice.
pub open spec fn unique_keys<K, T>(s: Seq<(K, T)>) -> bool {
    forall|i: int, j: int| 0 <= i < j < s.len() ==> (#[trigger] s[i]).0 != (#[trigger] s[j]).0
}

/// The set of keys.
pub open spec fn key_set<K, T>(s: Seq<(K, T)>) -> Set<K> {
    Set::new(|k: K| has_key(s, k))
}

pub broadcast proof fn lemma_find_key_bounds<K, T>(s: Seq<(K, T)>, k: K)
    ensures
        -1 <= #[trigger] find_key(s, k) < s.len(),
        find_key(s, k) >= 0 ==> s[find_key(s, k)].0 == k,
        find_key(s, k) < 0 ==> (forall|i: int| 0 <= i < s.len() ==> (#[trigger] s[i]).0 != k),
        find_key(s, k) >= 0 ==> (forall|i: int| 0 <= i < find_key(s, k) ==> (#[trigger] s[i]).0
            != k),
    decreases s.len(),
{
    if s.len() > 0 && s[0].0 != k {
        lemma_find_key_bounds(s.drop_first(), k);
        assert forall|i: int| 1 <= i < s.len() implies (s.drop_first())[i - 1] == s[i] by {}
    }
}

/// If the first `i` entries miss the key and entry `i` holds it, the first
/// index is `i`.
pub proof fn lemma_find_key_first<K, T>(s: Seq<(K, T)>, k: K, i: int)
    requires
        0 <= i < s.len(),
        s[i].0 == k,
        forall|j: int| 0 <= j < i ==> (#[trigger] s[j]).0 != k,
    ensures
        find_key(s, k) == i,
    decreases i,
{
    if i == 0 {
    } else {
        assert(s[0].0 != k);
        assert forall|j: int| 0 <= j < i - 1 implies (#[trigger] s.drop_first()[j]).0 != k by {
            assert(s.drop_first()[j] == s[j + 1]);
        }
        assert(s.drop_first()[i - 1] == s[i]);
        lemma_find_key_first(s.drop_first(), k, i - 1);
    }
}

/// Looking up in a list extended by one pair.
pub proof fn lemma_lookup_push<K, T>(s: Seq<(K, T)>, k0: K, v: T, k: K)
    ensures
        has_key(s.push((k0, v)), k) <==> has_key(s, k) || k == k0,
        lookup(s.push((k0, v)), k) == if has_key(s, k) {
            lookup(s, k)
        } else if k == k0 {
            Some(v)
        } else {
            None::<T>
        },
{
    let s2 = s.push((k0, v));
    lemma_find_key_bounds(s, k);
    lemma_find_key_bounds(s2, k);
    if has_key(s, k) {
        let i = find_key(s, k);
        assert(s2[i] == s[i]);
        assert forall|j: int| 0 <= j < i implies (#[trigger] s2[j]).0 != k by {
            assert(s2[j] == s[j]);
        }
        lemma_find_key_first(s2, k, i);
    } else if k == k0 {
        assert(s2[s.len() as int].0 == k);
        assert forall|j: int| 0 <= j < s.len() implies (#[trigger] s2[j]).0 != k by {
            assert(s2[j] == s[j]);
        }
        lemma_find_key_first(s2, k, s.len() as int);
    } else {
        if find_key(s2, k) >= 0 {
            let i = find_key(s2, k);
            if i < s.len() {
                assert(s2[i] == s[i]);
            }
            assert(false);
        }
    }
}

/// Looking up after an upsert: the upserted key maps to the new value, every
/// other key as before.
pub proof fn lemma_lookup_upsert<K, T>(s: Seq<(K, T)>, k0: K, v: T, k: K)
    ensures
        lookup(upsert(s, k0, v), k) == if k == k0 {
            Some(v)
        } else {
            lookup(s, k)
        },
        has_key(upsert(s, k0, v), k) <==> has_key(s, k) || k == k0,
{
    lemma_find_key_bounds(s, k0);
    if find_key(s, k0) >= 0 {
        let i = find_key(s, k0);
        let s2 = s.update(i, (k0, v));
        lemma_find_key_bounds(s, k);
        lemma_find_key_bounds(s2, k);
        if k == k0 {
            assert forall|j: int| 0 <= j < i implies (#[trigger] s2[j]).0 != k by {
                assert(s2[j] == s[j]);
            }
            lemma_find_key_first(s2, k, i);
        } else {
            if find_key(s, k) >= 0 {
                let j = find_key(s, k);
                assert(s[j].0 == k);
                assert(j != i);
                assert(s2[j] == s[j]);
                assert forall|m: int| 0 <= m < j implies (#[trigger] s2[m]).0 != k by {
                    if m != i {
                        assert(s2[m] == s[m]);
                    }
                }
                lemma_find_key_first(s2, k, j);
            } else {
                if find_key(s2, k) >= 0 {
                    let j = find_key(s2, k);
                    assert(s2[j].0 == k);
                    if j != i {
                        assert(s2[j] == s[j]);
                    }
                    assert(false);
                }
            }
        }
    } else {
        lemma_lookup_push(s, k0, v, k);
    }
}

/// An upsert keeps keys unique.
pub proof fn lemma_unique_upsert<K, T>(s: Seq<(K, T)>, k0: K, v: T)
    requires
        unique_keys(s),
    ensures
        unique_keys(upsert(s, k0, v)),
{
    lemma_find_key_bounds(s, k0);
    let s2 = upsert(s, k0, v);
    if find_key(s, k0) >= 0 {
        let i = find_key(s, k0);
        assert forall|a: int, b: int| 0 <= a < b < s2.len() implies (#[trigger] s2[a]).0 != (
        #[trigger] s2[b]).0 by {
            assert(s2[a].0 == s[a].0);
            assert(s2[b].0 == s[b].0);
        }
    } else {
        assert forall|a: int, b: int| 0 <= a < b < s2.len() implies (#[trigger] s2[a]).0 != (
        #[trigger] s2[b]).0 by {
            if b < s.len() {
                assert(s2[a] == s[a]);
                assert(s2[b] == s[b]);
            } else {
                assert(s2[a] == s[a]);
                assert(s2[b].0 == k0);
                assert(s[a].0 != k0);
            }
        }
    }
}

/// Removing the first occurrence of a key; on a list with unique keys the key
/// is gone, and every other key keeps its value.
pub proof fn lemma_lookup_remove<K, T>(s: Seq<(K, T)>, k0: K, k: K)
    requires
        unique_keys(s),
        has_key(s, k0),
    ensures
        !has_key(s.remove(find_key(s, k0)), k0),
        k != k0 ==> lookup(s.remove(find_key(s, k0)), k) == lookup(s, k),
        unique_keys(s.remove(find_key(s, k0))),
{
    lemma_find_key_bounds(s, k0);
    let i = find_key(s, k0);
    let s2 = s.remove(i);
    assert forall|m: int| 0 <= m < s2.len() implies #[trigger] s2[m] == (if m < i {
        s[m]
    } else {
        s[m + 1]
    }) by {}
    assert(unique_keys(s2)) by {
        assert forall|a: int, b: int| 0 <= a < b < s2.len() implies (#[trigger] s2[a]).0 != (
        #[trigger] s2[b]).0 by {}
    }
    if has_key(s2, k0) {
        lemma_find_key_bounds(s2, k0);
        let j = find_key(s2, k0);
        assert(s2[j].0 == k0);
        if j < i {
            assert(s[j].0 == k0);
            assert(false);
        } else {
            assert(s[j + 1].0 == k0);
            assert(s[i].0 == k0);
            assert(false);
        }
    }
    if k != k0 {
        lemma_find_key_bounds(s, k);
        lemma_find_key_bounds(s2, k);
        if find_key(s, k) >= 0 {
            let j = find_key(s, k);
            assert(s[j].0 == k);
            assert(j != i);
            if j < i {
                assert(s2[j] == s[j]);
                assert forall|m: int| 0 <= m < j implies (#[trigger] s2[m]).0 != k by {}
                lemma_find_key_first(s2, k, j);
            } else {
                assert(s2[j - 1] == s[j]);
                assert forall|m: int| 0 <= m < j - 1 implies (#[trigger] s2[m]).0 != k by {}
                lemma_find_key_first(s2, k, j - 1);
            }
        } else {
            if find_key(s2, k) >= 0 {
                let j = find_key(s2, k);
                assert(s2[j].0 == k);
                assert(false);
            }
        }
    }
}

/// Two pair lists with the same keys at each index are searched identically.
pub proof fn lemma_find_key_same_keys<K, A, B>(s1: Seq<(K, A)>, s2: Seq<(K, B)>, k: K)
    requires
        s1.len() == s2.len(),
        forall|i: int| 0 <= i < s1.len() ==> (#[trigger] s1[i]).0 == (#[trigger] s2[i]).0,
    ensures
        find_key(s1, k) == find_key(s2, k),
    decreases s1.len(),
{
    if s1.len() > 0 {
        assert(s1[0].0 == s2[0].0);
        if s1[0].0 != k {
            assert forall|i: int| 0 <= i < s1.drop_first().len() implies (#[trigger] s1.drop_first()[i]).0
                == (#[trigger] s2.drop_first()[i]).0 by {
                assert(s1.drop_first()[i] == s1[i + 1]);
                assert(s2.drop_first()[i] == s2[i + 1]);
            }
            lemma_find_key_same_keys(s1.drop_first(), s2.drop_first(), k);
        }
    }
}

} // verus!
