//! Lists of records keyed by a string, read as maps.
//!
//! A list whose keys are pairwise distinct stands for the map from each key
//! to the record that carries it; these lemmas relate list edits to map
//! edits.
use vstd::prelude::*;

verus! {

/// No two records share a key.
pub open spec fn keys_unique<T>(s: Seq<T>, key: spec_fn(T) -> Seq<char>) -> bool {
    forall|i: int, j: int| 0 <= i < s.len() && 0 <= j < s.len() && i != j ==> key(s[i]) != key(s[j])
}

/// Some record has key `k`.
pub open spec fn has_key<T>(s: Seq<T>, key: spec_fn(T) -> Seq<char>, k: Seq<char>) -> bool {
    exists|i: int| 0 <= i < s.len() && key(s[i]) == k
}

/// A position of a record with key `k`.
pub open spec fn key_index<T>(s: Seq<T>, key: spec_fn(T) -> Seq<char>, k: Seq<char>) -> int {
    choose|i: int| 0 <= i < s.len() && key(s[i]) == k
}

/// The map from each key to its record.
pub open spec fn keyed_map<T>(s: Seq<T>, key: spec_fn(T) -> Seq<char>) -> Map<Seq<char>, T> {
    Map::new(|k: Seq<char>| has_key(s, key, k), |k: Seq<char>| s[key_index(s, key, k)])
}

/// The record at `i` is what the map holds for its key.
pub proof fn lemma_keyed_lookup<T>(s: Seq<T>, key: spec_fn(T) -> Seq<char>, i: int)
    requires
        keys_unique(s, key),
        0 <= i < s.len(),
    ensures
        keyed_map(s, key).dom().contains(key(s[i])),
        keyed_map(s, key)[key(s[i])] == s[i],
{
    assert(has_key(s, key, key(s[i])));
    let j = key_index(s, key, key(s[i]));
    assert(key(s[j]) == key(s[i]));
}

/// A key carried by no record is not in the map.
pub proof fn lemma_keyed_absent<T>(s: Seq<T>, key: spec_fn(T) -> Seq<char>, k: Seq<char>)
    requires
        forall|i: int| 0 <= i < s.len() ==> key(s[i]) != k,
    ensures
        !keyed_map(s, key).dom().contains(k),
{
}

/// Replacing a record by one with the same key updates that key.
pub proof fn lemma_keyed_update<T>(s: Seq<T>, key: spec_fn(T) -> Seq<char>, i: int, v: T)
    requires
        keys_unique(s, key),
        0 <= i < s.len(),
        key(v) == key(s[i]),
    ensures
        keys_unique(s.update(i, v), key),
        keyed_map(s.update(i, v), key) == keyed_map(s, key).insert(key(v), v),
{
    let t = s.update(i, v);
    assert forall|a: int, b: int| 0 <= a < t.len() && 0 <= b < t.len() && a != b implies key(t[a]) != key(t[b]) by {
        assert(key(t[a]) == key(s[a]));
        assert(key(t[b]) == key(s[b]));
    }
    let m = keyed_map(t, key);
    let n = keyed_map(s, key).insert(key(v), v);
    assert forall|k: Seq<char>| m.dom().contains(k) <==> n.dom().contains(k) by {
        if has_key(t, key, k) {
            let j = choose|j: int| 0 <= j < t.len() && key(t[j]) == k;
            assert(key(s[j]) == k);
        }
        if has_key(s, key, k) {
            let j = choose|j: int| 0 <= j < s.len() && key(s[j]) == k;
            assert(key(t[j]) == k);
        }
    }
    assert forall|k: Seq<char>| #[trigger] m.dom().contains(k) implies m[k] == n[k] by {
        let j = key_index(t, key, k);
        if k == key(v) {
            if j != i {
                assert(key(s[j]) == key(t[j]));
            }
        } else {
            assert(j != i);
            assert(key(s[j]) == k);
            lemma_keyed_lookup(s, key, j);
        }
    }
    assert(m =~= n);
}

/// Appending a record with a new key adds that key.
pub proof fn lemma_keyed_push<T>(s: Seq<T>, key: spec_fn(T) -> Seq<char>, v: T)
    requires
        keys_unique(s, key),
        !has_key(s, key, key(v)),
    ensures
        keys_unique(s.push(v), key),
        keyed_map(s.push(v), key) == keyed_map(s, key).insert(key(v), v),
{
    let t = s.push(v);
    assert forall|a: int, b: int| 0 <= a < t.len() && 0 <= b < t.len() && a != b implies key(t[a]) != key(t[b]) by {
        if a < s.len() && b < s.len() {
            assert(t[a] == s[a] && t[b] == s[b]);
        } else if a < s.len() {
            assert(t[a] == s[a]);
        } else {
            assert(t[b] == s[b]);
        }
    }
    let m = keyed_map(t, key);
    let n = keyed_map(s, key).insert(key(v), v);
    assert forall|k: Seq<char>| m.dom().contains(k) <==> n.dom().contains(k) by {
        if has_key(t, key, k) {
            let j = choose|j: int| 0 <= j < t.len() && key(t[j]) == k;
            if j < s.len() {
                assert(t[j] == s[j]);
            }
        }
        if has_key(s, key, k) {
            let j = choose|j: int| 0 <= j < s.len() && key(s[j]) == k;
            assert(t[j] == s[j]);
        }
        assert(t[s.len() as int] == v);
    }
    assert forall|k: Seq<char>| #[trigger] m.dom().contains(k) implies m[k] == n[k] by {
        let j = key_index(t, key, k);
        if k == key(v) {
            assert(t[s.len() as int] == v);
            if j < s.len() {
                assert(t[j] == s[j]);
            }
        } else {
            assert(j < s.len());
            assert(t[j] == s[j]);
            lemma_keyed_lookup(s, key, j);
        }
    }
    assert(m =~= n);
}

/// Removing the record at `i` removes its key.
pub proof fn lemma_keyed_remove<T>(s: Seq<T>, key: spec_fn(T) -> Seq<char>, i: int)
    requires
        keys_unique(s, key),
        0 <= i < s.len(),
    ensures
        keys_unique(s.remove(i), key),
        keyed_map(s.remove(i), key) == keyed_map(s, key).remove(key(s[i])),
{
    let t = s.remove(i);
    s.remove_ensures(i);
    let back = |a: int| if a < i { a } else { a + 1 };
    assert forall|a: int, b: int| 0 <= a < t.len() && 0 <= b < t.len() && a != b implies key(t[a]) != key(t[b]) by {
        assert(t[a] == s[back(a)]);
        assert(t[b] == s[back(b)]);
    }
    let m = keyed_map(t, key);
    let n = keyed_map(s, key).remove(key(s[i]));
    assert forall|k: Seq<char>| m.dom().contains(k) <==> n.dom().contains(k) by {
        if has_key(t, key, k) {
            let j = choose|j: int| 0 <= j < t.len() && key(t[j]) == k;
            assert(t[j] == s[back(j)]);
            assert(back(j) != i);
        }
        if has_key(s, key, k) && k != key(s[i]) {
            let j = choose|j: int| 0 <= j < s.len() && key(s[j]) == k;
            assert(j != i);
            let j2 = if j < i { j } else { j - 1 };
            assert(t[j2] == s[j]);
        }
    }
    assert forall|k: Seq<char>| #[trigger] m.dom().contains(k) implies m[k] == n[k] by {
        let j = key_index(t, key, k);
        assert(t[j] == s[back(j)]);
        lemma_keyed_lookup(s, key, back(j));
    }
    assert(m =~= n);
}

/// Position of the record with key `k`, if any.
pub open spec fn found_at<T>(s: Seq<T>, key: spec_fn(T) -> Seq<char>, k: Seq<char>, r: Option<usize>) -> bool {
    match r {
        Some(i) => i < s.len() && key(s[i as int]) == k,
        None => !has_key(s, key, k),
    }
}

/// Changing every record by `f`, keeping its key, changes every value of
/// the map by `f`.
pub proof fn lemma_keyed_pointwise<T>(s: Seq<T>, t: Seq<T>, key: spec_fn(T) -> Seq<char>, f: spec_fn(T) -> T)
    requires
        keys_unique(s, key),
        s.len() == t.len(),
        forall|i: int| 0 <= i < s.len() ==> #[trigger] t[i] == f(s[i]) && key(t[i]) == key(s[i]),
    ensures
        keys_unique(t, key),
        keyed_map(t, key) == keyed_map(s, key).map_values(f),
{
    assert forall|a: int, b: int| 0 <= a < t.len() && 0 <= b < t.len() && a != b implies key(t[a]) != key(t[b]) by {
        assert(key(t[a]) == key(s[a]));
        assert(key(t[b]) == key(s[b]));
    }
    let m = keyed_map(t, key);
    let n = keyed_map(s, key).map_values(f);
    assert forall|k: Seq<char>| m.dom().contains(k) <==> n.dom().contains(k) by {
        if has_key(t, key, k) {
            let j = choose|j: int| 0 <= j < t.len() && key(t[j]) == k;
            assert(key(s[j]) == k);
        }
        if has_key(s, key, k) {
            let j = choose|j: int| 0 <= j < s.len() && key(s[j]) == k;
            assert(key(t[j]) == k);
        }
    }
    assert forall|k: Seq<char>| #[trigger] m.dom().contains(k) implies m[k] == n[k] by {
        let j = key_index(t, key, k);
        assert(key(s[j]) == k);
        lemma_keyed_lookup(s, key, j);
    }
    assert(m =~= n);
}

} // verus!
