//! Sequences of (key, value) pairs read as maps, when no key occurs twice.

use vstd::prelude::*;

verus! {

/// Some pair of `s` has the key `k`.
pub open spec fn has_key<K, V>(s: Seq<(K, V)>, k: K) -> bool {
    exists|i: int| 0 <= i < s.len() && #[trigger] s[i].0 == k
}

/// No key occurs twice in `s`.
pub open spec fn keys_distinct<K, V>(s: Seq<(K, V)>) -> bool {
    forall|i: int, j: int| 0 <= i < s.len() && 0 <= j < s.len() && i != j ==> s[i].0 != s[j].0
}

/// The map that sends each key of `s` to the value paired with it.
pub open spec fn map_of<K, V>(s: Seq<(K, V)>) -> Map<K, V> {
    Map::new(
        |k: K| has_key(s, k),
        |k: K| s[choose|i: int| 0 <= i < s.len() && #[trigger] s[i].0 == k].1,
    )
}

/// Where keys are distinct, the map sends the key at `i` to the value at `i`.
pub proof fn lemma_map_of_at<K, V>(s: Seq<(K, V)>, i: int)
    requires
        keys_distinct(s),
        0 <= i < s.len(),
    ensures
        map_of(s).contains_key(s[i].0),
        map_of(s)[s[i].0] == s[i].1,
{
    let k = s[i].0;
    assert(has_key(s, k));
    let j = choose|j: int| 0 <= j < s.len() && #[trigger] s[j].0 == k;
    assert(j == i);
}

/// Every key of the map is the key of some pair, and its value is that pair's.
pub proof fn lemma_map_of_key<K, V>(s: Seq<(K, V)>, k: K)
    requires
        keys_distinct(s),
        map_of(s).contains_key(k),
    ensures
        exists|i: int| 0 <= i < s.len() && #[trigger] s[i].0 == k && map_of(s)[k] == s[i].1,
{
    let i = choose|i: int| 0 <= i < s.len() && #[trigger] s[i].0 == k;
    lemma_map_of_at(s, i);
}

/// Putting a pair with a new key anywhere adds that key to the map.
pub proof fn lemma_map_of_insert<K, V>(s: Seq<(K, V)>, p: int, k: K, v: V)
    requires
        keys_distinct(s),
        !has_key(s, k),
        0 <= p <= s.len(),
    ensures
        keys_distinct(s.insert(p, (k, v))),
        map_of(s.insert(p, (k, v))) == map_of(s).insert(k, v),
{
    let t = s.insert(p, (k, v));
    assert forall|i: int, j: int| 0 <= i < t.len() && 0 <= j < t.len() && i != j implies t[i].0
        != t[j].0 by {
        if i != p && j != p {
            let si = if i < p { i } else { i - 1 };
            let sj = if j < p { j } else { j - 1 };
            assert(t[i] == s[si] && t[j] == s[sj]);
        } else if i == p {
            let sj = if j < p { j } else { j - 1 };
            assert(t[j] == s[sj]);
        } else {
            let si = if i < p { i } else { i - 1 };
            assert(t[i] == s[si]);
        }
    }
    assert forall|x: K| #[trigger] map_of(t).contains_key(x) == map_of(s).insert(k, v).contains_key(x)
        by {
        if has_key(t, x) {
            let i = choose|i: int| 0 <= i < t.len() && #[trigger] t[i].0 == x;
            if i < p {
                assert(s[i] == t[i]);
            } else if i > p {
                assert(s[i - 1] == t[i]);
            }
        }
        if has_key(s, x) {
            let i = choose|i: int| 0 <= i < s.len() && #[trigger] s[i].0 == x;
            if i < p {
                assert(t[i] == s[i]);
            } else {
                assert(t[i + 1] == s[i]);
            }
        }
        if x == k {
            assert(t[p].0 == k);
        }
    }
    assert forall|x: K| #[trigger] map_of(t).contains_key(x) implies map_of(t)[x] == map_of(s).insert(
        k,
        v,
    )[x] by {
        lemma_map_of_key(t, x);
        let i = choose|i: int| 0 <= i < t.len() && #[trigger] t[i].0 == x && map_of(t)[x] == t[i].1;
        if i < p {
            assert(s[i] == t[i]);
            lemma_map_of_at(s, i);
        } else if i > p {
            assert(s[i - 1] == t[i]);
            lemma_map_of_at(s, i - 1);
        }
    }
    assert(map_of(t) =~= map_of(s).insert(k, v));
}

/// Taking out the pair at `i` takes its key out of the map.
pub proof fn lemma_map_of_remove<K, V>(s: Seq<(K, V)>, i: int)
    requires
        keys_distinct(s),
        0 <= i < s.len(),
    ensures
        keys_distinct(s.remove(i)),
        map_of(s.remove(i)) == map_of(s).remove(s[i].0),
{
    let t = s.remove(i);
    let k = s[i].0;
    assert forall|a: int, b: int| 0 <= a < t.len() && 0 <= b < t.len() && a != b implies t[a].0
        != t[b].0 by {
        let sa = if a < i { a } else { a + 1 };
        let sb = if b < i { b } else { b + 1 };
        assert(t[a] == s[sa] && t[b] == s[sb]);
    }
    assert forall|x: K| #[trigger] map_of(t).contains_key(x) == map_of(s).remove(k).contains_key(x)
        by {
        if has_key(t, x) {
            let a = choose|a: int| 0 <= a < t.len() && #[trigger] t[a].0 == x;
            let sa = if a < i { a } else { a + 1 };
            assert(t[a] == s[sa]);
        }
        if has_key(s, x) && x != k {
            let a = choose|a: int| 0 <= a < s.len() && #[trigger] s[a].0 == x;
            if a < i {
                assert(t[a] == s[a]);
            } else {
                assert(t[a - 1] == s[a]);
            }
        }
    }
    assert forall|x: K| #[trigger] map_of(t).contains_key(x) implies map_of(t)[x] == map_of(
        s,
    ).remove(k)[x] by {
        lemma_map_of_key(t, x);
        let a = choose|a: int| 0 <= a < t.len() && #[trigger] t[a].0 == x && map_of(t)[x] == t[a].1;
        let sa = if a < i { a } else { a + 1 };
        assert(t[a] == s[sa]);
        lemma_map_of_at(s, sa);
    }
    assert(map_of(t) =~= map_of(s).remove(k));
}

/// Replacing the value at `i`, under the same key, replaces it in the map.
pub proof fn lemma_map_of_update<K, V>(s: Seq<(K, V)>, i: int, v: V)
    requires
        keys_distinct(s),
        0 <= i < s.len(),
    ensures
        keys_distinct(s.update(i, (s[i].0, v))),
        map_of(s.update(i, (s[i].0, v))) == map_of(s).insert(s[i].0, v),
{
    let t = s.update(i, (s[i].0, v));
    let k = s[i].0;
    assert forall|a: int, b: int| 0 <= a < t.len() && 0 <= b < t.len() && a != b implies t[a].0
        != t[b].0 by {
        assert(t[a].0 == s[a].0 && t[b].0 == s[b].0);
    }
    assert forall|x: K| #[trigger] map_of(t).contains_key(x) == map_of(s).insert(k, v).contains_key(x)
        by {
        if has_key(t, x) {
            let a = choose|a: int| 0 <= a < t.len() && #[trigger] t[a].0 == x;
            assert(s[a].0 == x);
        }
        if has_key(s, x) {
            let a = choose|a: int| 0 <= a < s.len() && #[trigger] s[a].0 == x;
            assert(t[a].0 == x);
        }
        if x == k {
            assert(t[i].0 == k);
        }
    }
    assert forall|x: K| #[trigger] map_of(t).contains_key(x) implies map_of(t)[x] == map_of(s).insert(
        k,
        v,
    )[x] by {
        lemma_map_of_key(t, x);
        let a = choose|a: int| 0 <= a < t.len() && #[trigger] t[a].0 == x && map_of(t)[x] == t[a].1;
        if a != i {
            assert(t[a] == s[a]);
            lemma_map_of_at(s, a);
        }
    }
    assert(map_of(t) =~= map_of(s).insert(k, v));
}

/// With no pair there is no key.
pub proof fn lemma_map_of_empty<K, V>(s: Seq<(K, V)>)
    requires
        s.len() == 0,
    ensures
        map_of(s) == Map::<K, V>::empty(),
{
    assert(map_of(s) =~= Map::<K, V>::empty());
}

} // verus!
