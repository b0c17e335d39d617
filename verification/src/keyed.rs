//! Vectors of `(key, value)` pairs read as maps: a key stands for its first
//! occurrence, as in a map that keeps each key once.
use vstd::prelude::*;
use crate::text::str_eq;

verus! {

/// Position `i` holds the first occurrence of key `k` in `s`.
pub open spec fn first_match<V>(s: Seq<(String, V)>, k: Seq<char>, i: int) -> bool {
    0 <= i < s.len() && s[i].0@ == k && forall|j: int| 0 <= j < i ==> s[j].0@ != k
}

/// Key `k` occurs in `s`.
pub open spec fn has_key<V>(s: Seq<(String, V)>, k: Seq<char>) -> bool {
    exists|i: int| 0 <= i < s.len() && s[i].0@ == k
}

/// The map that `s` stands for: each key to the value of its first occurrence.
pub open spec fn keyed_view<V>(s: Seq<(String, V)>) -> Map<Seq<char>, V> {
    Map::new(
        |k: Seq<char>| has_key(s, k),
        |k: Seq<char>| s[choose|i: int| first_match(s, k, i)].1,
    )
}

/// Does each key occur at most once in `s`?
pub open spec fn distinct_keys<V>(s: Seq<(String, V)>) -> bool {
    forall|i: int, j: int| #![trigger s[i], s[j]] 0 <= i < j < s.len() ==> s[i].0@ != s[j].0@
}

/// Appending a pair whose key is new keeps the keys distinct.
pub proof fn lemma_distinct_push<V>(s: Seq<(String, V)>, key: String, v: V)
    requires
        distinct_keys(s),
        !has_key(s, key@),
    ensures
        distinct_keys(s.push((key, v))),
{
    let t = s.push((key, v));
    assert forall|i: int, j: int| #![trigger t[i], t[j]] 0 <= i < j < t.len() implies t[i].0@ != t[j].0@ by {
        assert(t[i] == s[i]);
        if j < s.len() {
            assert(t[j] == s[j]);
        }
    }
}

/// A sequence with the same keys, position by position, keeps them
/// distinct.
pub proof fn lemma_distinct_same_keys<V>(s: Seq<(String, V)>, t: Seq<(String, V)>)
    requires
        distinct_keys(s),
        t.len() == s.len(),
        forall|i: int| 0 <= i < s.len() ==> #[trigger] t[i].0@ == s[i].0@,
    ensures
        distinct_keys(t),
{
    assert forall|i: int, j: int| #![trigger t[i], t[j]] 0 <= i < j < t.len() implies t[i].0@ != t[j].0@ by {
        assert(t[i].0@ == s[i].0@);
        assert(t[j].0@ == s[j].0@);
    }
}

/// Removing a pair keeps the keys distinct.
pub proof fn lemma_distinct_remove<V>(s: Seq<(String, V)>, k: int)
    requires
        distinct_keys(s),
        0 <= k < s.len(),
    ensures
        distinct_keys(s.remove(k)),
{
    let t = s.remove(k);
    assert forall|i: int, j: int| #![trigger t[i], t[j]] 0 <= i < j < t.len() implies t[i].0@ != t[j].0@ by {
        let a = if i < k { i } else { i + 1 };
        let b = if j < k { j } else { j + 1 };
        assert(t[i] == s[a]);
        assert(t[j] == s[b]);
    }
}

/// Any occurrence of a key is preceded by (or is) a first occurrence.
pub proof fn lemma_first_match_exists<V>(s: Seq<(String, V)>, k: Seq<char>, i: int)
    requires
        0 <= i < s.len(),
        s[i].0@ == k,
    ensures
        exists|m: int| first_match(s, k, m),
    decreases i,
{
    if exists|j: int| 0 <= j < i && s[j].0@ == k {
        let j = choose|j: int| 0 <= j < i && s[j].0@ == k;
        lemma_first_match_exists(s, k, j);
    } else {
        assert(first_match(s, k, i));
    }
}

/// The value at a first occurrence is the value the map gives the key.
pub proof fn lemma_first_match_view<V>(s: Seq<(String, V)>, k: Seq<char>, i: int)
    requires
        first_match(s, k, i),
    ensures
        keyed_view(s).contains_key(k),
        keyed_view(s)[k] == s[i].1,
{
    assert(has_key(s, k));
    let c = choose|i: int| first_match(s, k, i);
    assert(first_match(s, k, c));
    if c < i {
        assert(s[c].0@ != k);
    }
    if i < c {
        assert(s[i].0@ != k);
    }
}

/// Changing the value at the first occurrence of `k`, keys left as they are,
/// changes the map at `k` only.
pub proof fn lemma_update_first_match<V>(s: Seq<(String, V)>, k: Seq<char>, i: int, t: Seq<(String, V)>, v: V)
    requires
        first_match(s, k, i),
        t.len() == s.len(),
        forall|j: int| 0 <= j < s.len() ==> #[trigger] t[j].0@ == s[j].0@,
        forall|j: int| 0 <= j < s.len() && j != i ==> #[trigger] t[j] == s[j],
        t[i].1 == v,
    ensures
        keyed_view(t) == keyed_view(s).insert(k, v),
{
    lemma_first_match_view(s, k, i);
    assert(first_match(t, k, i));
    lemma_first_match_view(t, k, i);
    assert forall|k2: Seq<char>| #[trigger] keyed_view(t).contains_key(k2) <==> keyed_view(s).insert(k, v).contains_key(k2) by {
        if has_key(s, k2) {
            let j = choose|j: int| 0 <= j < s.len() && s[j].0@ == k2;
            assert(t[j].0@ == k2);
        }
        if has_key(t, k2) {
            let j = choose|j: int| 0 <= j < t.len() && t[j].0@ == k2;
            assert(s[j].0@ == k2);
        }
    }
    assert forall|k2: Seq<char>| keyed_view(t).contains_key(k2) && k2 != k implies #[trigger] keyed_view(t)[k2] == keyed_view(s)[k2] by {
        let j0 = choose|j: int| 0 <= j < t.len() && t[j].0@ == k2;
        lemma_first_match_exists(t, k2, j0);
        let j = choose|j: int| first_match(t, k2, j);
        assert(first_match(t, k2, j));
        assert(first_match(s, k2, j)) by {
            assert forall|m: int| 0 <= m < j implies s[m].0@ != k2 by {
                assert(t[m].0@ != k2);
            }
        }
        lemma_first_match_view(s, k2, j);
        lemma_first_match_view(t, k2, j);
        assert(j != i);
    }
    assert(keyed_view(t) =~= keyed_view(s).insert(k, v));
}

/// Position of the first occurrence of `key`, if any.
pub fn find_key<V>(v: &Vec<(String, V)>, key: &str) -> (r: Option<usize>)
    ensures
        match r {
            Some(i) => first_match(v@, key@, i as int),
            None => !has_key(v@, key@),
        },
{
    let mut i: usize = 0;
    while i < v.len()
        invariant
            i <= v@.len(),
            forall|j: int| 0 <= j < i ==> v@[j].0@ != key@,
        decreases v@.len() - i,
    {
        if str_eq(v[i].0.as_str(), key) {
            return Some(i);
        }
        i = i + 1;
    }
    None
}

/// Appending a pair whose key is new adds that key to the map.
pub proof fn lemma_push_new_key<V>(s: Seq<(String, V)>, key: String, v: V)
    requires
        !has_key(s, key@),
    ensures
        keyed_view(s.push((key, v))) == keyed_view(s).insert(key@, v),
{
    let t = s.push((key, v));
    let k = key@;
    assert(first_match(t, k, s.len() as int));
    lemma_first_match_view(t, k, s.len() as int);
    assert forall|k2: Seq<char>| #[trigger] keyed_view(t).contains_key(k2) <==> keyed_view(s).insert(k, v).contains_key(k2) by {
        if has_key(t, k2) && k2 != k {
            let j = choose|j: int| 0 <= j < t.len() && t[j].0@ == k2;
            assert(j < s.len());
            assert(s[j].0@ == k2);
        }
        if has_key(s, k2) {
            let j = choose|j: int| 0 <= j < s.len() && s[j].0@ == k2;
            assert(t[j].0@ == k2);
        }
    }
    assert forall|k2: Seq<char>| keyed_view(t).contains_key(k2) && k2 != k implies #[trigger] keyed_view(t)[k2] == keyed_view(s)[k2] by {
        let j0 = choose|j: int| 0 <= j < t.len() && t[j].0@ == k2;
        assert(j0 < s.len());
        assert(s[j0].0@ == k2);
        lemma_first_match_exists(s, k2, j0);
        let j = choose|j: int| first_match(s, k2, j);
        assert(first_match(t, k2, j));
        lemma_first_match_view(s, k2, j);
        lemma_first_match_view(t, k2, j);
    }
    assert(keyed_view(t) =~= keyed_view(s).insert(k, v));
}

/// Inserts or replaces the value of `key`, as `HashMap::insert` does.
pub fn keyed_insert<V>(v: &mut Vec<(String, V)>, key: String, val: V)
    ensures
        keyed_view(final(v)@) == keyed_view(old(v)@).insert(key@, val),
        distinct_keys(old(v)@) ==> distinct_keys(final(v)@),
{
    match find_key(v, key.as_str()) {
        Some(i) => {
            let ghost s = v@;
            let ghost k = key@;
            v.set(i, (key, val));
            proof {
                lemma_update_first_match(s, k, i as int, v@, val);
                if distinct_keys(s) {
                    lemma_distinct_same_keys(s, v@);
                }
            }
        },
        None => {
            let ghost s = v@;
            let ghost kk = key;
            let ghost vv = val;
            v.push((key, val));
            proof {
                lemma_push_new_key(s, kk, vv);
                if distinct_keys(s) {
                    lemma_distinct_push(s, kk, vv);
                }
            }
        },
    }
}

/// A vector of `(name, value)` string pairs as a map between character
/// sequences.
pub open spec fn str_map(v: Seq<(String, String)>) -> Map<Seq<char>, Seq<char>> {
    keyed_view(v).map_values(|s: String| s@)
}

/// Inserts or replaces one string value.
pub fn str_map_insert(env: &mut Vec<(String, String)>, key: String, val: String)
    ensures
        str_map(final(env)@) == str_map(old(env)@).insert(key@, val@),
        distinct_keys(old(env)@) ==> distinct_keys(final(env)@),
{
    let ghost k = key@;
    let ghost v = val@;
    keyed_insert(env, key, val);
    assert(str_map(env@) =~= str_map(old(env)@).insert(k, v));
}

/// The value of `key` in a vector of string pairs, if it has one.
pub fn str_map_get<'a>(m: &'a Vec<(String, String)>, key: &str) -> (r: Option<&'a String>)
    ensures
        match r {
            Some(v) => str_map(m@).contains_key(key@) && str_map(m@)[key@] == v@,
            None => !str_map(m@).contains_key(key@),
        },
{
    match find_key(m, key) {
        Some(i) => {
            proof {
                lemma_first_match_view(m@, key@, i as int);
            }
            Some(&m[i].1)
        },
        None => None,
    }
}

/// The table that entries make when each is inserted in turn, a later entry
/// replacing an earlier one with the same key.
pub open spec fn table<V>(e: Seq<(Seq<char>, V)>) -> Map<Seq<char>, V>
    decreases e.len(),
{
    if e.len() == 0 {
        Map::empty()
    } else {
        table(e.drop_last()).insert(e.last().0, e.last().1)
    }
}

/// Inserting into a keyed vector, seen through a view of its values.
pub proof fn lemma_insert_mapped<V, W>(old_v: Seq<(String, V)>, new_v: Seq<(String, V)>, k: Seq<char>, x: V, f: spec_fn(V) -> W)
    requires
        keyed_view(new_v) == keyed_view(old_v).insert(k, x),
    ensures
        keyed_view(new_v).map_values(f) == keyed_view(old_v).map_values(f).insert(k, f(x)),
{
    assert(keyed_view(new_v).map_values(f) =~= keyed_view(old_v).map_values(f).insert(k, f(x)));
}

} // verus!
