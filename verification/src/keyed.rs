//! Sequences of keyed entries read as maps, and sums over sequences.
use vstd::prelude::*;

verus! {

/// No two entries of `s` have the same key.
pub open spec fn keys_unique<T, K>(s: Seq<T>, key: spec_fn(T) -> K) -> bool {
    forall|i: int, j: int| 0 <= i < s.len() && 0 <= j < s.len() && i != j ==> key(s[i]) != key(s[j])
}

/// The map from the key of each entry of `s` to its value.
pub open spec fn keyed_map<T, K, V>(s: Seq<T>, key: spec_fn(T) -> K, val: spec_fn(T) -> V) -> Map<K, V>
    decreases s.len(),
{
    if s.len() == 0 {
        Map::empty()
    } else {
        keyed_map(s.drop_last(), key, val).insert(key(s.last()), val(s.last()))
    }
}

/// Some entry of `s` has key `k`.
pub open spec fn has_key<T, K>(s: Seq<T>, key: spec_fn(T) -> K, k: K) -> bool {
    exists|i: int| 0 <= i < s.len() && key(s[i]) == k
}

pub proof fn lemma_keyed_map_domain<T, K, V>(s: Seq<T>, key: spec_fn(T) -> K, val: spec_fn(T) -> V, k: K)
    ensures
        keyed_map(s, key, val).dom().contains(k) <==> has_key(s, key, k),
    decreases s.len(),
{
    if s.len() > 0 {
        lemma_keyed_map_domain(s.drop_last(), key, val, k);
        if has_key(s, key, k) && key(s.last()) != k {
            let i = choose|i: int| 0 <= i < s.len() && key(s[i]) == k;
            assert(s.drop_last()[i] == s[i]);
        }
        if has_key(s.drop_last(), key, k) {
            let i = choose|i: int| 0 <= i < s.drop_last().len() && key(s.drop_last()[i]) == k;
            assert(s[i] == s.drop_last()[i]);
        }
        if key(s.last()) == k {
            assert(key(s[s.len() - 1]) == k);
        }
    }
}

pub proof fn lemma_keyed_map_value<T, K, V>(s: Seq<T>, key: spec_fn(T) -> K, val: spec_fn(T) -> V, i: int)
    requires
        keys_unique(s, key),
        0 <= i < s.len(),
    ensures
        keyed_map(s, key, val).dom().contains(key(s[i])),
        keyed_map(s, key, val)[key(s[i])] == val(s[i]),
    decreases s.len(),
{
    if i < s.len() - 1 {
        let t = s.drop_last();
        assert(keys_unique(t, key));
        assert(t[i] == s[i]);
        lemma_keyed_map_value(t, key, val, i);
        assert(key(s.last()) != key(s[i]));
    }
}

pub proof fn lemma_keyed_map_push<T, K, V>(s: Seq<T>, key: spec_fn(T) -> K, val: spec_fn(T) -> V, x: T)
    ensures
        keyed_map(s.push(x), key, val) == keyed_map(s, key, val).insert(key(x), val(x)),
{
    assert(s.push(x).drop_last() == s);
}

pub proof fn lemma_keys_unique_push<T, K>(s: Seq<T>, key: spec_fn(T) -> K, x: T)
    requires
        keys_unique(s, key),
        !has_key(s, key, key(x)),
    ensures
        keys_unique(s.push(x), key),
{
    let t = s.push(x);
    assert forall|i: int, j: int| 0 <= i < t.len() && 0 <= j < t.len() && i != j implies key(t[i]) != key(t[j]) by {
        if i == s.len() as int {
            assert(t[j] == s[j]);
        } else if j == s.len() as int {
            assert(t[i] == s[i]);
        } else {
            assert(t[i] == s[i] && t[j] == s[j]);
        }
    }
}

pub proof fn lemma_keys_unique_update<T, K>(s: Seq<T>, key: spec_fn(T) -> K, i: int, x: T)
    requires
        keys_unique(s, key),
        0 <= i < s.len(),
        key(x) == key(s[i]),
    ensures
        keys_unique(s.update(i, x), key),
{
}

pub proof fn lemma_keyed_map_update<T, K, V>(s: Seq<T>, key: spec_fn(T) -> K, val: spec_fn(T) -> V, i: int, x: T)
    requires
        keys_unique(s, key),
        0 <= i < s.len(),
        key(x) == key(s[i]),
    ensures
        keyed_map(s.update(i, x), key, val) == keyed_map(s, key, val).insert(key(x), val(x)),
    decreases s.len(),
{
    let t = s.update(i, x);
    if i == s.len() - 1 {
        assert(t.drop_last() == s.drop_last());
        let m = keyed_map(s.drop_last(), key, val);
        assert(keyed_map(s, key, val) == m.insert(key(s.last()), val(s.last())));
        assert(m.insert(key(s.last()), val(s.last())).insert(key(x), val(x)) =~= m.insert(key(x), val(x)));
    } else {
        let d = s.drop_last();
        assert(keys_unique(d, key));
        assert(t.drop_last() == d.update(i, x));
        lemma_keyed_map_update(d, key, val, i, x);
        assert(key(s.last()) != key(x)) by {
            assert(key(s[s.len() - 1]) != key(s[i]));
        }
        let m = keyed_map(d, key, val);
        assert(m.insert(key(x), val(x)).insert(key(s.last()), val(s.last())) =~= m.insert(
            key(s.last()),
            val(s.last()),
        ).insert(key(x), val(x)));
    }
}

/// The sum of `f` over the entries of `s`.
pub open spec fn seq_sum<T>(s: Seq<T>, f: spec_fn(T) -> nat) -> nat
    decreases s.len(),
{
    if s.len() == 0 {
        0
    } else {
        seq_sum(s.drop_last(), f) + f(s.last())
    }
}

pub proof fn lemma_seq_sum_push<T>(s: Seq<T>, f: spec_fn(T) -> nat, x: T)
    ensures
        seq_sum(s.push(x), f) == seq_sum(s, f) + f(x),
{
    assert(s.push(x).drop_last() == s);
}

pub proof fn lemma_seq_sum_update<T>(s: Seq<T>, f: spec_fn(T) -> nat, i: int, x: T)
    requires
        0 <= i < s.len(),
    ensures
        seq_sum(s.update(i, x), f) + f(s[i]) == seq_sum(s, f) + f(x),
    decreases s.len(),
{
    let t = s.update(i, x);
    if i == s.len() - 1 {
        assert(t.drop_last() == s.drop_last());
    } else {
        assert(t.drop_last() == s.drop_last().update(i, x));
        lemma_seq_sum_update(s.drop_last(), f, i, x);
    }
}

pub proof fn lemma_seq_sum_take<T>(s: Seq<T>, f: spec_fn(T) -> nat, i: int)
    requires
        0 <= i < s.len(),
    ensures
        seq_sum(s.take(i + 1), f) == seq_sum(s.take(i), f) + f(s[i]),
{
    assert(s.take(i + 1).drop_last() == s.take(i));
}

pub proof fn lemma_seq_sum_element<T>(s: Seq<T>, f: spec_fn(T) -> nat, i: int)
    requires
        0 <= i < s.len(),
    ensures
        f(s[i]) <= seq_sum(s, f),
    decreases s.len(),
{
    if i < s.len() - 1 {
        assert(s.drop_last()[i] == s[i]);
        lemma_seq_sum_element(s.drop_last(), f, i);
    }
}

} // verus!
