//! Ghost theory of association lists: sequences of key/value pairs with
//! pairwise-distinct keys and first-match lookup. The executable side of the
//! crate stores its small maps (environment variables, extended output
//! streams) as vectors of pairs; contracts speak of them through `lookup`.

use vstd::prelude::*;

verus! {

/// All keys in the pair sequence are pairwise distinct.
pub open spec fn distinct_keys<K, V>(s: Seq<(K, V)>) -> bool {
    forall|i: int, j: int| 0 <= i < j < s.len() ==> s[i].0 != s[j].0
}

/// The value bound to `k`, searching front to back; `None` when `k` is absent.
pub open spec fn lookup<K, V>(s: Seq<(K, V)>, k: K) -> Option<V>
    decreases s.len(),
{
    if s.len() == 0 {
        None
    } else if s[0].0 == k {
        Some(s[0].1)
    } else {
        lookup(s.drop_first(), k)
    }
}

/// A key occurs in the pair sequence.
pub open spec fn has_key<K, V>(s: Seq<(K, V)>, k: K) -> bool {
    exists|i: int| 0 <= i < s.len() && s[i].0 == k
}

/// Lookup finds exactly the keys that occur.
pub proof fn lemma_lookup_some_iff_has_key<K, V>(s: Seq<(K, V)>, k: K)
    ensures
        lookup(s, k) is Some <==> has_key(s, k),
    decreases s.len(),
{
    if s.len() > 0 {
        lemma_lookup_some_iff_has_key(s.drop_first(), k);
        if s[0].0 != k {
            assert(has_key(s, k) <==> has_key(s.drop_first(), k)) by {
                if has_key(s, k) {
                    let i = choose|i: int| 0 <= i < s.len() && s[i].0 == k;
                    assert(s.drop_first()[i - 1] == s[i]);
                }
                if has_key(s.drop_first(), k) {
                    let i = choose|i: int|
                        0 <= i < s.drop_first().len() && s.drop_first()[i].0 == k;
                    assert(s[i + 1] == s.drop_first()[i]);
                }
            }
        }
    }
}

/// When keys are distinct and `k` stands at position `i`, lookup returns the
/// value stored there.
pub proof fn lemma_lookup_at_index<K, V>(s: Seq<(K, V)>, k: K, i: int)
    requires
        distinct_keys(s),
        0 <= i < s.len(),
        s[i].0 == k,
    ensures
        lookup(s, k) == Some(s[i].1),
    decreases s.len(),
{
    if i > 0 {
        assert(s[0].0 != k);
        assert(s.drop_first()[i - 1] == s[i]);
        lemma_lookup_at_index(s.drop_first(), k, i - 1);
    }
}

/// Appending a pair leaves every other key's binding unchanged and binds the
/// new key when it was absent.
pub proof fn lemma_lookup_push<K, V>(s: Seq<(K, V)>, p: (K, V), k: K)
    ensures
        lookup(s, k) is Some ==> lookup(s.push(p), k) == lookup(s, k),
        lookup(s, k) is None && p.0 == k ==> lookup(s.push(p), k) == Some(p.1),
        lookup(s, k) is None && p.0 != k ==> lookup(s.push(p), k) is None,
    decreases s.len(),
{
    if s.len() == 0 {
        assert(s.push(p)[0] == p);
        assert(s.push(p).drop_first() =~= Seq::<(K, V)>::empty());
        if p.0 != k {
            assert(lookup(s.push(p), k) == lookup(s.push(p).drop_first(), k));
            assert(lookup(s.push(p).drop_first(), k) is None);
        }
    } else {
        assert(s.push(p)[0] == s[0]);
        assert(s.push(p).drop_first() =~= s.drop_first().push(p));
        lemma_lookup_push(s.drop_first(), p, k);
    }
}

/// Overwriting the pair at `i` with a pair of the same key rebinds that key
/// and leaves every other key's binding unchanged.
pub proof fn lemma_lookup_update<K, V>(s: Seq<(K, V)>, i: int, p: (K, V), k: K)
    requires
        distinct_keys(s),
        0 <= i < s.len(),
        s[i].0 == p.0,
    ensures
        p.0 == k ==> lookup(s.update(i, p), k) == Some(p.1),
        p.0 != k ==> lookup(s.update(i, p), k) == lookup(s, k),
    decreases s.len(),
{
    let t = s.update(i, p);
    assert(distinct_keys(t)) by {
        assert(forall|a: int, b: int| 0 <= a < b < t.len() ==> t[a].0 != t[b].0) by {
            assert forall|a: int, b: int| 0 <= a < b < t.len() implies t[a].0 != t[b].0 by {
                assert(s[a].0 == t[a].0 && s[b].0 == t[b].0);
            }
        }
    }
    if p.0 == k {
        lemma_lookup_at_index(t, k, i);
    } else {
        if i == 0 {
            assert(t[0] == p);
            assert(t.drop_first() =~= s.drop_first());
            assert(s[0].0 == p.0);
        } else {
            assert(t[0] == s[0]);
            assert(t.drop_first() =~= s.drop_first().update(i - 1, p));
            assert(s.drop_first()[i - 1] == s[i]);
            lemma_lookup_update(s.drop_first(), i - 1, p, k);
        }
    }
}

/// When `k` occurs nowhere, lookup returns nothing.
pub proof fn lemma_lookup_absent<K, V>(s: Seq<(K, V)>, k: K)
    requires
        forall|i: int| 0 <= i < s.len() ==> s[i].0 != k,
    ensures
        lookup(s, k) is None,
{
    lemma_lookup_some_iff_has_key(s, k);
}

/// Distinctness survives appending a fresh key.
pub proof fn lemma_distinct_push<K, V>(s: Seq<(K, V)>, p: (K, V))
    requires
        distinct_keys(s),
        forall|i: int| 0 <= i < s.len() ==> s[i].0 != p.0,
    ensures
        distinct_keys(s.push(p)),
{
    let t = s.push(p);
    assert forall|a: int, b: int| 0 <= a < b < t.len() implies t[a].0 != t[b].0 by {
        if b < s.len() {
            assert(t[a] == s[a] && t[b] == s[b]);
        } else {
            assert(t[a] == s[a] && t[b] == p);
        }
    }
}

/// Distinctness survives rebinding an existing key in place.
pub proof fn lemma_distinct_update<K, V>(s: Seq<(K, V)>, i: int, p: (K, V))
    requires
        distinct_keys(s),
        0 <= i < s.len(),
        s[i].0 == p.0,
    ensures
        distinct_keys(s.update(i, p)),
{
    let t = s.update(i, p);
    assert forall|a: int, b: int| 0 <= a < b < t.len() implies t[a].0 != t[b].0 by {
        assert(s[a].0 == t[a].0 && s[b].0 == t[b].0);
    }
}

} // verus!
