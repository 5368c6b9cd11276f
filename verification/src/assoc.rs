//! Lookup in an association sequence: the value of the first pair whose key
//! matches. Both the method table of a route entry and the parameter list of
//! a request context are association sequences.

use vstd::prelude::*;

verus! {

/// The value of the first pair at or after position `i` whose key is `key`.
pub open spec fn assoc_at<K, V>(s: Seq<(K, V)>, key: K, i: int) -> Option<V>
    decreases s.len() - i,
{
    if i < 0 || i >= s.len() {
        None
    } else if s[i].0 == key {
        Some(s[i].1)
    } else {
        assoc_at(s, key, i + 1)
    }
}

/// The value of the first pair whose key is `key`, if any.
pub open spec fn assoc<K, V>(s: Seq<(K, V)>, key: K) -> Option<V> {
    assoc_at(s, key, 0)
}

/// A key whose first occurrence is at `j` looks up to the value stored there.
pub proof fn lemma_assoc_found<K, V>(s: Seq<(K, V)>, key: K, j: int)
    requires
        0 <= j < s.len(),
        s[j].0 == key,
        forall|l: int| 0 <= l < j ==> (#[trigger] s[l]).0 != key,
    ensures
        assoc(s, key) == Some(s[j].1),
{
    lemma_assoc_found_at(s, key, j, 0);
}

proof fn lemma_assoc_found_at<K, V>(s: Seq<(K, V)>, key: K, j: int, i: int)
    requires
        0 <= i <= j < s.len(),
        s[j].0 == key,
        forall|l: int| i <= l < j ==> (#[trigger] s[l]).0 != key,
    ensures
        assoc_at(s, key, i) == Some(s[j].1),
    decreases j - i,
{
    if i < j {
        lemma_assoc_found_at(s, key, j, i + 1);
    }
}

/// A key no pair carries looks up to nothing.
pub proof fn lemma_assoc_none<K, V>(s: Seq<(K, V)>, key: K)
    requires
        forall|l: int| 0 <= l < s.len() ==> (#[trigger] s[l]).0 != key,
    ensures
        assoc(s, key) is None,
{
    lemma_assoc_none_at(s, key, 0);
}

proof fn lemma_assoc_none_at<K, V>(s: Seq<(K, V)>, key: K, i: int)
    requires
        forall|l: int| i <= l < s.len() ==> (#[trigger] s[l]).0 != key,
    ensures
        assoc_at(s, key, i) is None,
    decreases s.len() - i,
{
    if 0 <= i && i < s.len() {
        lemma_assoc_none_at(s, key, i + 1);
    }
}

/// Two sequences that agree on every pair, except possibly in the values of
/// pairs whose key is not the one looked up, look up alike.
pub proof fn lemma_assoc_agree<K, V>(s1: Seq<(K, V)>, s2: Seq<(K, V)>, key: K)
    requires
        s1.len() == s2.len(),
        forall|l: int| 0 <= l < s1.len() ==> (#[trigger] s1[l] == s2[l] || (s1[l].0 == s2[l].0
            && s1[l].0 != key)),
    ensures
        assoc(s1, key) == assoc(s2, key),
{
    lemma_assoc_agree_at(s1, s2, key, 0);
}

proof fn lemma_assoc_agree_at<K, V>(s1: Seq<(K, V)>, s2: Seq<(K, V)>, key: K, i: int)
    requires
        s1.len() == s2.len(),
        forall|l: int| 0 <= l < s1.len() ==> (#[trigger] s1[l] == s2[l] || (s1[l].0 == s2[l].0
            && s1[l].0 != key)),
    ensures
        assoc_at(s1, key, i) == assoc_at(s2, key, i),
    decreases s1.len() - i,
{
    if 0 <= i && i < s1.len() {
        lemma_assoc_agree_at(s1, s2, key, i + 1);
    }
}

/// Appending a pair leaves every present key unchanged and gives the new
/// key its value if it was absent.
pub proof fn lemma_assoc_push<K, V>(s: Seq<(K, V)>, key: K, k: K, v: V)
    ensures
        assoc(s.push((k, v)), key) == (if assoc(s, key) is Some {
            assoc(s, key)
        } else if key == k {
            Some(v)
        } else {
            None::<V>
        }),
{
    lemma_assoc_push_at(s, key, k, v, 0);
}

proof fn lemma_assoc_push_at<K, V>(s: Seq<(K, V)>, key: K, k: K, v: V, i: int)
    requires
        0 <= i <= s.len(),
    ensures
        assoc_at(s.push((k, v)), key, i) == (if assoc_at(s, key, i) is Some {
            assoc_at(s, key, i)
        } else if key == k {
            Some(v)
        } else {
            None::<V>
        }),
    decreases s.len() - i,
{
    if i < s.len() {
        assert(s.push((k, v))[i] == s[i]);
        lemma_assoc_push_at(s, key, k, v, i + 1);
    } else {
        assert(s.push((k, v))[i] == (k, v));
        assert(assoc_at(s, key, i) is None);
        assert(assoc_at(s.push((k, v)), key, i + 1) is None);
    }
}

} // verus!
