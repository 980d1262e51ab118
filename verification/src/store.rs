//! Keyed-record machinery shared by the in-memory repositories.
//!
//! Records live in a vector; their abstract state is the finite map from
//! record key (an id rendered as a sequence of characters) to the record's
//! mathematical view. `seq_to_map` performs that reading, and the lemmas
//! below relate vector edits to map edits.
use vstd::prelude::*;

verus! {

/// The finite map read off a sequence of records, given a key projection
/// and a value projection. A later record wins when keys repeat; the
/// repositories keep keys unique, so that case never arises there.
pub open spec fn seq_to_map<T, V>(
    s: Seq<T>,
    key: spec_fn(T) -> Seq<char>,
    val: spec_fn(T) -> V,
) -> Map<Seq<char>, V>
    decreases s.len(),
{
    if s.len() == 0 {
        Map::empty()
    } else {
        seq_to_map(s.drop_last(), key, val).insert(key(s.last()), val(s.last()))
    }
}

/// No two records of the sequence share a key.
pub open spec fn unique_keys<T>(s: Seq<T>, key: spec_fn(T) -> Seq<char>) -> bool {
    forall|i: int, j: int| 0 <= i < j < s.len() ==> key(s[i]) != key(s[j])
}

/// A key is in the map exactly when some record of the sequence carries it.
pub proof fn lemma_s2m_contains<T, V>(
    s: Seq<T>,
    key: spec_fn(T) -> Seq<char>,
    val: spec_fn(T) -> V,
    k: Seq<char>,
)
    ensures
        seq_to_map(s, key, val).contains_key(k) <==> exists|i: int|
            0 <= i < s.len() && key(s[i]) == k,
    decreases s.len(),
{
    if s.len() > 0 {
        lemma_s2m_contains(s.drop_last(), key, val, k);
        assert(forall|i: int| 0 <= i < s.len() - 1 ==> s.drop_last()[i] == s[i]);
        if seq_to_map(s, key, val).contains_key(k) {
            if k == key(s.last()) {
                assert(key(s[s.len() - 1]) == k);
            } else {
                let i = choose|i: int| 0 <= i < s.drop_last().len() && key(s.drop_last()[i]) == k;
                assert(key(s[i]) == k);
            }
        }
        if exists|i: int| 0 <= i < s.len() && key(s[i]) == k {
            let i = choose|i: int| 0 <= i < s.len() && key(s[i]) == k;
            if i < s.len() - 1 {
                assert(key(s.drop_last()[i]) == k);
            } else {
                assert(k == key(s.last()));
            }
        }
    }
}

/// With unique keys, looking the key of record `i` up in the map yields
/// exactly that record's value.
pub proof fn lemma_s2m_index<T, V>(
    s: Seq<T>,
    key: spec_fn(T) -> Seq<char>,
    val: spec_fn(T) -> V,
    i: int,
)
    requires
        unique_keys(s, key),
        0 <= i < s.len(),
    ensures
        seq_to_map(s, key, val).contains_key(key(s[i])),
        seq_to_map(s, key, val)[key(s[i])] == val(s[i]),
    decreases s.len(),
{
    if i < s.len() - 1 {
        assert(forall|a: int| 0 <= a < s.len() - 1 ==> s.drop_last()[a] == s[a]);
        lemma_s2m_index(s.drop_last(), key, val, i);
        assert(key(s[i]) != key(s[s.len() - 1]));
    }
}

/// Appending a record inserts its key and value into the map.
pub proof fn lemma_s2m_push<T, V>(
    s: Seq<T>,
    key: spec_fn(T) -> Seq<char>,
    val: spec_fn(T) -> V,
    t: T,
)
    ensures
        seq_to_map(s.push(t), key, val) == seq_to_map(s, key, val).insert(key(t), val(t)),
{
    assert(s.push(t).drop_last() =~= s);
    assert(s.push(t).last() == t);
}

/// With unique keys, deleting record `i` removes its key from the map and
/// keeps the remaining keys unique.
pub proof fn lemma_s2m_remove<T, V>(
    s: Seq<T>,
    key: spec_fn(T) -> Seq<char>,
    val: spec_fn(T) -> V,
    i: int,
)
    requires
        unique_keys(s, key),
        0 <= i < s.len(),
    ensures
        seq_to_map(s.remove(i), key, val) == seq_to_map(s, key, val).remove(key(s[i])),
        unique_keys(s.remove(i), key),
    decreases s.len(),
{
    let k = key(s[i]);
    let s1 = s.remove(i);
    s.remove_ensures(i);
    assert forall|a: int, b: int| 0 <= a < b < s1.len() implies key(s1[a]) != key(s1[b]) by {
        let a0: int = if a < i { a } else { a + 1 };
        let b0: int = if b < i { b } else { b + 1 };
        assert(key(s1[a]) == key(s[a0]));
        assert(key(s1[b]) == key(s[b0]));
    }
    if i == s.len() - 1 {
        assert(s1 =~= s.drop_last());
        lemma_s2m_contains(s.drop_last(), key, val, k);
        assert(forall|j: int| 0 <= j < s.len() - 1 ==> s.drop_last()[j] == s[j]);
        assert(!seq_to_map(s.drop_last(), key, val).contains_key(k));
        assert(seq_to_map(s, key, val).remove(k) =~= seq_to_map(s.drop_last(), key, val));
    } else {
        assert(s1.last() == s[s.len() - 1]);
        assert(s1.drop_last() =~= s.drop_last().remove(i));
        assert(forall|a: int| 0 <= a < s.len() - 1 ==> s.drop_last()[a] == s[a]);
        lemma_s2m_remove(s.drop_last(), key, val, i);
        let kl = key(s.last());
        let vl = val(s.last());
        let md = seq_to_map(s.drop_last(), key, val);
        assert(kl != k);
        assert(md.remove(k).insert(kl, vl) =~= md.insert(kl, vl).remove(k));
        assert(seq_to_map(s1, key, val) == seq_to_map(s1.drop_last(), key, val).insert(kl, vl));
    }
}

/// Two sequences that agree pointwise on key and value read off as the
/// same map.
pub proof fn lemma_s2m_congruence<T, V>(
    s1: Seq<T>,
    s2: Seq<T>,
    key: spec_fn(T) -> Seq<char>,
    val: spec_fn(T) -> V,
)
    requires
        s1.len() == s2.len(),
        forall|i: int| 0 <= i < s1.len() ==> key(#[trigger] s1[i]) == key(s2[i]) && val(s1[i])
            == val(s2[i]),
    ensures
        seq_to_map(s1, key, val) == seq_to_map(s2, key, val),
    decreases s1.len(),
{
    if s1.len() > 0 {
        assert(forall|i: int| 0 <= i < s1.len() - 1 ==> s1.drop_last()[i] == s1[i]);
        assert(forall|i: int| 0 <= i < s2.len() - 1 ==> s2.drop_last()[i] == s2[i]);
        lemma_s2m_congruence(s1.drop_last(), s2.drop_last(), key, val);
        assert(key(s1[s1.len() - 1]) == key(s2[s2.len() - 1]));
        assert(val(s1[s1.len() - 1]) == val(s2[s2.len() - 1]));
    }
}

} // verus!
