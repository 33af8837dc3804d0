//! A keyed store modelled as an association list whose abstract value is a
//! `Map`. A later pair under the same key shadows an earlier one, so pushing
//! a pair is exactly a map insert, and a lookup must take the latest match.

use vstd::prelude::*;

verus! {

/// The map abstraction of an association list: each key is bound to the
/// value of the latest pair that carries it.
pub open spec fn kv_view<V: View>(s: Seq<(Vec<u8>, V)>) -> Map<Seq<u8>, V::V>
    decreases s.len(),
{
    if s.len() == 0 {
        Map::empty()
    } else {
        kv_view(s.drop_last()).insert(s.last().0@, s.last().1@)
    }
}

/// A pair that no later pair shadows decides its key's binding.
pub proof fn lemma_kv_view_found<V: View>(s: Seq<(Vec<u8>, V)>, i: int)
    requires
        0 <= i < s.len(),
        forall|j: int| i < j < s.len() ==> s[j].0@ != s[i].0@,
    ensures
        kv_view(s).contains_key(s[i].0@),
        kv_view(s)[s[i].0@] == s[i].1@,
    decreases s.len(),
{
    if i == s.len() - 1 {
        assert(s.last() == s[i]);
    } else {
        assert(s.drop_last()[i] == s[i]);
        lemma_kv_view_found(s.drop_last(), i);
        assert(s.last().0@ != s[i].0@);
    }
}

/// A key that no pair carries is absent from the map.
pub proof fn lemma_kv_view_absent<V: View>(s: Seq<(Vec<u8>, V)>, k: Seq<u8>)
    requires
        forall|j: int| 0 <= j < s.len() ==> s[j].0@ != k,
    ensures
        !kv_view(s).contains_key(k),
    decreases s.len(),
{
    if s.len() > 0 {
        assert(forall|j: int| 0 <= j < s.drop_last().len() ==> s.drop_last()[j] == s[j]);
        lemma_kv_view_absent(s.drop_last(), k);
        assert(s.last().0@ != k);
    }
}

/// Pushing a pair inserts its binding into the map.
pub proof fn lemma_kv_view_push<V: View>(s: Seq<(Vec<u8>, V)>, key: Vec<u8>, v: V)
    ensures
        kv_view(s.push((key, v))) == kv_view(s).insert(key@, v@),
{
    assert(s.push((key, v)).drop_last() =~= s);
    assert(s.push((key, v)).last() == (key, v));
}

} // verus!
