//! Association lists: pairs of a key and a value in which the later of two pairs
//! with the same key counts.

use vstd::prelude::*;

verus! {

/// The last position at which `key` stands, or -1.
pub open spec fn last_position<T>(pairs: Seq<(String, T)>, key: Seq<char>) -> int
    decreases pairs.len(),
{
    if pairs.len() == 0 {
        -1
    } else if pairs.last().0@ == key {
        pairs.len() - 1
    } else {
        last_position(pairs.drop_last(), key)
    }
}

/// What it means to be the last position of a key.
pub broadcast proof fn lemma_last_position<T>(v: Seq<(String, T)>, key: Seq<char>)
    ensures
        -1 <= #[trigger] last_position(v, key) < v.len(),
        last_position(v, key) >= 0 ==> v[last_position(v, key)].0@ == key,
        forall|i: int| last_position(v, key) < i < v.len() ==> (#[trigger] v[i]).0@ != key,
    decreases v.len(),
{
    if v.len() > 0 && v.last().0@ != key {
        lemma_last_position(v.drop_last(), key);
        let p = last_position(v, key);
        assert forall|i: int| p < i < v.len() implies (#[trigger] v[i]).0@ != key by {
            if i < v.len() - 1 {
                assert(v.drop_last()[i] == v[i]);
            }
        }
    }
}

/// The last position at which `key` stands.
pub fn find_key<T>(v: &Vec<(String, T)>, key: &str) -> (r: Option<usize>)
    ensures
        match r {
            Some(i) => last_position(v@, key@) == i && i < v.len(),
            None => last_position(v@, key@) == -1,
        },
{
    let wanted: String = key.to_owned();
    let mut i: usize = v.len();
    proof {
        assert(v@.take(i as int) == v@);
    }
    while i > 0
        invariant
            i <= v.len(),
            wanted@ == key@,
            last_position(v@, key@) == last_position(v@.take(i as int), key@),
        decreases i,
    {
        i = i - 1;
        proof {
            assert(v@.take(i + 1).last() == v@[i as int]);
            assert(v@.take(i + 1).drop_last() == v@.take(i as int));
        }
        if v[i].0 == wanted {
            return Some(i);
        }
    }
    None
}

} // verus!
