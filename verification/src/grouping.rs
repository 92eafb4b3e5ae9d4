//! Putting items with the same key together, and putting groups in the order of
//! their names.

use vstd::prelude::*;
use crate::text::{lemma_text_le_total, lemma_text_le_trans, str_eq, str_le, text_le, texts};

verus! {

/// The positions at which a key stands, in order.
pub open spec fn positions_of(keys: Seq<Seq<char>>, key: Seq<char>) -> Seq<int>
    decreases keys.len(),
{
    if keys.len() == 0 {
        Seq::empty()
    } else {
        let before = positions_of(keys.drop_last(), key);
        if keys.last() == key {
            before.push(keys.len() - 1)
        } else {
            before
        }
    }
}

/// The positions of a key are those at which it stands, each once, in order.
pub proof fn lemma_positions_of(keys: Seq<Seq<char>>, key: Seq<char>)
    ensures
        forall|i: int|
            0 <= i < positions_of(keys, key).len() ==> 0 <= #[trigger] positions_of(keys, key)[i]
                < keys.len() && keys[positions_of(keys, key)[i]] == key,
        forall|i: int, j: int|
            0 <= i < j < positions_of(keys, key).len() ==> positions_of(keys, key)[i]
                < positions_of(keys, key)[j],
        keys.contains(key) <==> positions_of(keys, key).len() > 0,
        forall|p: int|
            0 <= p < keys.len() && #[trigger] keys[p] == key ==> positions_of(
                keys,
                key,
            ).contains(p),
    decreases keys.len(),
{
    if keys.len() > 0 {
        let k = keys.drop_last();
        lemma_positions_of(k, key);
        let now = positions_of(keys, key);
        let before = positions_of(k, key);
        if keys.contains(key) && keys.last() != key {
            let p = choose|p: int| 0 <= p < keys.len() && keys[p] == key;
            assert(k[p] == key);
        }
        if k.contains(key) {
            let p = choose|p: int| 0 <= p < k.len() && k[p] == key;
            assert(keys[p] == key);
        }
        assert forall|i: int| 0 <= i < now.len() implies 0 <= #[trigger] now[i] < keys.len()
            && keys[now[i]] == key by {
            if i < before.len() {
                assert(now[i] == before[i]);
                assert(k[before[i]] == key);
            }
        }
        assert forall|p: int| 0 <= p < keys.len() && #[trigger] keys[p] == key implies now.contains(
            p,
        ) by {
            if p < k.len() {
                assert(k[p] == key);
                let i = choose|i: int| 0 <= i < before.len() && before[i] == p;
                assert(now[i] == p);
            } else {
                assert(now[before.len() as int] == p);
            }
        }
    }
}

/// The positions at which a key stands, in order.
pub fn find_positions(keys: &Vec<String>, key: &str) -> (r: Vec<usize>)
    ensures
        positions(r@) == positions_of(texts(keys@), key@),
{
    let mut out: Vec<usize> = Vec::new();
    let ghost all = texts(keys@);
    proof {
        assert(positions(out@) =~= positions_of(all.take(0), key@));
    }
    for p in 0..keys.len()
        invariant
            all == texts(keys@),
            positions(out@) == positions_of(all.take(p as int), key@),
    {
        let ghost prior = out@;
        proof {
            assert(all.take(p + 1).drop_last() == all.take(p as int));
            assert(all.take(p + 1).last() == keys@[p as int]@);
        }
        if str_eq(keys[p].as_str(), key) {
            out.push(p);
            proof {
                assert(positions(out@) =~= positions(prior).push(p as int));
            }
        }
    }
    proof {
        assert(all.take(keys@.len() as int) == all);
    }
    out
}

/// Positions as numbers.
pub open spec fn positions(v: Seq<usize>) -> Seq<int> {
    Seq::new(v.len(), |i: int| v[i] as int)
}

/// Whether `s` is among the texts.
pub fn is_listed(v: &Vec<String>, s: &str) -> (r: bool)
    ensures
        r == texts(v@).contains(s@),
{
    for i in 0..v.len()
        invariant
            forall|j: int| 0 <= j < i ==> (#[trigger] v@[j])@ != s@,
    {
        if str_eq(v[i].as_str(), s) {
            proof {
                assert(texts(v@)[i as int] == s@);
            }
            return true;
        }
    }
    false
}

/// Whether `d` lists every text of `keys`, each once, and no other.
pub open spec fn lists_once(d: Seq<Seq<char>>, keys: Seq<Seq<char>>) -> bool {
    &&& d.no_duplicates()
    &&& forall|p: int| 0 <= p < keys.len() ==> d.contains(#[trigger] keys[p])
    &&& forall|i: int| 0 <= i < d.len() ==> keys.contains(#[trigger] d[i])
}

/// The different keys.
pub fn distinct(keys: &Vec<String>) -> (r: Vec<String>)
    ensures
        lists_once(texts(r@), texts(keys@)),
{
    let mut out: Vec<String> = Vec::new();
    let ghost all = texts(keys@);
    for p in 0..keys.len()
        invariant
            all == texts(keys@),
            lists_once(texts(out@), all.take(p as int)),
    {
        let ghost prior = texts(out@);
        let ghost before = all.take(p as int);
        let ghost now = all.take(p + 1);
        proof {
            assert(now == before.push(keys@[p as int]@));
        }
        if !is_listed(&out, keys[p].as_str()) {
            out.push(keys[p].clone());
            proof {
                assert(texts(out@) =~= prior.push(keys@[p as int]@));
            }
        }
        proof {
            lemma_lists_once_push(prior, before, keys@[p as int]@);
        }
    }
    proof {
        assert(all.take(keys@.len() as int) == all);
    }
    out
}

proof fn lemma_lists_once_push(d: Seq<Seq<char>>, keys: Seq<Seq<char>>, key: Seq<char>)
    requires
        lists_once(d, keys),
    ensures
        lists_once(
            if d.contains(key) {
                d
            } else {
                d.push(key)
            },
            keys.push(key),
        ),
{
    let e = if d.contains(key) {
        d
    } else {
        d.push(key)
    };
    let now = keys.push(key);
    assert forall|p: int| 0 <= p < now.len() implies e.contains(#[trigger] now[p]) by {
        if p < keys.len() {
            assert(d.contains(keys[p]));
            let i = choose|i: int| 0 <= i < d.len() && d[i] == keys[p];
            assert(e[i] == now[p]);
        } else if !d.contains(key) {
            assert(e[d.len() as int] == key);
        }
    }
    assert forall|i: int| 0 <= i < e.len() implies now.contains(#[trigger] e[i]) by {
        if i < d.len() {
            assert(keys.contains(d[i]));
            let p = choose|p: int| 0 <= p < keys.len() && keys[p] == d[i];
            assert(now[p] == e[i]);
        } else {
            assert(now[keys.len() as int] == key);
        }
    }
}

/// How many positions the given keys have together.
pub open spec fn positions_total(d: Seq<Seq<char>>, keys: Seq<Seq<char>>) -> nat
    decreases d.len(),
{
    if d.len() == 0 {
        0
    } else {
        positions_total(d.drop_last(), keys) + positions_of(keys, d.last()).len()
    }
}

proof fn lemma_total_push(d: Seq<Seq<char>>, keys: Seq<Seq<char>>, key: Seq<char>)
    requires
        d.no_duplicates(),
    ensures
        positions_total(d, keys.push(key)) == positions_total(d, keys) + (if d.contains(key) {
            1nat
        } else {
            0nat
        }),
    decreases d.len(),
{
    if d.len() > 0 {
        let e = d.drop_last();
        lemma_total_push(e, keys, key);
        assert(keys.push(key).drop_last() == keys);
        if e.contains(key) {
            let i = choose|i: int| 0 <= i < e.len() && e[i] == key;
            assert(d[i] == key);
            assert(d.last() != key);
        }
        if d.last() == key {
            assert(d[d.len() - 1] == key);
        } else if d.contains(key) {
            let i = choose|i: int| 0 <= i < d.len() && d[i] == key;
            assert(e[i] == key);
        }
    }
}

proof fn lemma_total_prefix(d: Seq<Seq<char>>, keys: Seq<Seq<char>>, n: int)
    requires
        lists_once(d, keys),
        0 <= n <= keys.len(),
    ensures
        positions_total(d, keys.take(n)) == n,
    decreases n,
{
    if n == 0 {
        lemma_total_empty(d);
        assert(keys.take(0) == Seq::<Seq<char>>::empty());
    } else {
        lemma_total_prefix(d, keys, n - 1);
        lemma_total_push(d, keys.take(n - 1), keys[n - 1]);
        assert(keys.take(n) == keys.take(n - 1).push(keys[n - 1]));
        assert(d.contains(keys[n - 1]));
    }
}

proof fn lemma_total_empty(d: Seq<Seq<char>>)
    ensures
        positions_total(d, Seq::empty()) == 0,
    decreases d.len(),
{
    if d.len() > 0 {
        lemma_total_empty(d.drop_last());
    }
}

/// The different keys have all positions between them.
pub proof fn lemma_positions_total(d: Seq<Seq<char>>, keys: Seq<Seq<char>>)
    requires
        lists_once(d, keys),
    ensures
        positions_total(d, keys) == keys.len(),
{
    lemma_total_prefix(d, keys, keys.len() as int);
    assert(keys.take(keys.len() as int) == keys);
}

/// Whether the texts stand in their order.
pub open spec fn in_order(names: Seq<Seq<char>>) -> bool {
    forall|i: int, j: int|
        0 <= i < j < names.len() ==> text_le(#[trigger] names[i], #[trigger] names[j])
}

/// Where a name belongs among names that stand in their order: behind those that
/// come no later.
pub fn insertion_point(names: &Vec<String>, name: &str) -> (r: usize)
    requires
        in_order(texts(names@)),
    ensures
        r <= names.len(),
        in_order(texts(names@).insert(r as int, name@)),
{
    let ghost all = texts(names@);
    let mut i: usize = 0;
    while i < names.len() && str_le(names[i].as_str(), name)
        invariant
            i <= names.len(),
            all == texts(names@),
            forall|j: int| 0 <= j < i ==> text_le(#[trigger] all[j], name@),
        decreases names.len() - i,
    {
        proof {
            assert(all[i as int] == names@[i as int]@);
        }
        i = i + 1;
    }
    proof {
        if i < names.len() {
            assert(all[i as int] == names@[i as int]@);
            lemma_text_le_total(all[i as int], name@);
            assert forall|j: int| i <= j < all.len() implies text_le(name@, #[trigger] all[j]) by {
                if i < j {
                    lemma_text_le_trans(name@, all[i as int], all[j]);
                }
            }
        }
        lemma_insert_in_order(all, i as int, name@);
    }
    i
}

proof fn lemma_insert_in_order(names: Seq<Seq<char>>, i: int, name: Seq<char>)
    requires
        0 <= i <= names.len(),
        in_order(names),
        forall|j: int| 0 <= j < i ==> text_le(#[trigger] names[j], name),
        forall|j: int| i <= j < names.len() ==> text_le(name, #[trigger] names[j]),
    ensures
        in_order(names.insert(i, name)),
{
    let now = names.insert(i, name);
    assert forall|a: int, b: int| 0 <= a < b < now.len() implies text_le(
        #[trigger] now[a],
        #[trigger] now[b],
    ) by {
        let x = if a < i {
            a
        } else {
            a - 1
        };
        let y = if b < i {
            b
        } else {
            b - 1
        };
        if a != i {
            assert(now[a] == names[x]);
        }
        if b != i {
            assert(now[b] == names[y]);
        }
    }
}

/// Putting one more key anywhere into a list of different keys.
pub proof fn lemma_insert_once(ids: Seq<Seq<char>>, d: Seq<Seq<char>>, n: int, at: int)
    requires
        d.no_duplicates(),
        0 <= n < d.len(),
        lists_once(ids, d.take(n)),
        0 <= at <= ids.len(),
    ensures
        lists_once(ids.insert(at, d[n]), d.take(n + 1)),
{
    let (before, after) = (d.take(n), d.take(n + 1));
    let now = ids.insert(at, d[n]);
    assert(after == before.push(d[n]));
    assert forall|i: int| 0 <= i < ids.len() implies ids[i] != d[n] by {
        assert(before.contains(ids[i]));
        let p = choose|p: int| 0 <= p < before.len() && before[p] == ids[i];
        assert(d[p] == ids[i]);
    }
    assert forall|i: int, j: int| 0 <= i < now.len() && 0 <= j < now.len() && i != j implies now[i]
        != now[j] by {
        let x = if i < at {
            i
        } else {
            i - 1
        };
        let y = if j < at {
            j
        } else {
            j - 1
        };
        if i != at && j != at {
            assert(ids[x] != ids[y]);
        }
    }
    assert forall|p: int| 0 <= p < after.len() implies now.contains(#[trigger] after[p]) by {
        if p < n {
            assert(after[p] == before[p]);
            assert(ids.contains(before[p]));
            let i = choose|i: int| 0 <= i < ids.len() && ids[i] == before[p];
            if i < at {
                assert(now[i] == after[p]);
            } else {
                assert(now[i + 1] == after[p]);
            }
        } else {
            assert(now[at] == d[n]);
        }
    }
    assert forall|i: int| 0 <= i < now.len() implies after.contains(#[trigger] now[i]) by {
        if i == at {
            assert(after[n] == d[n]);
        } else {
            let x = if i < at {
                i
            } else {
                i - 1
            };
            assert(before.contains(ids[x]));
            let p = choose|p: int| 0 <= p < before.len() && before[p] == ids[x];
            assert(after[p] == now[i]);
        }
    }
}

/// A list of the different keys of a list of the different keys.
pub proof fn lemma_lists_once_trans(a: Seq<Seq<char>>, b: Seq<Seq<char>>, c: Seq<Seq<char>>)
    requires
        lists_once(a, b),
        lists_once(b, c),
    ensures
        lists_once(a, c),
{
    assert forall|p: int| 0 <= p < c.len() implies a.contains(#[trigger] c[p]) by {
        assert(b.contains(c[p]));
        let i = choose|i: int| 0 <= i < b.len() && b[i] == c[p];
        assert(a.contains(b[i]));
    }
    assert forall|i: int| 0 <= i < a.len() implies c.contains(#[trigger] a[i]) by {
        assert(b.contains(a[i]));
        let p = choose|p: int| 0 <= p < b.len() && b[p] == a[i];
        assert(c.contains(b[p]));
    }
}

} // verus!
