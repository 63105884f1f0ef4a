//! Association lists keyed by strings: lookup of the first entry with a
//! key, and insertion that replaces it.

use vstd::prelude::*;

use crate::text::str_eq;

verus! {

/// The position of the first entry with key `key`.
pub open spec fn key_pos<V>(e: Seq<(String, V)>, key: Seq<char>) -> Option<int>
    decreases e.len(),
{
    if e.len() == 0 {
        None
    } else {
        match key_pos(e.drop_last(), key) {
            Some(i) => Some(i),
            None => if e.last().0@ == key {
                Some(e.len() - 1)
            } else {
                None
            },
        }
    }
}

/// The value of the first entry with key `key`.
pub open spec fn key_get<V>(e: Seq<(String, V)>, key: Seq<char>) -> Option<V> {
    match key_pos(e, key) {
        Some(i) => Some(e[i].1),
        None => None,
    }
}

/// `key_pos` finds the least position holding the key.
pub proof fn lemma_key_pos<V>(e: Seq<(String, V)>, key: Seq<char>)
    ensures
        match key_pos(e, key) {
            Some(i) => 0 <= i < e.len() && e[i].0@ == key && forall|j: int|
                0 <= j < i ==> #[trigger] e[j].0@ != key,
            None => forall|j: int| 0 <= j < e.len() ==> #[trigger] e[j].0@ != key,
        },
    decreases e.len(),
{
    if e.len() > 0 {
        let t = e.drop_last();
        lemma_key_pos(t, key);
        assert(forall|j: int| 0 <= j < t.len() ==> t[j] == e[j]);
    }
}

/// A position holding the key, with none before it, is what `key_pos` finds.
pub proof fn lemma_key_pos_is<V>(e: Seq<(String, V)>, key: Seq<char>, i: int)
    requires
        0 <= i < e.len(),
        e[i].0@ == key,
        forall|j: int| 0 <= j < i ==> #[trigger] e[j].0@ != key,
    ensures
        key_pos(e, key) == Some(i),
    decreases e.len(),
{
    lemma_key_pos(e, key);
    match key_pos(e, key) {
        Some(m) => {
            if m < i {
                assert(e[m].0@ != key);
            }
            if m > i {
                assert(e[i].0@ != key);
            }
        },
        None => {
            assert(e[i].0@ != key);
        },
    }
}

/// With no entry holding the key, `key_pos` finds nothing.
pub proof fn lemma_key_pos_none<V>(e: Seq<(String, V)>, key: Seq<char>)
    requires
        forall|j: int| 0 <= j < e.len() ==> #[trigger] e[j].0@ != key,
    ensures
        key_pos(e, key) is None,
{
    lemma_key_pos(e, key);
    if let Some(m) = key_pos(e, key) {
        assert(e[m].0@ != key);
    }
}

/// The position of the first entry with key `key`.
pub fn keyed_position<V>(e: &Vec<(String, V)>, key: &str) -> (r: Option<usize>)
    ensures
        match r {
            Some(i) => key_pos(e@, key@) == Some(i as int) && i < e@.len(),
            None => key_pos(e@, key@) is None,
        },
{
    let mut i: usize = 0;
    while i < e.len()
        invariant
            i <= e@.len(),
            forall|j: int| 0 <= j < i ==> #[trigger] e@[j].0@ != key@,
        decreases e@.len() - i,
    {
        if str_eq(e[i].0.as_str(), key) {
            proof {
                lemma_key_pos_is(e@, key@, i as int);
            }
            return Some(i);
        }
        i = i + 1;
    }
    proof {
        lemma_key_pos_none(e@, key@);
    }
    None
}

/// Record `v` under `key`, replacing the first entry with that key.
pub fn keyed_insert<V>(e: &mut Vec<(String, V)>, key: String, v: V)
    ensures
        key_get(final(e)@, key@) == Some(v),
        forall|k: Seq<char>| k != key@ ==> #[trigger] key_get(final(e)@, k) == key_get(old(e)@, k),
{
    let ghost k0 = key@;
    let ghost a = e@;
    match keyed_position(e, key.as_str()) {
        Some(i) => {
            e.set(i, (key, v));
            proof {
                lemma_key_pos(a, k0);
                assert forall|j: int| 0 <= j < i implies #[trigger] e@[j].0@ != k0 by {
                    assert(e@[j] == a[j]);
                }
                lemma_key_pos_is(e@, k0, i as int);
                assert forall|k: Seq<char>| k != k0 implies #[trigger] key_get(e@, k) == key_get(a, k) by {
                    lemma_same_lookup(a, e@, k, i as int);
                }
            }
        },
        None => {
            e.push((key, v));
            proof {
                lemma_key_pos(a, k0);
                let n = a.len() as int;
                assert forall|j: int| 0 <= j < n implies #[trigger] e@[j].0@ != k0 by {
                    assert(e@[j] == a[j]);
                }
                lemma_key_pos_is(e@, k0, n);
                assert forall|k: Seq<char>| k != k0 implies #[trigger] key_get(e@, k) == key_get(a, k) by {
                    lemma_same_lookup(a, e@, k, n);
                }
            }
        },
    }
}

proof fn lemma_same_lookup<V>(a: Seq<(String, V)>, b: Seq<(String, V)>, k: Seq<char>, i: int)
    requires
        a.len() <= b.len() <= a.len() + 1,
        0 <= i < b.len(),
        b[i].0@ != k,
        i < a.len() ==> a[i].0@ != k,
        forall|j: int| 0 <= j < a.len() && j != i ==> #[trigger] a[j] == b[j],
        b.len() == a.len() + 1 ==> i == a.len(),
    ensures
        key_get(b, k) == key_get(a, k),
{
    lemma_key_pos(a, k);
    lemma_key_pos(b, k);
    match key_pos(a, k) {
        Some(m) => {
            assert(m != i);
            assert(a[m] == b[m]);
            assert forall|j: int| 0 <= j < m implies #[trigger] b[j].0@ != k by {
                if j != i {
                    assert(a[j] == b[j]);
                    assert(a[j].0@ != k);
                }
            }
            lemma_key_pos_is(b, k, m);
        },
        None => {
            assert forall|j: int| 0 <= j < b.len() implies #[trigger] b[j].0@ != k by {
                if j != i && j < a.len() {
                    assert(a[j] == b[j]);
                    assert(a[j].0@ != k);
                }
            }
            lemma_key_pos_none(b, k);
        },
    }
}

} // verus!
