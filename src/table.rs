//! Keyed tables: a vector of `(key, value)` pairs with unique keys, viewed as a map.
use vstd::prelude::*;

verus! {

/// An account identity or an asset-type identity: 32 raw bytes.
pub type Key = [u8; 32];

/// No two entries of `s` carry the same key.
pub open spec fn unique_keys<V>(s: Seq<(Key, V)>) -> bool {
    forall|i: int, j: int|
        0 <= i < s.len() && 0 <= j < s.len() && (#[trigger] s[i]).0@ == (#[trigger] s[j]).0@
            ==> i == j
}

/// `k` is the key of some entry of `s`.
pub open spec fn has_key<V>(s: Seq<(Key, V)>, k: Seq<u8>) -> bool {
    exists|i: int| 0 <= i < s.len() && (#[trigger] s[i]).0@ == k
}

/// The table as a map from key bytes to value.
pub open spec fn map_of<V>(s: Seq<(Key, V)>) -> Map<Seq<u8>, V> {
    Map::new(
        |k: Seq<u8>| has_key(s, k),
        |k: Seq<u8>| s[choose|i: int| 0 <= i < s.len() && (#[trigger] s[i]).0@ == k].1,
    )
}

pub proof fn lemma_map_of_at<V>(s: Seq<(Key, V)>, i: int)
    requires
        unique_keys(s),
        0 <= i < s.len(),
    ensures
        map_of(s).contains_key(s[i].0@),
        map_of(s)[s[i].0@] == s[i].1,
{
    let k = s[i].0@;
    assert(has_key(s, k));
    let j = choose|j: int| 0 <= j < s.len() && (#[trigger] s[j]).0@ == k;
    assert(s[j].0@ == s[i].0@);
}

pub proof fn lemma_map_of_push<V>(s: Seq<(Key, V)>, k: Key, v: V)
    requires
        unique_keys(s),
        !map_of(s).contains_key(k@),
    ensures
        unique_keys(s.push((k, v))),
        map_of(s.push((k, v))) == map_of(s).insert(k@, v),
{
    let t = s.push((k, v));
    assert forall|i: int, j: int|
        0 <= i < t.len() && 0 <= j < t.len() && (#[trigger] t[i]).0@ == (#[trigger] t[j]).0@
        implies i == j by {
        if i < s.len() && j == s.len() {
            assert(has_key(s, k@));
        } else if j < s.len() && i == s.len() {
            assert(has_key(s, k@));
        } else if i < s.len() && j < s.len() {
            assert(s[i] == t[i] && s[j] == t[j]);
        }
    }
    assert forall|q: Seq<u8>| #[trigger] map_of(t).contains_key(q) == map_of(s).insert(k@, v).contains_key(q) by {
        if has_key(s, q) {
            let i = choose|i: int| 0 <= i < s.len() && (#[trigger] s[i]).0@ == q;
            assert(t[i] == s[i]);
        }
        if has_key(t, q) && q != k@ {
            let i = choose|i: int| 0 <= i < t.len() && (#[trigger] t[i]).0@ == q;
            assert(s[i] == t[i]);
        }
        if q == k@ {
            assert(t[s.len() as int].0@ == q);
        }
    }
    assert forall|q: Seq<u8>| #[trigger] map_of(t).contains_key(q) implies map_of(t)[q] == map_of(s).insert(k@, v)[q] by {
        let i = choose|i: int| 0 <= i < t.len() && (#[trigger] t[i]).0@ == q;
        lemma_map_of_at(t, i);
        if i < s.len() {
            assert(s[i] == t[i]);
            lemma_map_of_at(s, i);
        }
    }
    assert(map_of(t) =~= map_of(s).insert(k@, v));
}

pub proof fn lemma_map_of_update<V>(s: Seq<(Key, V)>, i: int, v: V)
    requires
        unique_keys(s),
        0 <= i < s.len(),
    ensures
        unique_keys(s.update(i, (s[i].0, v))),
        map_of(s.update(i, (s[i].0, v))) == map_of(s).insert(s[i].0@, v),
{
    let t = s.update(i, (s[i].0, v));
    assert forall|a: int, b: int|
        0 <= a < t.len() && 0 <= b < t.len() && (#[trigger] t[a]).0@ == (#[trigger] t[b]).0@
        implies a == b by {
        assert(t[a].0 == s[a].0 && t[b].0 == s[b].0);
        assert(s[a].0@ == s[b].0@);
    }
    assert forall|q: Seq<u8>| #[trigger] map_of(t).contains_key(q) == map_of(s).insert(s[i].0@, v).contains_key(q) by {
        if has_key(s, q) {
            let j = choose|j: int| 0 <= j < s.len() && (#[trigger] s[j]).0@ == q;
            assert(t[j].0 == s[j].0);
        }
        if has_key(t, q) {
            let j = choose|j: int| 0 <= j < t.len() && (#[trigger] t[j]).0@ == q;
            assert(t[j].0 == s[j].0);
            assert(s[j].0@ == q);
        }
        assert(t[i].0@ == s[i].0@);
    }
    assert forall|q: Seq<u8>| #[trigger] map_of(t).contains_key(q) implies map_of(t)[q] == map_of(s).insert(s[i].0@, v)[q] by {
        let j = choose|j: int| 0 <= j < t.len() && (#[trigger] t[j]).0@ == q;
        lemma_map_of_at(t, j);
        assert(t[j].0 == s[j].0);
        if j != i {
            assert(s[j] == t[j]);
            lemma_map_of_at(s, j);
            assert(s[j].0@ != s[i].0@);
        }
    }
    assert(map_of(t) =~= map_of(s).insert(s[i].0@, v));
}

pub proof fn lemma_map_of_remove<V>(s: Seq<(Key, V)>, i: int)
    requires
        unique_keys(s),
        0 <= i < s.len(),
    ensures
        unique_keys(s.remove(i)),
        map_of(s.remove(i)) == map_of(s).remove(s[i].0@),
{
    let t = s.remove(i);
    assert forall|a: int| 0 <= a < t.len() implies #[trigger] t[a] == s[if a < i { a } else { a + 1 }] by {}
    assert forall|a: int, b: int|
        0 <= a < t.len() && 0 <= b < t.len() && (#[trigger] t[a]).0@ == (#[trigger] t[b]).0@
        implies a == b by {
        let a2 = if a < i { a } else { a + 1 };
        let b2 = if b < i { b } else { b + 1 };
        assert(t[a] == s[a2] && t[b] == s[b2]);
    }
    assert forall|q: Seq<u8>| #[trigger] map_of(t).contains_key(q) == map_of(s).remove(s[i].0@).contains_key(q) by {
        if has_key(s, q) && q != s[i].0@ {
            let j = choose|j: int| 0 <= j < s.len() && (#[trigger] s[j]).0@ == q;
            let j2 = if j < i { j } else { j - 1 };
            assert(t[j2] == s[j]);
        }
        if has_key(t, q) {
            let j = choose|j: int| 0 <= j < t.len() && (#[trigger] t[j]).0@ == q;
            let j2 = if j < i { j } else { j + 1 };
            assert(t[j] == s[j2]);
            assert(s[j2].0@ == q);
        }
    }
    assert forall|q: Seq<u8>| #[trigger] map_of(t).contains_key(q) implies map_of(t)[q] == map_of(s).remove(s[i].0@)[q] by {
        let j = choose|j: int| 0 <= j < t.len() && (#[trigger] t[j]).0@ == q;
        let j2 = if j < i { j } else { j + 1 };
        assert(t[j] == s[j2]);
        lemma_map_of_at(t, j);
        lemma_map_of_at(s, j2);
    }
    assert(map_of(t) =~= map_of(s).remove(s[i].0@));
}

/// Whether two keys hold the same bytes.
pub fn keys_equal(a: &Key, b: &Key) -> (r: bool)
    ensures
        r == (a@ == b@),
{
    let mut i: usize = 0;
    while i < 32
        invariant
            0 <= i <= 32,
            a@.len() == 32,
            b@.len() == 32,
            forall|j: int| 0 <= j < i ==> a@[j] == b@[j],
        decreases 32 - i,
    {
        if a[i] != b[i] {
            assert(a@[i as int] != b@[i as int]);
            return false;
        }
        i = i + 1;
    }
    assert(a@ =~= b@);
    true
}

/// The position of the entry with key `k`, if there is one.
pub fn find_index<V>(s: &Vec<(Key, V)>, k: &Key) -> (r: Option<usize>)
    requires
        unique_keys(s@),
    ensures
        match r {
            Some(i) => i < s@.len() && s@[i as int].0@ == k@,
            None => !map_of(s@).contains_key(k@),
        },
{
    let mut i: usize = 0;
    while i < s.len()
        invariant
            0 <= i <= s@.len(),
            forall|j: int| 0 <= j < i ==> (#[trigger] s@[j]).0@ != k@,
        decreases s@.len() - i,
    {
        if keys_equal(&s[i].0, k) {
            return Some(i);
        }
        i = i + 1;
    }
    None
}

} // verus!
