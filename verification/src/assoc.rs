//! Association sequences viewed as finite maps.
//!
//! The ledger stores its accounts and its escrow records as vectors of
//! key-value pairs whose keys are kept distinct. Contracts speak of the
//! `Map` such a sequence denotes; the lemmas here relate the executable
//! operations (push, update in place, remove by position) to `insert`
//! and `remove` on that map.

use vstd::prelude::*;

verus! {

/// The finite map an association sequence denotes; a later entry for a
/// key shadows an earlier one.
pub open spec fn map_of<K, V>(s: Seq<(K, V)>) -> Map<K, V>
    decreases s.len(),
{
    if s.len() == 0 {
        Map::empty()
    } else {
        map_of(s.drop_last()).insert(s.last().0, s.last().1)
    }
}

/// No key occurs at two positions of the sequence.
pub open spec fn keys_distinct<K, V>(s: Seq<(K, V)>) -> bool {
    forall|i: int, j: int| 0 <= i < j < s.len() ==> s[i].0 != s[j].0
}

/// A key is in the denoted map exactly when some entry carries it.
pub proof fn lemma_map_of_domain<K, V>(s: Seq<(K, V)>)
    ensures
        forall|k: K|
            #[trigger] map_of(s).contains_key(k) <==> exists|i: int|
                0 <= i < s.len() && s[i].0 == k,
    decreases s.len(),
{
    if s.len() > 0 {
        lemma_map_of_domain(s.drop_last());
        assert forall|k: K| #[trigger] map_of(s).contains_key(k) implies exists|i: int|
            0 <= i < s.len() && s[i].0 == k by {
            if k == s.last().0 {
                assert(s[s.len() - 1].0 == k);
            } else {
                assert(map_of(s) == map_of(s.drop_last()).insert(s.last().0, s.last().1));
                assert(map_of(s.drop_last()).contains_key(k));
                let i = choose|i: int| 0 <= i < s.drop_last().len() && s.drop_last()[i].0 == k;
                assert(s.drop_last()[i] == s[i]);
                assert(s[i].0 == k);
            }
        }
        assert forall|k: K| (exists|i: int| 0 <= i < s.len() && s[i].0 == k) implies #[trigger] map_of(
            s,
        ).contains_key(k) by {
            let i = choose|i: int| 0 <= i < s.len() && s[i].0 == k;
            assert(map_of(s) == map_of(s.drop_last()).insert(s.last().0, s.last().1));
            if i < s.len() - 1 {
                assert(s.drop_last()[i].0 == k);
                assert(map_of(s.drop_last()).contains_key(k));
            } else {
                assert(k == s.last().0);
            }
        }
    }
}

/// With distinct keys, the entry at a position gives the map's value at
/// that entry's key.
pub proof fn lemma_map_of_index<K, V>(s: Seq<(K, V)>, i: int)
    requires
        keys_distinct(s),
        0 <= i < s.len(),
    ensures
        map_of(s).contains_key(s[i].0),
        map_of(s)[s[i].0] == s[i].1,
    decreases s.len(),
{
    lemma_map_of_domain(s);
    if i < s.len() - 1 {
        assert(keys_distinct(s.drop_last())) by {
            assert forall|p: int, q: int| 0 <= p < q < s.drop_last().len() implies s.drop_last()[p].0
                != s.drop_last()[q].0 by {
                assert(s.drop_last()[p] == s[p]);
                assert(s.drop_last()[q] == s[q]);
            }
        }
        assert(s.drop_last()[i] == s[i]);
        lemma_map_of_index(s.drop_last(), i);
        assert(s[i].0 != s.last().0);
    }
}

/// Appending a fresh entry inserts its key.
pub proof fn lemma_map_of_push<K, V>(s: Seq<(K, V)>, k: K, v: V)
    ensures
        map_of(s.push((k, v))) == map_of(s).insert(k, v),
{
    assert(s.push((k, v)).drop_last() =~= s);
    assert(s.push((k, v)).last() == (k, v));
}

/// Overwriting the value at a position updates the map at that key.
pub proof fn lemma_map_of_update<K, V>(s: Seq<(K, V)>, i: int, v: V)
    requires
        keys_distinct(s),
        0 <= i < s.len(),
    ensures
        map_of(s.update(i, (s[i].0, v))) == map_of(s).insert(s[i].0, v),
        keys_distinct(s.update(i, (s[i].0, v))),
    decreases s.len(),
{
    let k = s[i].0;
    let s2 = s.update(i, (k, v));
    assert(forall|j: int| 0 <= j < s.len() ==> s2[j].0 == s[j].0);
    assert(keys_distinct(s2));
    lemma_map_of_domain(s);
    lemma_map_of_domain(s2);
    let m1 = map_of(s2);
    let m2 = map_of(s).insert(k, v);
    assert forall|x: K| #[trigger] m1.contains_key(x) implies m2.contains_key(x) by {
        let j = choose|j: int| 0 <= j < s2.len() && s2[j].0 == x;
        assert(s[j].0 == x);
    }
    assert forall|x: K| #[trigger] m2.contains_key(x) implies m1.contains_key(x) by {
        if x == k {
            assert(s2[i].0 == x);
        } else {
            let j = choose|j: int| 0 <= j < s.len() && s[j].0 == x;
            assert(s2[j].0 == x);
        }
    }
    assert forall|x: K| #[trigger] m1.contains_key(x) implies m1[x] == m2[x] by {
        let j = choose|j: int| 0 <= j < s2.len() && s2[j].0 == x;
        lemma_map_of_index(s2, j);
        if x == k {
            assert(j == i);
            assert(m1[x] == v);
        } else {
            assert(j != i);
            assert(s[j].0 == x);
            lemma_map_of_index(s, j);
            assert(s2[j].1 == s[j].1);
        }
    }
    assert(m1 =~= m2);
}

/// Removing the entry at a position removes its key from the map.
pub proof fn lemma_map_of_remove<K, V>(s: Seq<(K, V)>, i: int)
    requires
        keys_distinct(s),
        0 <= i < s.len(),
    ensures
        map_of(s.remove(i)) == map_of(s).remove(s[i].0),
        keys_distinct(s.remove(i)),
{
    let k = s[i].0;
    let s2 = s.remove(i);
    assert(forall|j: int| 0 <= j < i ==> s2[j] == s[j]);
    assert(forall|j: int| i <= j < s2.len() ==> s2[j] == s[j + 1]);
    assert(keys_distinct(s2)) by {
        assert forall|p: int, q: int| 0 <= p < q < s2.len() implies s2[p].0 != s2[q].0 by {
            let p0: int = if p < i {
                p
            } else {
                p + 1
            };
            let q0: int = if q < i {
                q
            } else {
                q + 1
            };
            assert(s2[p] == s[p0]);
            assert(s2[q] == s[q0]);
        }
    }
    lemma_map_of_domain(s);
    lemma_map_of_domain(s2);
    let m1 = map_of(s2);
    let m2 = map_of(s).remove(k);
    assert forall|x: K| #[trigger] m1.contains_key(x) implies m2.contains_key(x) by {
        let j = choose|j: int| 0 <= j < s2.len() && s2[j].0 == x;
        let j0: int = if j < i {
            j
        } else {
            j + 1
        };
        assert(s[j0].0 == x);
        assert(j0 != i);
        assert(x != k);
    }
    assert forall|x: K| #[trigger] m2.contains_key(x) implies m1.contains_key(x) by {
        let j = choose|j: int| 0 <= j < s.len() && s[j].0 == x;
        assert(j != i);
        let j2: int = if j < i {
            j
        } else {
            j - 1
        };
        assert(s2[j2].0 == x);
    }
    assert forall|x: K| #[trigger] m1.contains_key(x) implies m1[x] == m2[x] by {
        let j = choose|j: int| 0 <= j < s2.len() && s2[j].0 == x;
        lemma_map_of_index(s2, j);
        let j0: int = if j < i {
            j
        } else {
            j + 1
        };
        assert(s[j0].0 == x);
        lemma_map_of_index(s, j0);
        assert(s2[j].1 == s[j0].1);
    }
    assert(m1 =~= m2);
}

} // verus!
