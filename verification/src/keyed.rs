//! Lists of keyed entries that stand for maps from strings.

use vstd::prelude::*;

verus! {

/// A value kept under a string key.
///
/// A `Vec` of these, with `distinct_keys` as its invariant, is how this
/// library keeps a map from strings (the registry's hostnames, the in-memory
/// backend's records) in place of a `HashMap<String, _>`. vstd's
/// specifications of `HashMap` and `BTreeMap` carry a map view only for keys
/// whose hashing and ordering vstd specifies; with `String` keys their calls
/// verify but prove next to nothing (not even the length after one
/// `insert`). Here every lookup, insertion and removal is proved against
/// `entries_view`, and `distinct_keys` stands for the uniqueness of a map's
/// keys.
#[derive(Debug)]
pub struct Keyed<V> {
    pub key: String,
    pub value: V,
}

/// Entry `i` holds key `k`.
pub open spec fn has_key_at<V: View>(es: Seq<Keyed<V>>, i: int, k: Seq<char>) -> bool {
    0 <= i < es.len() && es[i].key@ == k
}

/// The map that a list of keyed entries stands for.
pub open spec fn entries_view<V: View>(es: Seq<Keyed<V>>) -> Map<Seq<char>, V::V> {
    Map::new(
        |k: Seq<char>| exists|i: int| #[trigger] has_key_at(es, i, k),
        |k: Seq<char>| es[choose|i: int| #[trigger] has_key_at(es, i, k)].value@,
    )
}

/// No two entries hold the same key.
pub open spec fn distinct_keys<V: View>(es: Seq<Keyed<V>>) -> bool {
    forall|i: int, j: int|
        0 <= i < es.len() && 0 <= j < es.len() && i != j ==> #[trigger] es[i].key@
            != #[trigger] es[j].key@
}

pub proof fn lemma_entries_lookup<V: View>(es: Seq<Keyed<V>>, i: int)
    requires
        distinct_keys(es),
        0 <= i < es.len(),
    ensures
        entries_view(es).contains_key(es[i].key@),
        entries_view(es)[es[i].key@] == es[i].value@,
{
    let k = es[i].key@;
    assert(has_key_at(es, i, k));
    let j = choose|j: int| #[trigger] has_key_at(es, j, k);
    assert(has_key_at(es, j, k));
    if j != i {
        assert(es[i].key@ != es[j].key@);
    }
}

pub proof fn lemma_entries_update<V: View>(es: Seq<Keyed<V>>, i: int, e: Keyed<V>)
    requires
        distinct_keys(es),
        0 <= i < es.len(),
        e.key@ == es[i].key@,
    ensures
        distinct_keys(es.update(i, e)),
        entries_view(es.update(i, e)) == entries_view(es).insert(e.key@, e.value@),
{
    let es2 = es.update(i, e);
    assert forall|a: int, b: int|
        0 <= a < es2.len() && 0 <= b < es2.len() && a != b implies #[trigger] es2[a].key@
        != #[trigger] es2[b].key@ by {
        if a == i {
            assert(es[i].key@ != es[b].key@);
        } else if b == i {
            assert(es[a].key@ != es[i].key@);
        } else {
            assert(es[a].key@ != es[b].key@);
        }
    }
    let m1 = entries_view(es2);
    let m2 = entries_view(es).insert(e.key@, e.value@);
    assert forall|k: Seq<char>| m1.contains_key(k) <==> m2.contains_key(k) by {
        if m1.contains_key(k) {
            let j = choose|j: int| #[trigger] has_key_at(es2, j, k);
            if j != i {
                assert(has_key_at(es, j, k));
            }
        }
        if m2.contains_key(k) && k != e.key@ {
            let j = choose|j: int| #[trigger] has_key_at(es, j, k);
            assert(has_key_at(es2, j, k));
        }
        if k == e.key@ {
            assert(has_key_at(es2, i, k));
        }
    }
    assert forall|k: Seq<char>| m1.contains_key(k) implies m1[k] == m2[k] by {
        let j = choose|j: int| #[trigger] has_key_at(es2, j, k);
        lemma_entries_lookup(es2, j);
        if j == i {
        } else {
            lemma_entries_lookup(es, j);
        }
    }
    assert(m1 =~= m2);
}

pub proof fn lemma_entries_push<V: View>(es: Seq<Keyed<V>>, e: Keyed<V>)
    requires
        distinct_keys(es),
        !entries_view(es).contains_key(e.key@),
    ensures
        distinct_keys(es.push(e)),
        entries_view(es.push(e)) == entries_view(es).insert(e.key@, e.value@),
{
    let es2 = es.push(e);
    let n = es.len() as int;
    assert forall|a: int, b: int|
        0 <= a < es2.len() && 0 <= b < es2.len() && a != b implies #[trigger] es2[a].key@
        != #[trigger] es2[b].key@ by {
        if a == n {
            assert(!has_key_at(es, b, e.key@));
        } else if b == n {
            assert(!has_key_at(es, a, e.key@));
        } else {
            assert(es[a].key@ != es[b].key@);
        }
    }
    let m1 = entries_view(es2);
    let m2 = entries_view(es).insert(e.key@, e.value@);
    assert forall|k: Seq<char>| m1.contains_key(k) <==> m2.contains_key(k) by {
        if m1.contains_key(k) {
            let j = choose|j: int| #[trigger] has_key_at(es2, j, k);
            if j != n {
                assert(has_key_at(es, j, k));
            }
        }
        if m2.contains_key(k) && k != e.key@ {
            let j = choose|j: int| #[trigger] has_key_at(es, j, k);
            assert(has_key_at(es2, j, k));
        }
        if k == e.key@ {
            assert(has_key_at(es2, n, k));
        }
    }
    assert forall|k: Seq<char>| m1.contains_key(k) implies m1[k] == m2[k] by {
        let j = choose|j: int| #[trigger] has_key_at(es2, j, k);
        lemma_entries_lookup(es2, j);
        if j != n {
            assert(es2[j] == es[j]);
            lemma_entries_lookup(es, j);
        }
    }
    assert(m1 =~= m2);
}

pub proof fn lemma_entries_remove<V: View>(es: Seq<Keyed<V>>, i: int)
    requires
        distinct_keys(es),
        0 <= i < es.len(),
    ensures
        distinct_keys(es.remove(i)),
        entries_view(es.remove(i)) == entries_view(es).remove(es[i].key@),
{
    let es2 = es.remove(i);
    let key = es[i].key@;
    assert forall|a: int| 0 <= a < es2.len() implies #[trigger] es2[a] == es[if a < i {
        a
    } else {
        a + 1
    }] by {}
    assert forall|a: int, b: int|
        0 <= a < es2.len() && 0 <= b < es2.len() && a != b implies #[trigger] es2[a].key@
        != #[trigger] es2[b].key@ by {
        let a1 = if a < i { a } else { a + 1 };
        let b1 = if b < i { b } else { b + 1 };
        assert(es2[a] == es[a1] && es2[b] == es[b1]);
        assert(es[a1].key@ != es[b1].key@);
    }
    let m1 = entries_view(es2);
    let m2 = entries_view(es).remove(key);
    assert forall|k: Seq<char>| m1.contains_key(k) <==> m2.contains_key(k) by {
        if m1.contains_key(k) {
            let j = choose|j: int| #[trigger] has_key_at(es2, j, k);
            let j1 = if j < i { j } else { j + 1 };
            assert(es2[j] == es[j1]);
            assert(has_key_at(es, j1, k));
            assert(j1 != i);
            assert(es[j1].key@ != es[i].key@);
        }
        if m2.contains_key(k) {
            let j = choose|j: int| #[trigger] has_key_at(es, j, k);
            assert(j != i);
            let j2 = if j < i { j } else { j - 1 };
            assert(es2[j2] == es[j]);
            assert(has_key_at(es2, j2, k));
        }
    }
    assert forall|k: Seq<char>| m1.contains_key(k) implies m1[k] == m2[k] by {
        let j = choose|j: int| #[trigger] has_key_at(es2, j, k);
        lemma_entries_lookup(es2, j);
        let j1 = if j < i { j } else { j + 1 };
        assert(es2[j] == es[j1]);
        lemma_entries_lookup(es, j1);
    }
    assert(m1 =~= m2);
}

} // verus!
