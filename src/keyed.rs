//! Sequences of records with distinct text keys, read as maps.
use vstd::prelude::*;

verus! {

/// The map from each record's key to its value; a later record overrides an
/// earlier one with the same key.
pub open spec fn entries<T, V>(s: Seq<T>, key: spec_fn(T) -> Seq<char>, val: spec_fn(T) -> V) -> Map<Seq<char>, V>
    decreases s.len(),
{
    if s.len() == 0 {
        Map::empty()
    } else {
        entries(s.drop_last(), key, val).insert(key(s.last()), val(s.last()))
    }
}

pub open spec fn distinct_keys<T>(s: Seq<T>, key: spec_fn(T) -> Seq<char>) -> bool {
    forall|i: int, j: int| 0 <= i < j < s.len() ==> key(#[trigger] s[i]) != key(#[trigger] s[j])
}

/// A key occurs in the map exactly when some record has it.
pub proof fn lemma_entries_domain<T, V>(s: Seq<T>, key: spec_fn(T) -> Seq<char>, val: spec_fn(T) -> V, a: Seq<char>)
    ensures
        entries(s, key, val).contains_key(a) <==> exists|i: int| 0 <= i < s.len() && key(#[trigger] s[i]) == a,
    decreases s.len(),
{
    if s.len() > 0 {
        let p = s.drop_last();
        lemma_entries_domain(p, key, val, a);
        if entries(p, key, val).contains_key(a) {
            let i = choose|i: int| 0 <= i < p.len() && key(#[trigger] p[i]) == a;
            assert(s[i] == p[i]);
        }
        if exists|i: int| 0 <= i < s.len() && key(#[trigger] s[i]) == a {
            let i = choose|i: int| 0 <= i < s.len() && key(#[trigger] s[i]) == a;
            if i < s.len() - 1 {
                assert(p[i] == s[i]);
            }
        }
    }
}

/// With distinct keys, the map gives each record's value under its key.
pub proof fn lemma_entries_index<T, V>(s: Seq<T>, key: spec_fn(T) -> Seq<char>, val: spec_fn(T) -> V, i: int)
    requires
        distinct_keys(s, key),
        0 <= i < s.len(),
    ensures
        entries(s, key, val).contains_key(key(s[i])),
        entries(s, key, val)[key(s[i])] == val(s[i]),
    decreases s.len(),
{
    let p = s.drop_last();
    if i < s.len() - 1 {
        assert(p[i] == s[i]);
        assert(distinct_keys(p, key)) by {
            assert forall|a: int, b: int| 0 <= a < b < p.len() implies key(#[trigger] p[a]) != key(#[trigger] p[b]) by {
                assert(p[a] == s[a] && p[b] == s[b]);
            }
        }
        lemma_entries_index(p, key, val, i);
        assert(key(s[i]) != key(s.last()));
    }
}

/// Replacing a record by one with the same key replaces its value.
pub proof fn lemma_entries_update<T, V>(s: Seq<T>, key: spec_fn(T) -> Seq<char>, val: spec_fn(T) -> V, i: int, x: T)
    requires
        distinct_keys(s, key),
        0 <= i < s.len(),
        key(x) == key(s[i]),
    ensures
        distinct_keys(s.update(i, x), key),
        entries(s.update(i, x), key, val) == entries(s, key, val).insert(key(x), val(x)),
    decreases s.len(),
{
    let t = s.update(i, x);
    assert(distinct_keys(t, key)) by {
        assert forall|a: int, b: int| 0 <= a < b < t.len() implies key(#[trigger] t[a]) != key(#[trigger] t[b]) by {
            assert(key(t[a]) == key(s[a]) && key(t[b]) == key(s[b]));
        }
    }
    let p = s.drop_last();
    assert(distinct_keys(p, key)) by {
        assert forall|a: int, b: int| 0 <= a < b < p.len() implies key(#[trigger] p[a]) != key(#[trigger] p[b]) by {
            assert(p[a] == s[a] && p[b] == s[b]);
        }
    }
    if i == s.len() - 1 {
        assert(t.drop_last() =~= p);
        assert forall|j: int| 0 <= j < p.len() implies key(#[trigger] p[j]) != key(x) by {
            assert(p[j] == s[j]);
        }
        lemma_entries_domain(p, key, val, key(x));
        assert(entries(t, key, val) =~= entries(s, key, val).insert(key(x), val(x)));
    } else {
        assert(t.drop_last() =~= p.update(i, x));
        assert(p[i] == s[i]);
        lemma_entries_update(p, key, val, i, x);
        assert(key(s.last()) != key(x));
        assert(t.last() == s.last());
        assert(entries(t, key, val) =~= entries(s, key, val).insert(key(x), val(x)));
    }
}

/// Dropping a record removes its key.
pub proof fn lemma_entries_remove<T, V>(s: Seq<T>, key: spec_fn(T) -> Seq<char>, val: spec_fn(T) -> V, i: int)
    requires
        distinct_keys(s, key),
        0 <= i < s.len(),
    ensures
        distinct_keys(s.remove(i), key),
        entries(s.remove(i), key, val) == entries(s, key, val).remove(key(s[i])),
    decreases s.len(),
{
    let t = s.remove(i);
    assert(distinct_keys(t, key)) by {
        assert forall|a: int, b: int| 0 <= a < b < t.len() implies key(#[trigger] t[a]) != key(#[trigger] t[b]) by {
            let a2 = if a < i { a } else { a + 1 };
            let b2 = if b < i { b } else { b + 1 };
            assert(t[a] == s[a2] && t[b] == s[b2]);
        }
    }
    let p = s.drop_last();
    assert(distinct_keys(p, key)) by {
        assert forall|a: int, b: int| 0 <= a < b < p.len() implies key(#[trigger] p[a]) != key(#[trigger] p[b]) by {
            assert(p[a] == s[a] && p[b] == s[b]);
        }
    }
    if i == s.len() - 1 {
        assert(t =~= p);
        assert forall|j: int| 0 <= j < p.len() implies key(#[trigger] p[j]) != key(s[i]) by {
            assert(p[j] == s[j]);
        }
        lemma_entries_domain(p, key, val, key(s[i]));
        assert(entries(t, key, val) =~= entries(s, key, val).remove(key(s[i])));
    } else {
        assert(t.drop_last() =~= p.remove(i));
        assert(t.last() == s.last());
        assert(p[i] == s[i]);
        lemma_entries_remove(p, key, val, i);
        assert(key(s.last()) != key(s[i]));
        assert(entries(t, key, val) =~= entries(s, key, val).remove(key(s[i])));
    }
}

/// Appending a record with a new key keeps the keys distinct.
pub proof fn lemma_push_distinct<T>(s: Seq<T>, key: spec_fn(T) -> Seq<char>, x: T)
    requires
        distinct_keys(s, key),
        forall|j: int| 0 <= j < s.len() ==> key(#[trigger] s[j]) != key(x),
    ensures
        distinct_keys(s.push(x), key),
{
    let t = s.push(x);
    assert forall|a: int, b: int| 0 <= a < b < t.len() implies key(#[trigger] t[a]) != key(#[trigger] t[b]) by {
        assert(t[a] == s[a]);
        if b < s.len() {
            assert(t[b] == s[b]);
        }
    }
}

} // verus!
