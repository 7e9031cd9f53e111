//! An association list of string pairs with unique keys, viewed as a
//! `Map<Seq<char>, Seq<char>>`. It is the in-memory form of the registry's
//! `routes` and `login_groups` tables.

use vstd::prelude::*;
use crate::strutil::str_eq;

verus! {

/// Keys of the list are pairwise distinct.
pub open spec fn keys_unique(s: Seq<(String, String)>) -> bool {
    forall|i: int, j: int| 0 <= i < j < s.len() ==> s[i].0@ != s[j].0@
}

/// The finite map an association list denotes (later entries win).
pub open spec fn kv_map(s: Seq<(String, String)>) -> Map<Seq<char>, Seq<char>>
    decreases s.len(),
{
    if s.len() == 0 {
        Map::empty()
    } else {
        kv_map(s.drop_last()).insert(s.last().0@, s.last().1@)
    }
}

/// A key is in the map exactly when some entry carries it.
pub proof fn lemma_kv_map_contains(s: Seq<(String, String)>)
    ensures
        forall|k: Seq<char>| #[trigger] kv_map(s).contains_key(k) <==> (exists|i: int|
            0 <= i < s.len() && s[i].0@ == k),
    decreases s.len(),
{
    if s.len() == 0 {
    } else {
        lemma_kv_map_contains(s.drop_last());
        assert forall|k: Seq<char>| #[trigger] kv_map(s).contains_key(k) implies (exists|i: int|
            0 <= i < s.len() && s[i].0@ == k) by {
            if k == s.last().0@ {
                assert(s[s.len() - 1].0@ == k);
            } else {
                assert(kv_map(s.drop_last()).contains_key(k));
                let i = choose|i: int| 0 <= i < s.drop_last().len() && s.drop_last()[i].0@ == k;
                assert(s[i].0@ == k);
            }
        }
        assert forall|k: Seq<char>| (exists|i: int| 0 <= i < s.len() && s[i].0@ == k)
            implies #[trigger] kv_map(s).contains_key(k) by {
            let i = choose|i: int| 0 <= i < s.len() && s[i].0@ == k;
            if i == s.len() - 1 {
                assert(s.last().0@ == k);
                assert(kv_map(s).contains_key(s.last().0@));
            } else {
                assert(s.drop_last()[i].0@ == k);
                assert(kv_map(s.drop_last()).contains_key(k));
            }
        }
    }
}

/// With unique keys, each entry's value is the map's value at its key.
pub proof fn lemma_kv_map_index(s: Seq<(String, String)>, i: int)
    requires
        keys_unique(s),
        0 <= i < s.len(),
    ensures
        kv_map(s).contains_key(s[i].0@),
        kv_map(s)[s[i].0@] == s[i].1@,
    decreases s.len(),
{
    if i == s.len() - 1 {
    } else {
        assert(keys_unique(s.drop_last()));
        lemma_kv_map_index(s.drop_last(), i);
        assert(s[i].0@ != s.last().0@);
    }
}

/// Index of the entry holding key `k`, or the list's length if absent.
pub fn tbl_find(s: &Vec<(String, String)>, k: &str) -> (r: usize)
    ensures
        r <= s@.len(),
        r < s@.len() ==> s@[r as int].0@ == k@,
        r == s@.len() ==> forall|i: int| 0 <= i < s@.len() ==> s@[i].0@ != k@,
        r == s@.len() <==> !kv_map(s@).contains_key(k@),
{
    let mut i: usize = 0;
    while i < s.len()
        invariant
            i <= s@.len(),
            forall|j: int| 0 <= j < i ==> s@[j].0@ != k@,
        decreases s@.len() - i,
    {
        if str_eq(s[i].0.as_str(), k) {
            proof {
                lemma_kv_map_contains(s@);
            }
            return i;
        }
        i += 1;
    }
    proof {
        lemma_kv_map_contains(s@);
    }
    i
}

/// True when the table holds key `k`.
pub fn tbl_contains(s: &Vec<(String, String)>, k: &str) -> (r: bool)
    ensures
        r == kv_map(s@).contains_key(k@),
{
    let i = tbl_find(s, k);
    i < s.len()
}

/// The value bound to `k`, if any.
pub fn tbl_get<'a>(s: &'a Vec<(String, String)>, k: &str) -> (r: Option<&'a String>)
    requires
        keys_unique(s@),
    ensures
        match r {
            Some(v) => kv_map(s@).contains_key(k@) && kv_map(s@)[k@] == v@,
            None => !kv_map(s@).contains_key(k@),
        },
{
    let i = tbl_find(s, k);
    if i < s.len() {
        proof {
            lemma_kv_map_index(s@, i as int);
        }
        Some(&s[i].1)
    } else {
        None
    }
}

/// Inserts or replaces the binding of `k`, keeping keys unique.
pub fn tbl_upsert(s: &mut Vec<(String, String)>, k: String, v: String)
    requires
        keys_unique(old(s)@),
    ensures
        keys_unique(final(s)@),
        kv_map(final(s)@) == kv_map(old(s)@).insert(k@, v@),
{
    let i = tbl_find(s, k.as_str());
    if i < s.len() {
        let ghost prev = s@;
        s.set(i, (k, v));
        proof {
            assert(keys_unique(s@));
            lemma_upsert_set(prev, s@, i as int);
        }
    } else {
        let ghost prev = s@;
        s.push((k, v));
        proof {
            assert(s@.drop_last() =~= prev);
            lemma_kv_map_contains(prev);
            assert(keys_unique(s@));
        }
    }
}

/// Replacing entry `i` by one with the same key re-points the map there.
proof fn lemma_upsert_set(a: Seq<(String, String)>, b: Seq<(String, String)>, i: int)
    requires
        keys_unique(a),
        a.len() == b.len(),
        0 <= i < a.len(),
        b[i].0@ == a[i].0@,
        forall|j: int| 0 <= j < a.len() && j != i ==> a[j] == b[j],
    ensures
        kv_map(b) == kv_map(a).insert(a[i].0@, b[i].1@),
    decreases a.len(),
{
    lemma_kv_map_contains(a);
    lemma_kv_map_contains(b);
    if i == a.len() - 1 {
        assert(a.drop_last() =~= b.drop_last());
        assert(kv_map(b) =~= kv_map(a).insert(a[i].0@, b[i].1@));
    } else {
        assert(keys_unique(a.drop_last()));
        lemma_upsert_set(a.drop_last(), b.drop_last(), i);
        assert(a.last().0@ == b.last().0@ && a.last().1@ == b.last().1@);
        assert(a[i].0@ != a.last().0@);
        assert(kv_map(b) =~= kv_map(a).insert(a[i].0@, b[i].1@));
    }
}

/// Removing entry `i` removes exactly its key from the map.
proof fn lemma_kv_map_remove(a: Seq<(String, String)>, i: int)
    requires
        keys_unique(a),
        0 <= i < a.len(),
    ensures
        kv_map(a.remove(i)) == kv_map(a).remove(a[i].0@),
        keys_unique(a.remove(i)),
    decreases a.len(),
{
    lemma_kv_map_contains(a);
    lemma_kv_map_contains(a.remove(i));
    assert(keys_unique(a.remove(i)));
    if i == a.len() - 1 {
        assert(a.remove(i) =~= a.drop_last());
        assert(!kv_map(a.drop_last()).contains_key(a[i].0@));
        assert(kv_map(a.remove(i)) =~= kv_map(a).remove(a[i].0@));
    } else {
        assert(keys_unique(a.drop_last()));
        lemma_kv_map_remove(a.drop_last(), i);
        assert(a.remove(i).drop_last() =~= a.drop_last().remove(i));
        assert(a.remove(i).last() == a.last());
        assert(a[i].0@ != a.last().0@);
        assert(kv_map(a.remove(i)) =~= kv_map(a).remove(a[i].0@));
    }
}

/// Deletes the binding of `k`, if present.
pub fn tbl_remove(s: &mut Vec<(String, String)>, k: &str)
    requires
        keys_unique(old(s)@),
    ensures
        keys_unique(final(s)@),
        kv_map(final(s)@) == kv_map(old(s)@).remove(k@),
{
    let i = tbl_find(s, k);
    if i < s.len() {
        let ghost prev = s@;
        s.remove(i);
        proof {
            lemma_kv_map_remove(prev, i as int);
        }
    } else {
        proof {
            lemma_kv_map_contains(s@);
            assert(kv_map(s@) =~= kv_map(s@).remove(k@));
        }
    }
}

/// Drops every entry whose value equals `v`; bindings to other values stay.
pub fn tbl_drop_value(s: &mut Vec<(String, String)>, v: &str)
    requires
        keys_unique(old(s)@),
    ensures
        keys_unique(final(s)@),
        forall|k: Seq<char>| #[trigger] kv_map(final(s)@).contains_key(k) <==> (kv_map(
            old(s)@,
        ).contains_key(k) && kv_map(old(s)@)[k] != v@),
        forall|k: Seq<char>| kv_map(final(s)@).contains_key(k) ==> kv_map(final(s)@)[k]
            == kv_map(old(s)@)[k],
{
    let mut i: usize = 0;
    proof {
        lemma_kv_map_contains(s@);
        assert forall|j: int| 0 <= j < s@.len() implies kv_map(s@).contains_key(s@[j].0@)
            && kv_map(s@)[s@[j].0@] == s@[j].1@ by {
            lemma_kv_map_index(s@, j);
        }
    }
    while i < s.len()
        invariant
            i <= s@.len(),
            keys_unique(s@),
            forall|j: int| 0 <= j < i ==> s@[j].1@ != v@,
            forall|k: Seq<char>| #[trigger] kv_map(s@).contains_key(k) <==> (kv_map(
                old(s)@,
            ).contains_key(k) && (kv_map(old(s)@)[k] != v@ || exists|j: int|
                i <= j < s@.len() && s@[j].0@ == k)),
            forall|k: Seq<char>| kv_map(s@).contains_key(k) ==> kv_map(s@)[k] == kv_map(
                old(s)@,
            )[k],
            forall|j: int| i <= j < s@.len() ==> kv_map(old(s)@).contains_key(s@[j].0@)
                && kv_map(old(s)@)[s@[j].0@] == s@[j].1@,
        decreases s@.len() - i,
    {
        if str_eq(s[i].1.as_str(), v) {
            let ghost prev = s@;
            s.remove(i);
            proof {
                lemma_kv_map_remove(prev, i as int);
                lemma_kv_map_contains(prev);
                lemma_kv_map_contains(s@);
                assert forall|j: int| i <= j < s@.len() implies kv_map(
                    old(s)@,
                ).contains_key(s@[j].0@) && kv_map(old(s)@)[s@[j].0@] == s@[j].1@ by {
                    assert(s@[j] == prev[j + 1]);
                }
            }
        } else {
            i += 1;
        }
    }
}

} // verus!
