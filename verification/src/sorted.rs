//! Sorted string sets and sorted string-keyed multimaps kept in vectors, in the
//! order Rust gives strings (by UTF-8 bytes).
use vstd::prelude::*;

use crate::text::{
    compare_str, lemma_str_lt_asym, lemma_str_lt_total, lemma_str_lt_trans, no_dups,
    strictly_sorted, str_lt, views,
};

verus! {

broadcast use vstd::seq::Seq::group_seq_extra;

/// Strictly sorted sequences hold no duplicates.
pub proof fn lemma_sorted_no_dups(s: Seq<Seq<char>>)
    requires
        strictly_sorted(s),
    ensures
        no_dups(s),
{
    assert forall|i: int, j: int| 0 <= i < j < s.len() implies s[i] != s[j] by {
        assert(str_lt(s[i], s[j]));
        crate::text::lemma_str_lt_irreflexive(s[i]);
    }
}

/// Two strictly sorted sequences with the same elements are equal.
pub proof fn lemma_sorted_unique(a: Seq<Seq<char>>, b: Seq<Seq<char>>)
    requires
        strictly_sorted(a),
        strictly_sorted(b),
        a.to_set() == b.to_set(),
    ensures
        a == b,
    decreases a.len() + b.len(),
{
    if a.len() == 0 {
        if b.len() > 0 {
            assert(b.to_set().contains(b[0]));
        }
        assert(a =~= b);
    } else if b.len() == 0 {
        assert(a.to_set().contains(a[0]));
    } else {
        let x = a.last();
        let y = b.last();
        assert(a.to_set().contains(x));
        assert(b.to_set().contains(y));
        let ia = choose|i: int| 0 <= i < a.len() && a[i] == y;
        let ib = choose|i: int| 0 <= i < b.len() && b[i] == x;
        if x != y {
            lemma_str_lt_total(x, y);
            if str_lt(x, y) {
                if ia < a.len() - 1 {
                    assert(str_lt(a[ia], a[a.len() - 1]));
                    lemma_str_lt_asym(x, y);
                }
            } else {
                if ib < b.len() - 1 {
                    assert(str_lt(b[ib], b[b.len() - 1]));
                    lemma_str_lt_asym(x, y);
                }
            }
        }
        let a1 = a.drop_last();
        let b1 = b.drop_last();
        lemma_sorted_no_dups(a);
        lemma_sorted_no_dups(b);
        assert forall|z: Seq<char>| a1.to_set().contains(z) implies b1.to_set().contains(z) by {
            let k = choose|k: int| 0 <= k < a1.len() && a1[k] == z;
            assert(a.to_set().contains(z));
            let k2 = choose|k2: int| 0 <= k2 < b.len() && b[k2] == z;
            if k2 == b.len() - 1 {
                assert(a[k] == a[a.len() - 1]);
            }
            assert(b1[k2] == z);
        }
        assert forall|z: Seq<char>| b1.to_set().contains(z) implies a1.to_set().contains(z) by {
            let k = choose|k: int| 0 <= k < b1.len() && b1[k] == z;
            assert(b.to_set().contains(z));
            let k2 = choose|k2: int| 0 <= k2 < a.len() && a[k2] == z;
            if k2 == a.len() - 1 {
                assert(b[k] == b[b.len() - 1]);
            }
            assert(a1[k2] == z);
        }
        assert(a1.to_set() =~= b1.to_set());
        lemma_sorted_unique(a1, b1);
        assert(a =~= a1.push(x));
        assert(b =~= b1.push(y));
    }
}

/// The position where `s` belongs in the sorted `v`, and whether it is there.
fn sorted_position(v: &Vec<String>, s: &str) -> (r: (usize, bool))
    requires
        strictly_sorted(views(v@)),
    ensures
        r.0 <= v@.len(),
        r.1 ==> r.0 < v@.len() && v@[r.0 as int]@ == s@,
        !r.1 ==> forall|i: int| 0 <= i < r.0 ==> str_lt(#[trigger] v@[i]@, s@),
        !r.1 ==> forall|i: int| r.0 <= i < v@.len() ==> str_lt(s@, #[trigger] v@[i]@),
{
    let mut i: usize = 0;
    while i < v.len()
        invariant
            i <= v@.len(),
            strictly_sorted(views(v@)),
            forall|j: int| 0 <= j < i ==> str_lt(#[trigger] v@[j]@, s@),
        decreases v.len() - i,
    {
        let c = compare_str(v[i].as_str(), s);
        if c == 0 {
            return (i, true);
        }
        if c > 0 {
            assert forall|j: int| i <= j < v@.len() implies str_lt(s@, #[trigger] v@[j]@) by {
                if j > i {
                    assert(str_lt(views(v@)[i as int], views(v@)[j]));
                    lemma_str_lt_trans(s@, v@[i as int]@, v@[j]@);
                }
            }
            return (i, false);
        }
        i = i + 1;
    }
    (i, false)
}

/// Inserts `s` into the strictly sorted `v`, unless it is there already.
pub fn insert_sorted(v: &mut Vec<String>, s: &str)
    requires
        strictly_sorted(views(old(v)@)),
    ensures
        strictly_sorted(views(final(v)@)),
        views(final(v)@).to_set() == views(old(v)@).to_set().insert(s@),
{
    let (pos, found) = sorted_position(v, s);
    if found {
        assert(views(v@)[pos as int] == s@);
        assert(views(v@).to_set() =~= views(v@).to_set().insert(s@));
        return ;
    }
    let ghost before = v@;
    let owned = s.to_owned();
    v.insert(pos, owned);
    assert(views(v@) =~= views(before).insert(pos as int, s@));
    assert forall|i: int, j: int| 0 <= i < j < views(v@).len() implies str_lt(
        #[trigger] views(v@)[i],
        #[trigger] views(v@)[j],
    ) by {
        if j < pos {
            assert(str_lt(views(before)[i], views(before)[j]));
        } else if j == pos {
            assert(str_lt(before[i]@, s@));
        } else if i < pos {
            assert(str_lt(before[i]@, s@));
            assert(str_lt(s@, before[j - 1]@));
            lemma_str_lt_trans(before[i]@, s@, before[j - 1]@);
        } else if i == pos {
            assert(str_lt(s@, before[j - 1]@));
        } else {
            assert(str_lt(views(before)[i - 1], views(before)[j - 1]));
        }
    }
    proof {
        lemma_insert_to_set(views(before), pos as int, s@);
    }
    assert(views(v@).to_set() =~= views(before).to_set().insert(s@));
}

/// Inserting into a sequence inserts into its set of elements.
pub proof fn lemma_insert_to_set<A>(s: Seq<A>, i: int, x: A)
    requires
        0 <= i <= s.len(),
    ensures
        s.insert(i, x).to_set() == s.to_set().insert(x),
{
    let t = s.insert(i, x);
    assert forall|z: A| t.to_set().contains(z) implies s.to_set().insert(x).contains(z) by {
        let k = choose|k: int| 0 <= k < t.len() && t[k] == z;
        if k < i {
            assert(s[k] == z);
        } else if k > i {
            assert(s[k - 1] == z);
        }
    }
    assert forall|z: A| s.to_set().insert(x).contains(z) implies t.to_set().contains(z) by {
        if z == x {
            assert(t[i] == x);
        } else {
            let k = choose|k: int| 0 <= k < s.len() && s[k] == z;
            if k < i {
                assert(t[k] == z);
            } else {
                assert(t[k + 1] == z);
            }
        }
    }
    assert(t.to_set() =~= s.to_set().insert(x));
}

/// The keys of a list of string-keyed entries.
pub open spec fn keys_of<V>(v: Seq<(String, V)>) -> Seq<Seq<char>> {
    v.map_values(|e: (String, V)| e.0@)
}

/// A list of entries whose keys are strictly sorted and whose values are strictly
/// sorted string lists.
pub open spec fn sorted_multimap(v: Seq<(String, Vec<String>)>) -> bool {
    &&& strictly_sorted(keys_of(v))
    &&& forall|i: int| 0 <= i < v.len() ==> strictly_sorted(views(#[trigger] v[i].1@))
}

/// The map that a list of entries with distinct keys stands for.
pub open spec fn multimap_view(v: Seq<(String, Vec<String>)>) -> Map<Seq<char>, Set<Seq<char>>> {
    Map::new(
        |k: Seq<char>| keys_of(v).contains(k),
        |k: Seq<char>| views(v[choose|i: int| 0 <= i < v.len() && v[i].0@ == k].1@).to_set(),
    )
}

/// With distinct keys, the entry at `i` gives the value of its key.
pub proof fn lemma_multimap_index(v: Seq<(String, Vec<String>)>, i: int)
    requires
        0 <= i < v.len(),
        no_dups(keys_of(v)),
    ensures
        multimap_view(v).contains_key(v[i].0@),
        multimap_view(v)[v[i].0@] == views(v[i].1@).to_set(),
{
    assert(keys_of(v)[i] == v[i].0@);
    let j = choose|j: int| 0 <= j < v.len() && v[j].0@ == v[i].0@;
    assert(keys_of(v)[j] == v[j].0@);
}

/// Finds the entry of `key` in a sorted multimap.
pub fn multimap_find(v: &Vec<(String, Vec<String>)>, key: &str) -> (r: Option<usize>)
    ensures
        match r {
            Some(i) => i < v@.len() && v@[i as int].0@ == key@,
            None => !keys_of(v@).contains(key@),
        },
{
    let mut i: usize = 0;
    while i < v.len()
        invariant
            i <= v.len(),
            forall|j: int| 0 <= j < i ==> v@[j].0@ != key@,
        decreases v.len() - i,
    {
        if crate::text::str_eq(v[i].0.as_str(), key) {
            return Some(i);
        }
        i = i + 1;
    }
    assert forall|j: int| 0 <= j < keys_of(v@).len() implies keys_of(v@)[j] != key@ by {
        assert(keys_of(v@)[j] == v@[j].0@);
    }
    None
}

/// Adds `value` to the values of `key`.
pub fn multimap_add(v: &mut Vec<(String, Vec<String>)>, key: &str, value: &str)
    requires
        sorted_multimap(old(v)@),
    ensures
        sorted_multimap(final(v)@),
        multimap_view(final(v)@) == multimap_view(old(v)@).insert(
            key@,
            (if multimap_view(old(v)@).contains_key(key@) {
                multimap_view(old(v)@)[key@]
            } else {
                Set::empty()
            }).insert(value@),
        ),
{
    let ghost before = v@;
    proof {
        lemma_sorted_no_dups(keys_of(before));
    }
    let mut keys: Vec<String> = Vec::new();
    let mut k: usize = 0;
    while k < v.len()
        invariant
            k <= v.len(),
            v@ == before,
            views(keys@) == keys_of(before).take(k as int),
        decreases v.len() - k,
    {
        let ghost old_keys = keys@;
        let c = v[k].0.clone();
        keys.push(c);
        assert(views(keys@) =~= views(old_keys).push(c@));
        assert(views(keys@) =~= keys_of(before).take(k + 1));
        k = k + 1;
    }
    assert(views(keys@) =~= keys_of(before));
    let (pos, found) = sorted_position(&keys, key);
    if found {
        let mut vals = Vec::new();
        std::mem::swap(&mut vals, &mut v[pos].1);
        proof {
            assert(vals@ == before[pos as int].1@);
            assert(strictly_sorted(views(before[pos as int].1@)));
        }
        insert_sorted(&mut vals, value);
        let ghost k0 = before[pos as int].0;
        let entry_key = v[pos].0.clone();
        let e = (entry_key, vals);
        v.set(pos, e);
        assert(v@ == before.update(pos as int, e));
        assert(keys_of(v@) =~= keys_of(before));
        proof {
            assert(keys_of(before)[pos as int] == key@);
            lemma_multimap_index(before, pos as int);
            assert forall|kk: Seq<char>| #[trigger]
                multimap_view(v@).contains_key(kk) == multimap_view(before).insert(
                    key@,
                    multimap_view(before)[key@].insert(value@),
                ).contains_key(kk) by {}
            assert forall|kk: Seq<char>| multimap_view(v@).contains_key(kk) implies #[trigger]
                multimap_view(v@)[kk] == multimap_view(before).insert(
                    key@,
                    multimap_view(before)[key@].insert(value@),
                )[kk] by {
                let j = choose|j: int| 0 <= j < keys_of(v@).len() && keys_of(v@)[j] == kk;
                assert(v@[j].0@ == kk);
                lemma_multimap_index(v@, j);
                lemma_multimap_index(before, j);
            }
            assert(multimap_view(v@) =~= multimap_view(before).insert(
                key@,
                multimap_view(before)[key@].insert(value@),
            ));
        }
    } else {
        let mut vals: Vec<String> = Vec::new();
        proof {
            assert(views(vals@) =~= Seq::<Seq<char>>::empty());
        }
        insert_sorted(&mut vals, value);
        let e = (key.to_owned(), vals);
        v.insert(pos, e);
        assert(v@ == before.insert(pos as int, e));
        assert(keys_of(v@) =~= keys_of(before).insert(pos as int, key@));
        proof {
            assert(!keys_of(before).contains(key@)) by {
                if keys_of(before).contains(key@) {
                    let j = choose|j: int| 0 <= j < keys_of(before).len() && keys_of(before)[j] == key@;
                    assert(views(keys@)[j] == key@);
                    lemma_str_lt_irreflexive_at(key@);
                }
            }
            assert forall|i: int, j: int| 0 <= i < j < keys_of(v@).len() implies str_lt(
                #[trigger] keys_of(v@)[i],
                #[trigger] keys_of(v@)[j],
            ) by {
                if j < pos {
                    assert(str_lt(keys_of(before)[i], keys_of(before)[j]));
                } else if j == pos {
                    assert(str_lt(keys@[i]@, key@));
                } else if i < pos {
                    assert(str_lt(keys@[i]@, key@));
                    assert(str_lt(key@, keys@[j - 1]@));
                    lemma_str_lt_trans(keys@[i]@, key@, keys@[j - 1]@);
                } else if i == pos {
                    assert(str_lt(key@, keys@[j - 1]@));
                } else {
                    assert(str_lt(keys_of(before)[i - 1], keys_of(before)[j - 1]));
                }
            }
            assert forall|i: int| 0 <= i < v@.len() implies strictly_sorted(
                views(#[trigger] v@[i].1@),
            ) by {
                if i > pos {
                    assert(v@[i] == before[i - 1]);
                } else if i < pos {
                    assert(v@[i] == before[i]);
                }
            }
            lemma_sorted_no_dups(keys_of(v@));
            assert(views(vals@).to_set() =~= Set::<Seq<char>>::empty().insert(value@));
            lemma_insert_to_set(keys_of(before), pos as int, key@);
            assert(keys_of(v@).to_set() == keys_of(before).to_set().insert(key@));
            assert forall|kk: Seq<char>| #[trigger]
                multimap_view(v@).contains_key(kk) == multimap_view(before).insert(
                    key@,
                    Set::<Seq<char>>::empty().insert(value@),
                ).contains_key(kk) by {
                assert(keys_of(v@).contains(kk) == keys_of(v@).to_set().contains(kk));
                assert(keys_of(before).contains(kk) == keys_of(before).to_set().contains(kk));
            }
            assert forall|kk: Seq<char>| multimap_view(v@).contains_key(kk) implies #[trigger]
                multimap_view(v@)[kk] == multimap_view(before).insert(
                    key@,
                    Set::<Seq<char>>::empty().insert(value@),
                )[kk] by {
                let j = choose|j: int| 0 <= j < keys_of(v@).len() && keys_of(v@)[j] == kk;
                assert(v@[j].0@ == kk);
                lemma_multimap_index(v@, j);
                if j < pos {
                    lemma_multimap_index(before, j);
                } else if j > pos {
                    lemma_multimap_index(before, j - 1);
                }
            }
            assert(multimap_view(v@) =~= multimap_view(before).insert(
                key@,
                Set::<Seq<char>>::empty().insert(value@),
            ));
        }
    }
}

proof fn lemma_str_lt_irreflexive_at(a: Seq<char>)
    ensures
        !str_lt(a, a),
{
    crate::text::lemma_str_lt_irreflexive(a);
}

} // verus!
