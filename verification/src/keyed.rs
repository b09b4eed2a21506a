//! Vectors of keyed entries, strictly sorted by key, that stand for maps from
//! keys to entries.
use vstd::prelude::*;

use crate::text::{compare_str, lemma_str_lt_trans, str_eq, str_lt};

verus! {

broadcast use vstd::seq::Seq::group_seq_extra;

/// An entry that carries its own string key.
pub trait Keyed {
    spec fn key(&self) -> Seq<char>;

    fn key_str(&self) -> (r: &str)
        ensures
            r@ == self.key(),
    ;
}

/// The keys of the entries.
pub open spec fn keys<T: Keyed>(v: Seq<T>) -> Seq<Seq<char>> {
    v.map_values(|c: T| c.key())
}

/// The entries by key.
pub open spec fn keyed_map<T: Keyed>(v: Seq<T>) -> Map<Seq<char>, T> {
    Map::new(
        |n: Seq<char>| keys(v).contains(n),
        |n: Seq<char>| v[choose|i: int| 0 <= i < v.len() && (#[trigger] v[i]).key() == n],
    )
}

/// The index of the entry with key `k`, if any.
pub fn find_key<T: Keyed>(v: &Vec<T>, k: &str) -> (r: Option<usize>)
    ensures
        match r {
            Some(i) => i < v@.len() && v@[i as int].key() == k@,
            None => !keys(v@).contains(k@),
        },
{
    let mut i: usize = 0;
    while i < v.len()
        invariant
            i <= v.len(),
            forall|j: int| 0 <= j < i ==> (#[trigger] v@[j]).key() != k@,
        decreases v.len() - i,
    {
        if str_eq(v[i].key_str(), k) {
            return Some(i);
        }
        i = i + 1;
    }
    assert forall|j: int| 0 <= j < keys(v@).len() implies keys(v@)[j] != k@ by {
        assert(keys(v@)[j] == v@[j].key());
    }
    None
}

pub proof fn lemma_keyed_at<T: Keyed>(v: Seq<T>, i: int)
    requires
        crate::text::strictly_sorted(keys(v)),
        0 <= i < v.len(),
    ensures
        keyed_map(v).dom().contains(v[i].key()),
        keyed_map(v)[v[i].key()] == v[i],
{
    assert(keys(v)[i] == v[i].key());
    let k = choose|k: int| 0 <= k < v.len() && (#[trigger] v[k]).key() == v[i].key();
    assert(keys(v)[k] == v[k].key());
    crate::sorted::lemma_sorted_no_dups(keys(v));
}

/// Puts `c` into `v`, sorted by key, in place of an entry with the same key.
pub fn put_keyed<T: Keyed>(v: &mut Vec<T>, c: T)
    requires
        crate::text::strictly_sorted(keys(old(v)@)),
    ensures
        crate::text::strictly_sorted(keys(final(v)@)),
        keyed_map(final(v)@) == keyed_map(old(v)@).insert(c.key(), c),
{
    let ghost before = v@;
    let ghost key = c.key();
    let mut i: usize = 0;
    while i < v.len()
        invariant
            i <= v.len(),
            v@ == before,
            key == c.key(),
            crate::text::strictly_sorted(keys(before)),
            forall|j: int| 0 <= j < i ==> str_lt(#[trigger] before[j].key(), key),
        ensures
            i <= v.len(),
            v@ == before,
            forall|j: int| 0 <= j < i ==> str_lt(#[trigger] before[j].key(), key),
            i < v.len() ==> !str_lt(before[i as int].key(), key),
        decreases v.len() - i,
    {
        let c_order = compare_str(v[i].key_str(), c.key_str());
        if c_order >= 0 {
            break;
        }
        i = i + 1;
    }
    let same = i < v.len() && str_eq(v[i].key_str(), c.key_str());
    if same {
        v.set(i, c);
        proof {
            let after = v@;
            assert(keys(after) =~= keys(before));
            assert(keyed_map(after) =~= keyed_map(before).insert(key, c)) by {
                assert forall|n: Seq<char>| #[trigger] keyed_map(after).dom().contains(n)
                    == keyed_map(before).insert(key, c).dom().contains(n) by {
                    if n == key {
                        assert(keys(before)[i as int] == key);
                    }
                }
                assert forall|n: Seq<char>| #[trigger] keyed_map(after).dom().contains(n) implies keyed_map(
                    after,
                )[n] == keyed_map(before).insert(key, c)[n] by {
                    let k = choose|k: int| 0 <= k < keys(after).len() && keys(after)[k] == n;
                    assert(after[k].key() == n);
                    lemma_keyed_at(after, k);
                    if k != i {
                        assert(after[k] == before[k]);
                        lemma_keyed_at(before, k);
                    }
                }
            }
        }
    } else {
        proof {
            assert forall|j: int| i <= j < before.len() implies str_lt(key, #[trigger] before[j].key()) by {
                assert(keys(before)[i as int] == before[i as int].key());
                assert(before[i as int].key() != key);
                crate::text::lemma_str_lt_total(key, before[i as int].key());
                if j > i {
                    assert(keys(before)[j] == before[j].key());
                    lemma_str_lt_trans(key, before[i as int].key(), before[j].key());
                }
            }
        }
        v.insert(i, c);
        proof {
            let after = v@;
            let b = keys(before);
            let a = keys(after);
            assert(a =~= b.insert(i as int, key));
            assert forall|x: int, y: int| 0 <= x < y < a.len() implies str_lt(#[trigger] a[x], #[trigger] a[y]) by {
                if y < i {
                    assert(str_lt(b[x], b[y]));
                } else if y == i {
                    assert(a[x] == before[x].key());
                } else if x < i {
                    assert(a[x] == before[x].key() && a[y] == before[y - 1].key());
                    lemma_str_lt_trans(a[x], key, a[y]);
                } else if x == i {
                    assert(a[y] == before[y - 1].key());
                } else {
                    assert(str_lt(b[x - 1], b[y - 1]));
                }
            }
            assert(keyed_map(after) =~= keyed_map(before).insert(key, c)) by {
                assert forall|n: Seq<char>| #[trigger] keyed_map(after).dom().contains(n)
                    == keyed_map(before).insert(key, c).dom().contains(n) by {
                    if a.contains(n) {
                        let k = choose|k: int| 0 <= k < a.len() && a[k] == n;
                        if k < i {
                            assert(b[k] == n);
                        } else if k > i {
                            assert(b[k - 1] == n);
                        }
                    }
                    if b.contains(n) {
                        let k = choose|k: int| 0 <= k < b.len() && b[k] == n;
                        if k < i {
                            assert(a[k] == n);
                        } else {
                            assert(a[k + 1] == n);
                        }
                    }
                    if n == key {
                        assert(a[i as int] == n);
                    }
                }
                assert forall|n: Seq<char>| #[trigger] keyed_map(after).dom().contains(n) implies keyed_map(
                    after,
                )[n] == keyed_map(before).insert(key, c)[n] by {
                    let k = choose|k: int| 0 <= k < a.len() && a[k] == n;
                    assert(after[k].key() == n);
                    lemma_keyed_at(after, k);
                    if k < i {
                        assert(after[k] == before[k]);
                        lemma_keyed_at(before, k);
                    } else if k > i {
                        assert(after[k] == before[k - 1]);
                        lemma_keyed_at(before, k - 1);
                    }
                }
            }
        }
    }
}

} // verus!
