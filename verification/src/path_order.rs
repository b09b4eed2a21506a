//! The order and equality of paths as `Utf8PathBuf` has them: component by
//! component, a component first by its kind (prefix, root, `.`, `..`, name)
//! and then by its text; and sets of paths kept sorted in that order.
use vstd::prelude::*;

use crate::paths::{component_parts_of, part_views, path_component_parts};
use crate::text::{compare_str, lemma_str_lt_asym, lemma_str_lt_irreflexive, lemma_str_lt_total, lemma_str_lt_trans, str_lt, views};

verus! {

/// One component before another: by kind, then by text.
pub open spec fn part_lt(a: (u8, Seq<char>), b: (u8, Seq<char>)) -> bool {
    a.0 < b.0 || (a.0 == b.0 && str_lt(a.1, b.1))
}

/// Components in lexicographic order: at the first component that differs,
/// by [`part_lt`]; a proper prefix comes first.
pub open spec fn parts_lt(a: Seq<(u8, Seq<char>)>, b: Seq<(u8, Seq<char>)>) -> bool
    decreases a.len(),
{
    if a.len() == 0 {
        b.len() > 0
    } else if b.len() == 0 {
        false
    } else if a[0] == b[0] {
        parts_lt(a.drop_first(), b.drop_first())
    } else {
        part_lt(a[0], b[0])
    }
}

/// What two paths are compared by: their components with their kinds.
pub open spec fn path_key(p: Seq<char>) -> Seq<(u8, Seq<char>)> {
    component_parts_of(p)
}

/// Path `a` comes before path `b`.
pub open spec fn path_lt(a: Seq<char>, b: Seq<char>) -> bool {
    parts_lt(path_key(a), path_key(b))
}

/// The paths are strictly increasing in path order, so no two are the same path.
pub open spec fn path_sorted(s: Seq<Seq<char>>) -> bool {
    forall|i: int, j: int| 0 <= i < j < s.len() ==> path_lt(#[trigger] s[i], #[trigger] s[j])
}

/// `p` is the first of `inputs` that is the same path as itself.
pub open spec fn first_of_key(inputs: Seq<Seq<char>>, p: Seq<char>) -> bool {
    exists|k: int|
        0 <= k < inputs.len() && inputs[k] == p && #[trigger] no_key_before(inputs, k, path_key(p))
}

/// None of the first `k` inputs has the key `key`.
pub open spec fn no_key_before(inputs: Seq<Seq<char>>, k: int, key: Seq<(u8, Seq<char>)>) -> bool {
    forall|j: int| 0 <= j < k ==> path_key(#[trigger] inputs[j]) != key
}

/// Some path of `r` is the same path as `p`.
pub open spec fn has_key(r: Seq<Seq<char>>, key: Seq<(u8, Seq<char>)>) -> bool {
    exists|i: int| 0 <= i < r.len() && path_key(#[trigger] r[i]) == key
}

/// `r` holds the distinct paths of `inputs` in path order, each as the first
/// input that is that path (as sorting the inputs stably and dropping
/// repeated paths, or inserting them in turn into a `BTreeSet`, gives).
pub open spec fn sorted_unique_paths(inputs: Seq<Seq<char>>, r: Seq<Seq<char>>) -> bool {
    &&& path_sorted(r)
    &&& forall|i: int| 0 <= i < r.len() ==> #[trigger] first_of_key(inputs, r[i])
    &&& forall|k: int| 0 <= k < inputs.len() ==> #[trigger] has_key(r, path_key(inputs[k]))
}

proof fn lemma_part_lt(a: (u8, Seq<char>), b: (u8, Seq<char>), c: (u8, Seq<char>))
    ensures
        !part_lt(a, a),
        part_lt(a, b) ==> !part_lt(b, a),
        part_lt(a, b) && part_lt(b, c) ==> part_lt(a, c),
        a == b || part_lt(a, b) || part_lt(b, a),
{
    lemma_str_lt_irreflexive(a.1);
    lemma_str_lt_asym(a.1, b.1);
    lemma_str_lt_total(a.1, b.1);
    if str_lt(a.1, b.1) && str_lt(b.1, c.1) {
        lemma_str_lt_trans(a.1, b.1, c.1);
    }
}

proof fn lemma_parts_lt_irreflexive(a: Seq<(u8, Seq<char>)>)
    ensures
        !parts_lt(a, a),
    decreases a.len(),
{
    if a.len() > 0 {
        lemma_parts_lt_irreflexive(a.drop_first());
    }
}

proof fn lemma_parts_lt_asym(a: Seq<(u8, Seq<char>)>, b: Seq<(u8, Seq<char>)>)
    ensures
        parts_lt(a, b) ==> !parts_lt(b, a),
    decreases a.len(),
{
    if a.len() > 0 && b.len() > 0 {
        lemma_part_lt(a[0], b[0], b[0]);
        if a[0] == b[0] {
            lemma_parts_lt_asym(a.drop_first(), b.drop_first());
        }
    }
}

proof fn lemma_parts_lt_trans(a: Seq<(u8, Seq<char>)>, b: Seq<(u8, Seq<char>)>, c: Seq<(u8, Seq<char>)>)
    requires
        parts_lt(a, b),
        parts_lt(b, c),
    ensures
        parts_lt(a, c),
    decreases a.len(),
{
    if a.len() > 0 {
        lemma_part_lt(a[0], b[0], c[0]);
        lemma_part_lt(b[0], a[0], c[0]);
        if a[0] == b[0] && b[0] == c[0] {
            lemma_parts_lt_trans(a.drop_first(), b.drop_first(), c.drop_first());
        }
    }
}

proof fn lemma_parts_lt_total(a: Seq<(u8, Seq<char>)>, b: Seq<(u8, Seq<char>)>)
    ensures
        a == b || parts_lt(a, b) || parts_lt(b, a),
    decreases a.len(),
{
    if a.len() == 0 {
        if b.len() == 0 {
            assert(a =~= b);
        }
    } else if b.len() > 0 {
        lemma_part_lt(a[0], b[0], b[0]);
        if a[0] == b[0] {
            lemma_parts_lt_total(a.drop_first(), b.drop_first());
            if a.drop_first() == b.drop_first() {
                assert(a =~= seq![a[0]] + a.drop_first());
                assert(b =~= seq![b[0]] + b.drop_first());
            }
        }
    }
}

/// One path alone gives itself.
pub proof fn lemma_single_path(p: Seq<char>, r: Seq<Seq<char>>)
    requires
        sorted_unique_paths(seq![p], r),
    ensures
        r == seq![p],
{
    assert(has_key(r, path_key(seq![p][0])));
    assert forall|i: int| 0 <= i < r.len() implies r[i] == p by {
        assert(first_of_key(seq![p], r[i]));
    }
    if r.len() > 1 {
        assert(path_lt(r[0], r[1]));
        lemma_parts_lt_irreflexive(path_key(p));
    }
    assert(r =~= seq![p]);
}

/// Compares two component lists: 0 when equal, below 0 when `a` comes first.
fn compare_parts(a: &Vec<(u8, String)>, b: &Vec<(u8, String)>) -> (r: i8)
    ensures
        r == 0 <==> part_views(a@) == part_views(b@),
        r < 0 <==> parts_lt(part_views(a@), part_views(b@)),
        r > 0 <==> parts_lt(part_views(b@), part_views(a@)),
{
    let ghost pa = part_views(a@);
    let ghost pb = part_views(b@);
    assert(pa.skip(0) =~= pa && pb.skip(0) =~= pb);
    assert(pa.take(0) =~= pb.take(0));
    let mut i: usize = 0;
    while i < a.len() && i < b.len()
        invariant
            i <= a.len(),
            i <= b.len(),
            pa == part_views(a@),
            pb == part_views(b@),
            pa.take(i as int) == pb.take(i as int),
            parts_lt(pa, pb) == parts_lt(pa.skip(i as int), pb.skip(i as int)),
            parts_lt(pb, pa) == parts_lt(pb.skip(i as int), pa.skip(i as int)),
        decreases a.len() - i,
    {
        let ghost x = pa.skip(i as int);
        let ghost y = pb.skip(i as int);
        assert(x[0] == pa[i as int] && y[0] == pb[i as int]);
        assert(x.drop_first() =~= pa.skip(i + 1));
        assert(y.drop_first() =~= pb.skip(i + 1));
        let ka = a[i].0;
        let kb = b[i].0;
        if ka < kb {
            assert(part_lt(x[0], y[0]));
            proof {
                lemma_part_lt(x[0], y[0], y[0]);
            }
            assert(parts_lt(pa, pb));
            proof {
                lemma_parts_lt_asym(pa, pb);
            }
            assert(pa[i as int] != pb[i as int]);
            return -1;
        }
        if kb < ka {
            assert(part_lt(y[0], x[0]));
            proof {
                lemma_part_lt(y[0], x[0], x[0]);
            }
            proof {
                lemma_parts_lt_asym(pb, pa);
            }
            assert(pa[i as int] != pb[i as int]);
            return 1;
        }
        let c = compare_str(a[i].1.as_str(), b[i].1.as_str());
        if c < 0 {
            proof {
                lemma_part_lt(x[0], y[0], y[0]);
            }
            proof {
                lemma_parts_lt_asym(pa, pb);
            }
            assert(pa[i as int] != pb[i as int]);
            return -1;
        }
        if c > 0 {
            proof {
                lemma_part_lt(y[0], x[0], x[0]);
            }
            proof {
                lemma_parts_lt_asym(pb, pa);
            }
            assert(pa[i as int] != pb[i as int]);
            return 1;
        }
        assert(x[0] == y[0]);
        assert(pa.take(i + 1) =~= pa.take(i as int).push(pa[i as int]));
        assert(pb.take(i + 1) =~= pb.take(i as int).push(pb[i as int]));
        i = i + 1;
    }
    if i < a.len() {
        assert(pb.skip(i as int).len() == 0);
        assert(pa.skip(i as int).len() > 0);
        return 1;
    }
    if i < b.len() {
        assert(pa.skip(i as int).len() == 0);
        return -1;
    }
    assert(pa =~= pa.take(i as int));
    assert(pb =~= pb.take(i as int));
    proof {
        lemma_parts_lt_irreflexive(pa);
    }
    0
}

/// Inserts `p` into the path-sorted `v` in its place, unless the same path
/// is there already.
pub fn insert_path_sorted(v: &mut Vec<String>, p: &str)
    requires
        path_sorted(views(old(v)@)),
    ensures
        path_sorted(views(final(v)@)),
        has_key(views(old(v)@), path_key(p@)) ==> final(v)@ == old(v)@,
        !has_key(views(old(v)@), path_key(p@)) ==> exists|pos: int|
            0 <= pos <= old(v)@.len() && views(final(v)@) == #[trigger] views(old(v)@).insert(pos, p@),
{
    let key = path_component_parts(p);
    let ghost s = views(v@);
    let ghost kp = path_key(p@);
    let mut i: usize = 0;
    while i < v.len()
        invariant
            i <= v.len(),
            s == views(v@),
            *v == *old(v),
            kp == path_key(p@),
            part_views(key@) == kp,
            path_sorted(s),
            forall|j: int| 0 <= j < i ==> path_lt(#[trigger] s[j], p@),
        ensures
            i <= v.len(),
            s == views(v@),
            *v == *old(v),
            forall|j: int| 0 <= j < i ==> path_lt(#[trigger] s[j], p@),
            i < s.len() ==> parts_lt(kp, path_key(s[i as int])),
        decreases v.len() - i,
    {
        let ki = path_component_parts(v[i].as_str());
        assert(s[i as int] == v@[i as int]@);
        let c = compare_parts(&ki, &key);
        if c == 0 {
            assert(path_key(s[i as int]) == kp);
            assert(has_key(s, kp));
            return ;
        }
        if c > 0 {
            break ;
        }
        i = i + 1;
    }
    proof {
        assert forall|j: int| 0 <= j < s.len() implies path_key(#[trigger] s[j]) != kp by {
            lemma_parts_lt_irreflexive(kp);
            if j < i {
                assert(path_lt(s[j], p@));
            } else {
                if i < s.len() {
                    lemma_parts_lt_irreflexive(path_key(s[i as int]));
                    if j > i {
                        assert(path_lt(s[i as int], s[j]));
                        lemma_parts_lt_asym(path_key(s[i as int]), kp);
                        lemma_parts_lt_trans(kp, path_key(s[i as int]), path_key(s[j]));
                    }
                }
            }
        }
        assert(!has_key(s, kp));
    }
    let ghost after_i = i;
    v.insert(i, p.to_string());
    assert(views(v@) =~= s.insert(i as int, p@));
    assert forall|a: int, b: int| 0 <= a < b < views(v@).len() implies path_lt(
        #[trigger] views(v@)[a],
        #[trigger] views(v@)[b],
    ) by {
        let t = views(v@);
        if b < i {
            assert(t[a] == s[a] && t[b] == s[b]);
        } else if b == i {
            assert(t[a] == s[a]);
        } else if a < i {
            assert(t[a] == s[a] && t[b] == s[b - 1]);
            assert(path_lt(s[a], p@));
            if b - 1 > i {
                assert(path_lt(s[i as int], s[b - 1]));
                lemma_parts_lt_trans(kp, path_key(s[i as int]), path_key(s[b - 1]));
            }
            lemma_parts_lt_trans(path_key(s[a]), kp, path_key(s[b - 1]));
        } else if a == i {
            assert(t[b] == s[b - 1]);
            if b - 1 > i {
                assert(path_lt(s[i as int], s[b - 1]));
                lemma_parts_lt_trans(kp, path_key(s[i as int]), path_key(s[b - 1]));
            }
        } else {
            assert(t[a] == s[a - 1] && t[b] == s[b - 1]);
        }
    }
}

/// The distinct paths of `inputs` in path order, each as the first input
/// that is that path.
pub fn sort_unique_paths(inputs: &Vec<String>) -> (r: Vec<String>)
    ensures
        sorted_unique_paths(views(inputs@), views(r@)),
{
    let ghost all = views(inputs@);
    let mut out: Vec<String> = Vec::new();
    let mut i: usize = 0;
    while i < inputs.len()
        invariant
            i <= inputs.len(),
            all == views(inputs@),
            sorted_unique_paths(all.take(i as int), views(out@)),
        decreases inputs.len() - i,
    {
        let ghost pre = all.take(i as int);
        let ghost next = all.take(i + 1);
        let ghost old_out = views(out@);
        let ghost x = all[i as int];
        assert(next =~= pre.push(x));
        insert_path_sorted(&mut out, inputs[i].as_str());
        let ghost now = views(out@);
        proof {
        if has_key(old_out, path_key(x)) {
            assert(now == old_out);
            assert forall|m: int| 0 <= m < now.len() implies #[trigger] first_of_key(next, now[m]) by {
                assert(first_of_key(pre, now[m]));
                let k = choose|k: int|
                    0 <= k < pre.len() && pre[k] == now[m] && #[trigger] no_key_before(pre, k, path_key(now[m]));
                assert(next[k] == pre[k]);
                assert forall|j: int| 0 <= j < k implies path_key(#[trigger] next[j]) != path_key(now[m]) by {
                    assert(next[j] == pre[j]);
                }
                assert(no_key_before(next, k, path_key(now[m])));
            }
            assert forall|k: int| 0 <= k < next.len() implies #[trigger] has_key(now, path_key(next[k])) by {
                if k < i {
                    assert(next[k] == pre[k]);
                    assert(has_key(old_out, path_key(pre[k])));
                }
            }
        } else {
            let pos = choose|pos: int| 0 <= pos <= old_out.len() && now == #[trigger] old_out.insert(pos, x);
            assert forall|m: int| 0 <= m < now.len() implies #[trigger] first_of_key(next, now[m]) by {
                if m == pos {
                    assert(now[m] == x);
                    assert forall|j: int| 0 <= j < i implies path_key(#[trigger] next[j]) != path_key(x) by {
                        assert(next[j] == pre[j]);
                        assert(has_key(old_out, path_key(pre[j])));
                    }
                    assert(no_key_before(next, i as int, path_key(x)));
                    assert(next[i as int] == x);
                } else {
                    let mo = if m < pos { m } else { m - 1 };
                    assert(now[m] == old_out[mo]);
                    assert(first_of_key(pre, old_out[mo]));
                    let k = choose|k: int|
                        0 <= k < pre.len() && pre[k] == old_out[mo] && #[trigger] no_key_before(pre, k, path_key(old_out[mo]));
                    assert(next[k] == pre[k]);
                    assert forall|j: int| 0 <= j < k implies path_key(#[trigger] next[j]) != path_key(now[m]) by {
                        assert(next[j] == pre[j]);
                    }
                    assert(no_key_before(next, k, path_key(now[m])));
                }
            }
            assert forall|k: int| 0 <= k < next.len() implies #[trigger] has_key(now, path_key(next[k])) by {
                if k < i {
                    assert(next[k] == pre[k]);
                    assert(has_key(old_out, path_key(pre[k])));
                    let w = choose|w: int| 0 <= w < old_out.len() && path_key(#[trigger] old_out[w]) == path_key(pre[k]);
                    let wn = if w < pos { w } else { w + 1 };
                    assert(now[wn] == old_out[w]);
                } else {
                    assert(now[pos] == x);
                }
            }
        }
        }
        i = i + 1;
    }
    assert(all.take(i as int) =~= all);
    out
}

} // verus!
