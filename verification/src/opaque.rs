//! Regions of a template whose content is raw text, such as the inside of
//! `{% verbatim %}` and `{% comment %}`, where validation is skipped.
use vstd::prelude::*;

use crate::span::Span;

verus! {

broadcast use {vstd::multiset::group_multiset_axioms, vstd::seq_lib::group_to_multiset_ensures};

/// Two spans share no offset.
pub open spec fn disjoint(a: Span, b: Span) -> bool {
    a.end_spec() <= b.start || b.end_spec() <= a.start
}

/// No two spans of `s` share an offset.
pub open spec fn pairwise_disjoint(s: Seq<Span>) -> bool {
    forall|i: int, j: int| 0 <= i < s.len() && 0 <= j < s.len() && i != j ==> disjoint(s[i], s[j])
}

/// No empty span of `s` comes after another span of `s` with the same start.
pub open spec fn no_empty_after_same_start(s: Seq<Span>) -> bool {
    forall|i: int, j: int|
        0 <= i < j < s.len() && #[trigger] s[i].start == #[trigger] s[j].start ==> s[j].start < s[j].end_spec()
}

/// Sorted by start offset.
pub open spec fn sorted_by_start(s: Seq<Span>) -> bool {
    forall|i: int, j: int| 0 <= i <= j < s.len() ==> s[i].start <= s[j].start
}

/// Some span of `s` contains `position`.
pub open spec fn covers(s: Seq<Span>, position: u32) -> bool {
    exists|i: int| 0 <= i < s.len() && s[i].start <= position && position < #[trigger] s[i].end_spec()
}

/// `s` sorted by start offset, stably: `x` goes after every span whose start
/// is no later than its own.
pub open spec fn insert_by_start(s: Seq<Span>, x: Span) -> Seq<Span>
    decreases s.len(),
{
    if s.len() == 0 || s.last().start <= x.start {
        s.push(x)
    } else {
        insert_by_start(s.drop_last(), x).push(s.last())
    }
}

/// The spans sorted by start offset, stably (spans with the same start keep
/// their order).
pub open spec fn stable_sort_by_start(s: Seq<Span>) -> Seq<Span>
    decreases s.len(),
{
    if s.len() == 0 {
        s
    } else {
        insert_by_start(stable_sort_by_start(s.drop_last()), s.last())
    }
}

/// Where the search for `position` ends among `size` spans from `base`:
/// halving the range, it moves to the middle span unless the position lies
/// before it.
pub open spec fn search_base(s: Seq<Span>, position: u32, base: int, size: int) -> int
    decreases size,
{
    if size <= 1 {
        base
    } else {
        let half = size / 2;
        let mid = base + half;
        if position < s[mid].start {
            search_base(s, position, base, size - half)
        } else {
            search_base(s, position, mid, size - half)
        }
    }
}

/// The search for `position` among the spans ends on a span that contains it.
pub open spec fn search_finds(s: Seq<Span>, position: u32) -> bool {
    s.len() > 0 && {
        let b = search_base(s, position, 0, s.len() as int);
        s[b].start <= position && position < s[b].end_spec()
    }
}

/// Byte spans, sorted by start, where validation is skipped.
#[derive(Clone, Debug, Default, PartialEq, Eq, Hash)]
pub struct OpaqueRegions {
    spans: Vec<Span>,
}

impl View for OpaqueRegions {
    type V = Seq<Span>;

    closed spec fn view(&self) -> Seq<Span> {
        self.spans@
    }
}

impl OpaqueRegions {
    pub closed spec fn wf(&self) -> bool {
        sorted_by_start(self.spans@)
    }

    /// The regions `spans`, sorted by their start (stably).
    pub fn new(spans: Vec<Span>) -> (r: OpaqueRegions)
        ensures
            r.wf(),
            r@ == stable_sort_by_start(spans@),
            r@.to_multiset() == spans@.to_multiset(),
            forall|p: u32| covers(r@, p) == covers(spans@, p),
    {
        let sorted = sort_by_start(spans);
        OpaqueRegions { spans: sorted }
    }

    /// No regions.
    pub fn empty() -> (r: OpaqueRegions)
        ensures
            r.wf(),
            r@.len() == 0,
    {
        OpaqueRegions { spans: Vec::new() }
    }

    /// Whether `position` falls inside a region, by a binary search over the
    /// regions (see [`search_finds`]; for regions that do not overlap, with no
    /// empty region after another with its start, whether one of them covers
    /// it: see
    /// [`law_search_finds_exactly_the_covered_positions`]).
    pub fn is_opaque(&self, position: u32) -> (r: bool)
        ensures
            r == search_finds(self@, position),
    {
        let n = self.spans.len();
        if n == 0 {
            return false;
        }
        let mut base: usize = 0;
        let mut size: usize = n;
        while size > 1
            invariant
                n == self.spans@.len(),
                1 <= size,
                base + size <= n,
                search_base(self.spans@, position, 0, n as int) == search_base(
                    self.spans@,
                    position,
                    base as int,
                    size as int,
                ),
            decreases size,
        {
            let half = size / 2;
            let mid = base + half;
            if !(position < self.spans[mid].start) {
                base = mid;
            }
            size = size - half;
        }
        let span = self.spans[base];
        span.start <= position && position < span.end()
    }

    /// Whether there are no regions.
    pub fn is_empty(&self) -> (r: bool)
        ensures
            r == (self@.len() == 0),
    {
        self.spans.len() == 0
    }
}

/// The search ends on a span that covers the position only where one does.
pub proof fn law_search_finds_only_covered_positions(s: Seq<Span>, position: u32)
    ensures
        search_finds(s, position) ==> covers(s, position),
{
    if search_finds(s, position) {
        lemma_search_base_in_range(s, position, 0, s.len() as int);
        let b = search_base(s, position, 0, s.len() as int);
        assert(s[b].start <= position && position < s[b].end_spec());
    }
}

/// For regions sorted by start that do not overlap, and where no empty region
/// comes after another region with the same start, the search finds a
/// position exactly when a region covers it.
pub proof fn law_search_finds_exactly_the_covered_positions(s: Seq<Span>, position: u32)
    requires
        sorted_by_start(s),
        pairwise_disjoint(s),
        no_empty_after_same_start(s),
    ensures
        search_finds(s, position) == covers(s, position),
{
    law_search_finds_only_covered_positions(s, position);
    if covers(s, position) {
        let k = choose|k: int| 0 <= k < s.len() && s[k].start <= position && position < #[trigger] s[k].end_spec();
        lemma_search_keeps_cover(s, position, k, 0, s.len() as int);
    }
}

proof fn lemma_search_base_in_range(s: Seq<Span>, position: u32, base: int, size: int)
    requires
        1 <= size,
        0 <= base,
    ensures
        base <= search_base(s, position, base, size) < base + size,
    decreases size,
{
    if size > 1 {
        let half = size / 2;
        let mid = base + half;
        if position < s[mid].start {
            lemma_search_base_in_range(s, position, base, size - half);
        } else {
            lemma_search_base_in_range(s, position, mid, size - half);
        }
    }
}

proof fn lemma_search_keeps_cover(s: Seq<Span>, position: u32, k: int, base: int, size: int)
    requires
        sorted_by_start(s),
        pairwise_disjoint(s),
        no_empty_after_same_start(s),
        0 <= base <= k < base + size <= s.len(),
        s[k].start <= position < s[k].end_spec(),
    ensures
        search_base(s, position, base, size) == k,
    decreases size,
{
    if size > 1 {
        let half = size / 2;
        let mid = base + half;
        if position < s[mid].start {
            if k >= mid {
                assert(s[mid].start <= s[k].start);
            }
            lemma_search_keeps_cover(s, position, k, base, size - half);
        } else {
            if k < mid {
                assert(s[k].start <= s[mid].start);
                assert(disjoint(s[k], s[mid]));
                if s[k].start == s[mid].start {
                    assert(s[mid].start < s[mid].end_spec());
                }
            }
            lemma_search_keeps_cover(s, position, k, mid, size - half);
        }
    }
}

/// Inserting by start keeps a sequence sorted by start, and adds `x` to its
/// elements.
proof fn lemma_insert_by_start(s: Seq<Span>, x: Span)
    requires
        sorted_by_start(s),
    ensures
        sorted_by_start(insert_by_start(s, x)),
        insert_by_start(s, x).to_multiset() == s.to_multiset().insert(x),
        insert_by_start(s, x).len() == s.len() + 1,
        forall|i: int| 0 <= i < insert_by_start(s, x).len() ==> (#[trigger] insert_by_start(s, x)[i] == x
            || s.contains(insert_by_start(s, x)[i])),
        forall|i: int| 0 <= i < insert_by_start(s, x).len() ==> (#[trigger] insert_by_start(s, x)[i]).start
            <= x.start || s.len() > 0 && insert_by_start(s, x)[i].start <= s.last().start,
    decreases s.len(),
{
    if s.len() == 0 || s.last().start <= x.start {
        let r = s.push(x);
        assert forall|i: int, j: int| 0 <= i <= j < r.len() implies r[i].start <= r[j].start by {
            if j == s.len() && i < j {
                assert(s[i].start <= s.last().start);
            }
        }
        assert forall|i: int| 0 <= i < r.len() implies (#[trigger] r[i] == x || s.contains(r[i])) by {
            if i < s.len() {
                assert(s[i] == r[i]);
            }
        }
        assert forall|i: int| 0 <= i < r.len() implies (#[trigger] r[i]).start <= x.start || s.len() > 0 && r[i].start
            <= s.last().start by {
            if i < s.len() {
                assert(s[i].start <= s.last().start);
            }
        }
    } else {
        let w = s.drop_last();
        assert(sorted_by_start(w));
        lemma_insert_by_start(w, x);
        let m = insert_by_start(w, x);
        let r = m.push(s.last());
        assert(s =~= w.push(s.last()));
        assert forall|i: int, j: int| 0 <= i <= j < r.len() implies r[i].start <= r[j].start by {
            if j == m.len() && i < j {
                if m[i] == x {
                } else {
                    let t = choose|t: int| 0 <= t < w.len() && w[t] == m[i];
                    assert(s[t].start <= s.last().start);
                }
            }
        }
        assert forall|i: int| 0 <= i < r.len() implies (#[trigger] r[i] == x || s.contains(r[i])) by {
            if i < m.len() {
                if m[i] != x {
                    let t = choose|t: int| 0 <= t < w.len() && w[t] == m[i];
                    assert(s[t] == m[i]);
                }
            } else {
                assert(s[s.len() - 1] == r[i]);
            }
        }
        assert forall|i: int| 0 <= i < r.len() implies (#[trigger] r[i]).start <= x.start || s.len() > 0 && r[i].start
            <= s.last().start by {
            if i < m.len() {
                if m[i] != x {
                    let t = choose|t: int| 0 <= t < w.len() && w[t] == m[i];
                    assert(s[t].start <= s.last().start);
                }
            }
        }
    }
}

proof fn lemma_stable_sort(s: Seq<Span>)
    ensures
        sorted_by_start(stable_sort_by_start(s)),
        stable_sort_by_start(s).to_multiset() == s.to_multiset(),
        stable_sort_by_start(s).len() == s.len(),
    decreases s.len(),
{
    if s.len() > 0 {
        lemma_stable_sort(s.drop_last());
        lemma_insert_by_start(stable_sort_by_start(s.drop_last()), s.last());
        assert(s =~= s.drop_last().push(s.last()));
    }
}

/// Sequences with the same elements cover the same positions.
proof fn lemma_same_multiset_covers(a: Seq<Span>, b: Seq<Span>, p: u32)
    requires
        a.to_multiset() == b.to_multiset(),
    ensures
        covers(a, p) == covers(b, p),
{
    if covers(a, p) {
        let t = choose|t: int| 0 <= t < a.len() && a[t].start <= p && p < #[trigger] a[t].end_spec();
        assert(a.to_multiset().count(a[t]) > 0);
        assert(b.contains(a[t]));
        let u = choose|u: int| 0 <= u < b.len() && b[u] == a[t];
        assert(b[u].start <= p && p < b[u].end_spec());
    }
    if covers(b, p) {
        let t = choose|t: int| 0 <= t < b.len() && b[t].start <= p && p < #[trigger] b[t].end_spec();
        assert(b.to_multiset().count(b[t]) > 0);
        assert(a.contains(b[t]));
        let u = choose|u: int| 0 <= u < a.len() && a[u] == b[t];
        assert(a[u].start <= p && p < a[u].end_spec());
    }
}

/// Sorts spans by their start offset (insertion sort; stable).
fn sort_by_start(spans: Vec<Span>) -> (r: Vec<Span>)
    ensures
        r@ == stable_sort_by_start(spans@),
        sorted_by_start(r@),
        r@.to_multiset() == spans@.to_multiset(),
        forall|p: u32| covers(r@, p) == covers(spans@, p),
{
    let mut out: Vec<Span> = Vec::new();
    let mut i: usize = 0;
    assert(spans@.take(0) =~= Seq::<Span>::empty());
    while i < spans.len()
        invariant
            i <= spans.len(),
            out@ == stable_sort_by_start(spans@.take(i as int)),
        decreases spans.len() - i,
    {
        let s = spans[i];
        assert(spans@.take(i + 1).drop_last() =~= spans@.take(i as int));
        assert(spans@.take(i + 1).last() == s);
        let ghost before = out@;
        let mut k: usize = out.len();
        assert(before.take(k as int) =~= before);
        assert(before.skip(k as int) =~= Seq::<Span>::empty());
        while k > 0 && out[k - 1].start > s.start
            invariant
                k <= out@.len(),
                out@ == before,
                insert_by_start(before, s) == insert_by_start(before.take(k as int), s) + before.skip(k as int),
            decreases k,
        {
            let ghost t = before.take(k as int);
            assert(t.drop_last() =~= before.take(k - 1));
            assert(t.last() == before[k - 1]);
            assert(before.skip(k - 1) =~= seq![before[k - 1]] + before.skip(k as int));
            assert(insert_by_start(t, s) == insert_by_start(t.drop_last(), s).push(t.last()));
            assert(insert_by_start(t, s) + before.skip(k as int) =~= insert_by_start(before.take(k - 1), s)
                + before.skip(k - 1));
            k = k - 1;
        }
        assert(insert_by_start(before.take(k as int), s) == before.take(k as int).push(s));
        out.insert(k, s);
        assert(out@ =~= before.take(k as int).push(s) + before.skip(k as int));
        i = i + 1;
    }
    assert(spans@.take(i as int) =~= spans@);
    proof {
        lemma_stable_sort(spans@);
        assert forall|p: u32| covers(out@, p) == covers(spans@, p) by {
            lemma_same_multiset_covers(out@, spans@, p);
        }
    }
    out
}

} // verus!
