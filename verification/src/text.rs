//! Text helpers: equality and byte-wise ordering of strings, as Rust orders them.
use vstd::prelude::*;
use vstd::utf8::*;
use vstd::string::StringExecFns;

verus! {

broadcast use vstd::utf8::group_utf8_lib;

/// The UTF-8 bytes of a character sequence.
pub open spec fn utf8(s: Seq<char>) -> Seq<u8> {
    encode_utf8(s)
}

/// Lexicographic order on byte sequences (strict).
pub open spec fn bytes_lt(a: Seq<u8>, b: Seq<u8>) -> bool {
    exists|k: int|
        0 <= k <= a.len() && k <= b.len() && a.take(k) == b.take(k) && (
            (k == a.len() && k < b.len()) || (k < a.len() && k < b.len() && a[k] < b[k])
        )
}

/// Rust's order on strings: lexicographic by UTF-8 bytes.
pub open spec fn str_lt(a: Seq<char>, b: Seq<char>) -> bool {
    bytes_lt(utf8(a), utf8(b))
}

pub open spec fn str_le(a: Seq<char>, b: Seq<char>) -> bool {
    a == b || str_lt(a, b)
}

/// The views of a sequence of strings.
pub open spec fn views(v: Seq<String>) -> Seq<Seq<char>> {
    v.map_values(|s: String| s@)
}

/// A sequence of strings is strictly increasing (hence sorted and free of duplicates).
pub open spec fn strictly_sorted(s: Seq<Seq<char>>) -> bool {
    forall|i: int, j: int| 0 <= i < j < s.len() ==> str_lt(#[trigger] s[i], #[trigger] s[j])
}

/// No element occurs twice.
pub open spec fn no_dups<A>(s: Seq<A>) -> bool {
    forall|i: int, j: int| 0 <= i < j < s.len() ==> s[i] != s[j]
}

pub proof fn lemma_utf8_injective(a: Seq<char>, b: Seq<char>)
    ensures
        utf8(a) == utf8(b) <==> a == b,
{
    encode_utf8_decode_utf8(a);
    encode_utf8_decode_utf8(b);
}

pub proof fn lemma_bytes_lt_irreflexive(a: Seq<u8>)
    ensures
        !bytes_lt(a, a),
{
}

pub proof fn lemma_bytes_lt_asym(a: Seq<u8>, b: Seq<u8>)
    ensures
        bytes_lt(a, b) ==> !bytes_lt(b, a),
{
    if bytes_lt(a, b) && bytes_lt(b, a) {
        let k1 = choose|k: int|
            0 <= k <= a.len() && k <= b.len() && a.take(k) == b.take(k) && ((k == a.len() && k
                < b.len()) || (k < a.len() && k < b.len() && a[k] < b[k]));
        let k2 = choose|k: int|
            0 <= k <= b.len() && k <= a.len() && b.take(k) == a.take(k) && ((k == b.len() && k
                < a.len()) || (k < b.len() && k < a.len() && b[k] < a[k]));
        if k1 < k2 {
            assert(a.take(k2)[k1] == b.take(k2)[k1]);
        } else if k2 < k1 {
            assert(a.take(k1)[k2] == b.take(k1)[k2]);
        }
    }
}

pub proof fn lemma_bytes_lt_trans(a: Seq<u8>, b: Seq<u8>, c: Seq<u8>)
    requires
        bytes_lt(a, b),
        bytes_lt(b, c),
    ensures
        bytes_lt(a, c),
{
    let k1 = choose|k: int|
        0 <= k <= a.len() && k <= b.len() && a.take(k) == b.take(k) && ((k == a.len() && k
            < b.len()) || (k < a.len() && k < b.len() && a[k] < b[k]));
    let k2 = choose|k: int|
        0 <= k <= b.len() && k <= c.len() && b.take(k) == c.take(k) && ((k == b.len() && k
            < c.len()) || (k < b.len() && k < c.len() && b[k] < c[k]));
    let k = if k1 < k2 { k1 } else { k2 };
    assert forall|i: int| 0 <= i < k implies a[i] == c[i] by {
        assert(a.take(k1)[i] == b.take(k1)[i]);
        assert(b.take(k2)[i] == c.take(k2)[i]);
    }
    assert(a.take(k) =~= c.take(k));
    if k1 < k2 {
        assert(b.take(k2)[k1] == c.take(k2)[k1]);
    } else if k2 < k1 {
        assert(a.take(k1)[k2] == b.take(k1)[k2]);
    }
}

/// Totality: two different byte sequences are ordered one way or the other.
pub proof fn lemma_bytes_lt_total(a: Seq<u8>, b: Seq<u8>)
    ensures
        a == b || bytes_lt(a, b) || bytes_lt(b, a),
    decreases a.len(),
{
    if a.len() == 0 {
        assert(a.take(0) =~= b.take(0));
        if b.len() != 0 {
            assert(bytes_lt(a, b));
        } else {
            assert(a =~= b);
        }
    } else if b.len() == 0 {
        assert(a.take(0) =~= b.take(0));
        assert(bytes_lt(b, a));
    } else if a[0] != b[0] {
        assert(a.take(0) =~= b.take(0));
        if a[0] < b[0] {
            assert(bytes_lt(a, b));
        } else {
            assert(bytes_lt(b, a));
        }
    } else {
        let a1 = a.drop_first();
        let b1 = b.drop_first();
        lemma_bytes_lt_total(a1, b1);
        if a1 == b1 {
            assert(a =~= seq![a[0]] + a1);
            assert(b =~= seq![b[0]] + b1);
        } else if bytes_lt(a1, b1) {
            let k = choose|k: int|
                0 <= k <= a1.len() && k <= b1.len() && a1.take(k) == b1.take(k) && ((k == a1.len()
                    && k < b1.len()) || (k < a1.len() && k < b1.len() && a1[k] < b1[k]));
            assert forall|i: int| 0 <= i < k + 1 implies a[i] == b[i] by {
                if i > 0 {
                    assert(a1.take(k)[i - 1] == b1.take(k)[i - 1]);
                }
            }
            assert(a.take(k + 1) =~= b.take(k + 1));
            assert(bytes_lt(a, b));
        } else {
            let k = choose|k: int|
                0 <= k <= b1.len() && k <= a1.len() && b1.take(k) == a1.take(k) && ((k == b1.len()
                    && k < a1.len()) || (k < b1.len() && k < a1.len() && b1[k] < a1[k]));
            assert forall|i: int| 0 <= i < k + 1 implies a[i] == b[i] by {
                if i > 0 {
                    assert(b1.take(k)[i - 1] == a1.take(k)[i - 1]);
                }
            }
            assert(b.take(k + 1) =~= a.take(k + 1));
            assert(bytes_lt(b, a));
        }
    }
}

pub proof fn lemma_str_lt_irreflexive(a: Seq<char>)
    ensures
        !str_lt(a, a),
{
}

pub proof fn lemma_str_lt_asym(a: Seq<char>, b: Seq<char>)
    ensures
        str_lt(a, b) ==> !str_lt(b, a),
{
    lemma_bytes_lt_asym(utf8(a), utf8(b));
}

pub proof fn lemma_str_lt_trans(a: Seq<char>, b: Seq<char>, c: Seq<char>)
    requires
        str_lt(a, b),
        str_lt(b, c),
    ensures
        str_lt(a, c),
{
    lemma_bytes_lt_trans(utf8(a), utf8(b), utf8(c));
}

pub proof fn lemma_str_lt_total(a: Seq<char>, b: Seq<char>)
    ensures
        a == b || str_lt(a, b) || str_lt(b, a),
{
    lemma_bytes_lt_total(utf8(a), utf8(b));
    lemma_utf8_injective(a, b);
}

/// Byte-wise comparison of two byte slices: -1, 0 or 1.
fn compare_bytes(a: &[u8], b: &[u8]) -> (r: i8)
    ensures
        r == 0 <==> a@ == b@,
        r < 0 <==> bytes_lt(a@, b@),
        r > 0 <==> bytes_lt(b@, a@),
{
    let n = if a.len() < b.len() {
        a.len()
    } else {
        b.len()
    };
    let mut i: usize = 0;
    while i < n
        invariant
            n <= a.len(),
            n <= b.len(),
            n == a.len() || n == b.len(),
            i <= n,
            a@.take(i as int) == b@.take(i as int),
        decreases n - i,
    {
        if a[i] != b[i] {
            proof {
                lemma_bytes_lt_asym(a@, b@);
                if a[i as int] < b[i as int] {
                    assert(bytes_lt(a@, b@));
                } else {
                    assert(bytes_lt(b@, a@));
                }
            }
            return if a[i] < b[i] {
                -1
            } else {
                1
            };
        }
        assert(a@.take(i + 1) =~= a@.take(i as int).push(a@[i as int]));
        assert(b@.take(i + 1) =~= b@.take(i as int).push(b@[i as int]));
        i = i + 1;
    }
    proof {
        lemma_bytes_lt_asym(a@, b@);
    }
    if a.len() < b.len() {
        assert(bytes_lt(a@, b@));
        -1
    } else if b.len() < a.len() {
        assert(bytes_lt(b@, a@));
        1
    } else {
        assert(a@ =~= a@.take(i as int));
        assert(b@ =~= b@.take(i as int));
        proof {
            lemma_bytes_lt_irreflexive(a@);
        }
        0
    }
}

/// Compares two strings in Rust's order: -1, 0 or 1.
pub fn compare_str(a: &str, b: &str) -> (r: i8)
    ensures
        r == 0 <==> a@ == b@,
        r < 0 <==> str_lt(a@, b@),
        r > 0 <==> str_lt(b@, a@),
{
    let r = compare_bytes(a.as_bytes(), b.as_bytes());
    proof {
        lemma_utf8_injective(a@, b@);
    }
    r
}

/// Whether two strings are equal.
pub fn str_eq(a: &str, b: &str) -> (r: bool)
    ensures
        r == (a@ == b@),
{
    compare_str(a, b) == 0
}

/// Whether `s` occurs in `v`.
pub fn contains_str(v: &Vec<String>, s: &str) -> (r: bool)
    ensures
        r == views(v@).contains(s@),
{
    let mut i: usize = 0;
    while i < v.len()
        invariant
            i <= v.len(),
            forall|j: int| 0 <= j < i ==> v@[j]@ != s@,
        decreases v.len() - i,
    {
        if str_eq(v[i].as_str(), s) {
            assert(views(v@)[i as int] == s@);
            return true;
        }
        i = i + 1;
    }
    assert forall|j: int| 0 <= j < views(v@).len() implies views(v@)[j] != s@ by {
        assert(views(v@)[j] == v@[j]@);
    }
    false
}

/// A copy of a vector of strings.
pub fn clone_strings(v: &Vec<String>) -> (r: Vec<String>)
    ensures
        views(r@) == views(v@),
{
    let mut out: Vec<String> = Vec::new();
    let mut i: usize = 0;
    while i < v.len()
        invariant
            i <= v.len(),
            views(out@) == views(v@).take(i as int),
        decreases v.len() - i,
    {
        let ghost old_out = out@;
        let c = v[i].clone();
        out.push(c);
        assert(out@ == old_out.push(c));
        assert(views(out@) =~= views(old_out).push(c@));
        assert(views(out@) =~= views(v@).take(i + 1));
        i = i + 1;
    }
    assert(views(v@).take(v.len() as int) =~= views(v@));
    out
}

/// `a` followed by `b`.
pub fn concat(a: &str, b: &str) -> (r: String)
    ensures
        r@ == a@ + b@,
{
    let mut s = a.to_string();
    s.append(b);
    s
}

} // verus!
