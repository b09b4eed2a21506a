//! UTF-8 file system paths, handled by `camino`, and the lexical clean-up that
//! `os.path.normpath` performs.
use vstd::prelude::*;

use camino::{Utf8Component, Utf8Path};
use vstd::string::StrSliceExecFns;

verus! {

/// The path `base` joined with `part` by `camino` (an absolute `part` replaces `base`).
pub uninterp spec fn joined(base: Seq<char>, part: Seq<char>) -> Seq<char>;

/// The parent of `path` by `camino`: `None` for a root or an empty path.
pub uninterp spec fn parent_of(path: Seq<char>) -> Option<Seq<char>>;

/// Whether `camino` considers `path` absolute.
pub uninterp spec fn is_absolute_path(path: Seq<char>) -> bool;

/// What remains of `path` after the leading components `base`, by `camino`;
/// `None` when `base` is not a prefix of it.
pub uninterp spec fn stripped_prefix(path: Seq<char>, base: Seq<char>) -> Option<Seq<char>>;

/// The final component of `path` by `camino`, if it is a normal one.
pub uninterp spec fn file_name_of(path: Seq<char>) -> Option<Seq<char>>;

/// The extension of the final component of `path` by `camino`, if any.
pub uninterp spec fn extension_of(path: Seq<char>) -> Option<Seq<char>>;

/// The components of `path` by `camino`, each as a string.
pub uninterp spec fn components_of(path: Seq<char>) -> Seq<Seq<char>>;

/// Whether `camino` finds the two paths equal, component by component.
pub uninterp spec fn same_path(a: Seq<char>, b: Seq<char>) -> bool;

pub open spec fn opt_view(o: Option<String>) -> Option<Seq<char>> {
    match o {
        Some(s) => Some(s@),
        None => None,
    }
}

/// A single plain component name: not empty, no separator or drive colon,
/// and neither `.` nor `..`.
pub open spec fn plain_name(s: Seq<char>) -> bool {
    &&& s.len() > 0
    &&& !s.contains('/')
    &&& !s.contains('\\')
    &&& !s.contains(':')
    &&& s != "."@
    &&& s != ".."@
}

/// `Utf8Path::join`: the path `base` with `part` appended, or `part` when it
/// is absolute. The result is named, not described; appending a plain name
/// adds a component after `base` (and maybe a separator), so the result is
/// longer than `base` and not the same path.
#[verifier::external_body]
pub(crate) fn path_join(base: &str, part: &str) -> (r: String)
    ensures
        r@ == joined(base@, part@),
        plain_name(part@) ==> r@.len() > base@.len() && !same_path(r@, base@) && !same_path(base@, r@),
{
    Utf8Path::new(base).join(part).into_string()
}

/// `Utf8Path::parent`: the path without its final component, `None` when the
/// path ends in a root or prefix or is empty. The result is named, not
/// described; without a final component it is shorter than the path.
#[verifier::external_body]
pub(crate) fn path_parent(path: &str) -> (r: Option<String>)
    ensures
        opt_view(r) == parent_of(path@),
        r matches Some(p) ==> p@.len() < path@.len(),
{
    match Utf8Path::new(path).parent() {
        Some(p) => Some(p.as_str().to_string()),
        None => None,
    }
}

/// `Utf8Path::strip_prefix`: the path relative to `base` when `base` is a
/// prefix of it, component by component. The result is named, not described.
#[verifier::external_body]
pub(crate) fn path_strip_prefix(path: &str, base: &str) -> (r: Option<String>)
    ensures
        opt_view(r) == stripped_prefix(path@, base@),
{
    match Utf8Path::new(path).strip_prefix(base) {
        Ok(p) => Some(p.as_str().to_string()),
        Err(_) => None,
    }
}

/// `Utf8Path::file_name`: the final component when it is a normal one. The
/// result is named, not described.
#[verifier::external_body]
pub(crate) fn path_file_name(path: &str) -> (r: Option<String>)
    ensures
        opt_view(r) == file_name_of(path@),
{
    match Utf8Path::new(path).file_name() {
        Some(n) => Some(n.to_string()),
        None => None,
    }
}

/// `Utf8Path::extension`: the extension of the final component, if it has
/// one. The result is named, not described.
#[verifier::external_body]
pub(crate) fn path_extension(path: &str) -> (r: Option<String>)
    ensures
        opt_view(r) == extension_of(path@),
{
    match Utf8Path::new(path).extension() {
        Some(e) => Some(e.to_string()),
        None => None,
    }
}

/// `Utf8Path::components`, each component as its string. The result is named,
/// not described.
#[verifier::external_body]
pub(crate) fn path_components(path: &str) -> (r: Vec<String>)
    ensures
        crate::text::views(r@) == components_of(path@),
{
    let mut out = Vec::new();
    for c in Utf8Path::new(path).components() {
        out.push(c.as_str().to_string());
    }
    out
}

/// The components of `path` by `camino`, each with its kind (0 a prefix, 1 the
/// root, 2 `.`, 3 `..`, 4 a name, in the order of `Utf8Component`'s variants)
/// and its text.
pub uninterp spec fn component_parts_of(path: Seq<char>) -> Seq<(u8, Seq<char>)>;

pub open spec fn part_views(v: Seq<(u8, String)>) -> Seq<(u8, Seq<char>)> {
    v.map_values(|e: (u8, String)| (e.0, e.1@))
}

/// `Utf8Path::components`, each component as its kind and its text. The result
/// is named, not described.
#[verifier::external_body]
pub(crate) fn path_component_parts(path: &str) -> (r: Vec<(u8, String)>)
    ensures
        part_views(r@) == component_parts_of(path@),
{
    let mut out = Vec::new();
    for c in Utf8Path::new(path).components() {
        let kind: u8 = match c {
            Utf8Component::Prefix(_) => 0,
            Utf8Component::RootDir => 1,
            Utf8Component::CurDir => 2,
            Utf8Component::ParentDir => 3,
            Utf8Component::Normal(_) => 4,
        };
        out.push((kind, c.as_str().to_string()));
    }
    out
}

/// `Utf8Path::is_absolute`: whether the path is independent of the current
/// directory. The result is named, not described.
#[verifier::external_body]
pub(crate) fn path_is_absolute(path: &str) -> (r: bool)
    ensures
        r == is_absolute_path(path@),
{
    Utf8Path::new(path).is_absolute()
}

/// The `n`-th ancestor of `path` by repeated [`parent_of`]; `None` once a
/// parent is missing.
pub open spec fn nth_parent(path: Seq<char>, n: nat) -> Option<Seq<char>>
    decreases n,
{
    if n == 0 {
        Some(path)
    } else {
        match parent_of(path) {
            Some(p) => nth_parent(p, (n - 1) as nat),
            None => None,
        }
    }
}

/// The `n`-th ancestor of `path`.
pub fn ancestor(path: String, n: usize) -> (r: Option<String>)
    ensures
        opt_view(r) == nth_parent(path@, n as nat),
    decreases n,
{
    if n == 0 {
        Some(path)
    } else {
        match path_parent(path.as_str()) {
            Some(p) => ancestor(p, n - 1),
            None => None,
        }
    }
}

/// The components of `path` between slashes, empty ones and `.` left out.
pub open spec fn components(path: Seq<char>) -> Seq<Seq<char>>
    decreases path.len(),
{
    if path.len() == 0 {
        Seq::empty()
    } else {
        let i = first_slash(path);
        proof {
            lemma_first_slash_bounds(path);
        }
        let head = path.take(i);
        let rest = if i < path.len() {
            components(path.skip(i + 1))
        } else {
            Seq::empty()
        };
        if head.len() == 0 || head == "."@ {
            rest
        } else {
            seq![head] + rest
        }
    }
}

pub proof fn lemma_first_slash_bounds(s: Seq<char>)
    ensures
        0 <= first_slash(s) <= s.len(),
    decreases s.len(),
{
    if s.len() > 0 && s[0] != '/' {
        lemma_first_slash_bounds(s.skip(1));
    }
}

/// The index of the first `/` of `path`, or its length.
pub open spec fn first_slash(path: Seq<char>) -> int
    decreases path.len(),
{
    if path.len() == 0 {
        0
    } else if path[0] == '/' {
        0
    } else {
        1 + first_slash(path.skip(1))
    }
}

/// The components kept after resolving `..` against `stack`: a `..` drops the
/// last kept component when that is a name, is dropped at the root of a rooted
/// path, and is kept otherwise.
pub open spec fn resolve_dots(stack: Seq<Seq<char>>, parts: Seq<Seq<char>>, rooted: bool) -> Seq<
    Seq<char>,
>
    decreases parts.len(),
{
    if parts.len() == 0 {
        stack
    } else {
        let p = parts[0];
        let next = if p == ".."@ {
            if stack.len() > 0 && stack.last() != ".."@ {
                stack.drop_last()
            } else if rooted {
                stack
            } else {
                stack.push(p)
            }
        } else {
            stack.push(p)
        };
        resolve_dots(next, parts.skip(1), rooted)
    }
}

/// The components joined with `/`.
pub open spec fn join_components(parts: Seq<Seq<char>>) -> Seq<char>
    decreases parts.len(),
{
    if parts.len() == 0 {
        Seq::empty()
    } else if parts.len() == 1 {
        parts[0]
    } else {
        join_components(parts.drop_last()) + "/"@ + parts.last()
    }
}

/// The lexically cleaned path: repeated slashes and `.` components removed, a
/// `..` removing the name before it (and dropped right after the root), `.`
/// for a path that becomes empty.
pub open spec fn cleaned(path: Seq<char>) -> Seq<char> {
    let rooted = path.len() > 0 && path[0] == '/';
    let kept = resolve_dots(Seq::empty(), components(path), rooted);
    let body = join_components(kept);
    if rooted {
        "/"@ + body
    } else if body.len() == 0 {
        "."@
    } else {
        body
    }
}

proof fn lemma_first_slash(s: Seq<char>, m: int)
    requires
        0 <= m <= s.len(),
        forall|k: int| 0 <= k < m ==> s[k] != '/',
        m == s.len() || s[m] == '/',
    ensures
        first_slash(s) == m,
    decreases s.len(),
{
    if s.len() == 0 {
    } else if s[0] == '/' {
    } else {
        lemma_first_slash(s.skip(1), m - 1);
    }
}

/// One step of [`resolve_dots`].
pub open spec fn dots_step(stack: Seq<Seq<char>>, p: Seq<char>, rooted: bool) -> Seq<Seq<char>> {
    if p == ".."@ {
        if stack.len() > 0 && stack.last() != ".."@ {
            stack.drop_last()
        } else if rooted {
            stack
        } else {
            stack.push(p)
        }
    } else {
        stack.push(p)
    }
}

proof fn lemma_resolve_unfold(stack: Seq<Seq<char>>, p: Seq<char>, rest: Seq<Seq<char>>, rooted: bool)
    ensures
        resolve_dots(stack, seq![p] + rest, rooted) == resolve_dots(
            dots_step(stack, p, rooted),
            rest,
            rooted,
        ),
{
    assert((seq![p] + rest)[0] == p);
    assert((seq![p] + rest).skip(1) =~= rest);
}

fn views_of(v: &Vec<String>) -> (r: Ghost<Seq<Seq<char>>>)
    ensures
        r@ == crate::text::views(v@),
{
    Ghost(crate::text::views(v@))
}

/// `os.path.normpath` on a POSIX path: see [`cleaned`].
pub fn clean_path(path: &str) -> (r: String)
    ensures
        r@ == cleaned(path@),
{
    let n = path.unicode_len();
    let rooted = n > 0 && path.get_char(0) == '/';
    let mut stack: Vec<String> = Vec::new();
    let mut i: usize = 0;
    assert(path@.skip(0) =~= path@);
    assert(crate::text::views(stack@) =~= Seq::<Seq<char>>::empty());
    while i < n
        invariant
            n == path@.len(),
            i <= n,
            rooted == (path@.len() > 0 && path@[0] == '/'),
            resolve_dots(crate::text::views(stack@), components(path@.skip(i as int)), rooted)
                == resolve_dots(Seq::empty(), components(path@), rooted),
        decreases n - i,
    {
        let mut j: usize = i;
        while j < n && path.get_char(j) != '/'
            invariant
                n == path@.len(),
                i <= j <= n,
                forall|k: int| i <= k < j ==> path@[k] != '/',
            decreases n - j,
        {
            j = j + 1;
        }
        let ghost rest_path = path@.skip(i as int);
        proof {
            lemma_first_slash(rest_path, (j - i) as int);
            assert(rest_path.take((j - i) as int) =~= path@.subrange(i as int, j as int));
            if j < n {
                assert(rest_path.skip((j - i) + 1) =~= path@.skip(j + 1));
            }
        }
        let part = path.substring_char(i, j);
        let ghost before = crate::text::views(stack@);
        let ghost next_path: Seq<char> = if j < n {
            path@.skip(j + 1)
        } else {
            Seq::empty()
        };
        assert(components(rest_path) == if part@.len() == 0 || part@ == "."@ {
            components(next_path)
        } else {
            seq![part@] + components(next_path)
        });
        if part.unicode_len() == 0 || crate::text::str_eq(part, ".") {
        } else {
            proof {
                lemma_resolve_unfold(before, part@, components(next_path), rooted);
            }
            if crate::text::str_eq(part, "..") {
                let keep_last = stack.len() > 0 && !crate::text::str_eq(
                    stack[stack.len() - 1].as_str(),
                    "..",
                );
                if keep_last {
                    let _ = stack.pop();
                    assert(crate::text::views(stack@) =~= before.drop_last());
                } else if !rooted {
                    stack.push(part.to_string());
                    assert(crate::text::views(stack@) =~= before.push(part@));
                }
            } else {
                stack.push(part.to_string());
                assert(crate::text::views(stack@) =~= before.push(part@));
            }
        }
        if j >= n {
            i = n;
            assert(path@.skip(n as int) =~= Seq::<char>::empty());
        } else {
            i = j + 1;
        }
    }
    assert(path@.skip(n as int) =~= Seq::<char>::empty());
    let ghost kept = crate::text::views(stack@);
    let mut body = String::new();
    let mut k: usize = 0;
    while k < stack.len()
        invariant
            k <= stack.len(),
            kept == crate::text::views(stack@),
            body@ == join_components(kept.take(k as int)),
        decreases stack.len() - k,
    {
        assert(kept.take(k + 1).drop_last() =~= kept.take(k as int));
        assert(kept.take(k + 1).last() == stack@[k as int]@);
        if k == 0 {
            body = stack[k].clone();
        } else {
            let with_slash = crate::text::concat(body.as_str(), "/");
            body = crate::text::concat(with_slash.as_str(), stack[k].as_str());
        }
        k = k + 1;
    }
    assert(kept.take(stack.len() as int) =~= kept);
    if rooted {
        crate::text::concat("/", body.as_str())
    } else if body.unicode_len() == 0 {
        ".".to_string()
    } else {
        body
    }
}

/// The path `path` with its extension set to `ext` by `camino`.
pub uninterp spec fn with_extension(path: Seq<char>, ext: Seq<char>) -> Seq<char>;

/// Whether `camino` finds `base` to be a prefix of `path`, component by component.
pub uninterp spec fn starts_with_path(path: Seq<char>, base: Seq<char>) -> bool;

/// `Utf8Path::with_extension`: the path with its extension replaced (or added).
/// The result is named, not described. The extension holds no path
/// separator, on which `std` panics.
#[verifier::external_body]
pub(crate) fn path_with_extension(path: &str, ext: &str) -> (r: String)
    requires
        !ext@.contains('/'),
        !ext@.contains('\\'),
    ensures
        r@ == with_extension(path@, ext@),
{
    Utf8Path::new(path).with_extension(ext).into_string()
}

/// `Utf8Path::starts_with`: whether `base` is a prefix of `path`, comparing
/// whole components. The result is named, not described.
#[verifier::external_body]
pub(crate) fn path_starts_with(path: &str, base: &str) -> (r: bool)
    ensures
        r == starts_with_path(path@, base@),
{
    Utf8Path::new(path).starts_with(base)
}

/// `Utf8Path`'s `==`: the two paths are equal component by component. The
/// answer is named, not described.
#[verifier::external_body]
pub(crate) fn path_eq(a: &str, b: &str) -> (r: bool)
    ensures
        r == same_path(a@, b@),
{
    Utf8Path::new(a) == Utf8Path::new(b)
}

} // verus!
