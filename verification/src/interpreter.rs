//! The Python interpreter of a project: how it is given, where its executable
//! and its `site-packages` directory are. What exists on disk is handed in as
//! lists of paths; the decisions are made here.
use vstd::prelude::*;
use vstd::string::StrSliceExecFns;

use crate::paths::{joined, path_join};
use crate::text::{compare_str, contains_str, str_lt, views};

verus! {

broadcast use vstd::seq::Seq::group_seq_extra;

/// How the interpreter of a project is given.
#[derive(Clone, Debug, PartialEq)]
pub enum Interpreter {
    /// Found automatically: a virtual environment in the project, else the
    /// system's `python`.
    Auto,
    /// The virtual environment at this path.
    VenvPath(String),
    /// The interpreter executable at this path.
    InterpreterPath(String),
}

impl Interpreter {
    /// The interpreter for an explicit virtual environment path, else for the
    /// `VIRTUAL_ENV` of the environment (`virtual_env`), else found
    /// automatically.
    pub fn discover(venv_path: Option<&str>, virtual_env: Option<String>) -> (r: Interpreter)
        ensures
            match venv_path {
                Some(p) => r matches Interpreter::VenvPath(s) && s@ == p@,
                None => match virtual_env {
                    Some(v) => r matches Interpreter::VenvPath(s) && s@ == v@,
                    None => r is Auto,
                },
            },
    {
        match venv_path {
            Some(p) => Interpreter::VenvPath(p.to_string()),
            None => match virtual_env {
                Some(v) => Interpreter::VenvPath(v),
                None => Interpreter::Auto,
            },
        }
    }
}

/// The virtual environments looked for in a project, in order.
pub open spec fn auto_venvs(root: Seq<char>) -> Seq<Seq<char>> {
    seq![joined(root, ".venv"@), joined(root, "venv"@), joined(root, "env"@), joined(root, ".env"@)]
}

/// The virtual environments looked for in the project at `project_root`.
pub fn auto_venv_paths(project_root: &str) -> (r: Vec<String>)
    ensures
        views(r@) == auto_venvs(project_root@),
{
    let mut r: Vec<String> = Vec::new();
    r.push(path_join(project_root, ".venv"));
    r.push(path_join(project_root, "venv"));
    r.push(path_join(project_root, "env"));
    r.push(path_join(project_root, ".env"));
    assert(views(r@) =~= auto_venvs(project_root@));
    r
}

/// The Python executable of the virtual environment `venv`: `bin/python`, or
/// `Scripts/python.exe` on Windows.
pub open spec fn venv_python(venv: Seq<char>, windows: bool) -> Seq<char> {
    if windows {
        joined(joined(venv, "Scripts"@), "python.exe"@)
    } else {
        joined(joined(venv, "bin"@), "python"@)
    }
}

pub fn python_executable_in_venv(venv: &str, windows: bool) -> (r: String)
    ensures
        r@ == venv_python(venv@, windows),
{
    if windows {
        let scripts = path_join(venv, "Scripts");
        path_join(scripts.as_str(), "python.exe")
    } else {
        let bin = path_join(venv, "bin");
        path_join(bin.as_str(), "python")
    }
}

/// The executable of the first of `venvs` that is a directory holding one.
pub open spec fn first_venv_python(
    venvs: Seq<Seq<char>>,
    windows: bool,
    existing: Seq<Seq<char>>,
    dirs: Seq<Seq<char>>,
) -> Option<Seq<char>>
    decreases venvs.len(),
{
    if venvs.len() == 0 {
        None
    } else if dirs.contains(venvs[0]) && existing.contains(venv_python(venvs[0], windows)) {
        Some(venv_python(venvs[0], windows))
    } else {
        first_venv_python(venvs.drop_first(), windows, existing, dirs)
    }
}

/// The Python executable that an interpreter resolves to: the given path if it
/// exists; the executable of the given virtual environment if it exists; or
/// the executable of the first project virtual environment that has one, else
/// the system's `python`.
pub open spec fn resolved_python(
    interpreter: Interpreter,
    root: Seq<char>,
    windows: bool,
    existing: Seq<Seq<char>>,
    dirs: Seq<Seq<char>>,
    system_python: Option<Seq<char>>,
) -> Option<Seq<char>> {
    match interpreter {
        Interpreter::InterpreterPath(p) => if existing.contains(p@) {
            Some(p@)
        } else {
            None
        },
        Interpreter::VenvPath(v) => if existing.contains(venv_python(v@, windows)) {
            Some(venv_python(v@, windows))
        } else {
            None
        },
        Interpreter::Auto => match first_venv_python(auto_venvs(root), windows, existing, dirs) {
            Some(p) => Some(p),
            None => system_python,
        },
    }
}

impl Interpreter {
    /// The Python executable of the interpreter; `existing` lists the paths
    /// that exist, `dirs` the directories, and `system_python` is the `python`
    /// found on the system's path, if any.
    pub fn python_path(
        &self,
        project_root: &str,
        windows: bool,
        existing: &Vec<String>,
        dirs: &Vec<String>,
        system_python: Option<String>,
    ) -> (r: Option<String>)
        ensures
            crate::paths::opt_view(r) == resolved_python(
                *self,
                project_root@,
                windows,
                views(existing@),
                views(dirs@),
                crate::paths::opt_view(system_python),
            ),
    {
        match self {
            Interpreter::InterpreterPath(path) => {
                if contains_str(existing, path.as_str()) {
                    Some(path.clone())
                } else {
                    None
                }
            },
            Interpreter::VenvPath(venv) => {
                let python = python_executable_in_venv(venv.as_str(), windows);
                if contains_str(existing, python.as_str()) {
                    Some(python)
                } else {
                    None
                }
            },
            Interpreter::Auto => {
                let venvs = auto_venv_paths(project_root);
                let ghost vs = views(venvs@);
                let mut i: usize = 0;
                while i < venvs.len()
                    invariant
                        i <= venvs.len(),
                        vs == views(venvs@),
                        vs == auto_venvs(project_root@),
                        *self == Interpreter::Auto,
                        first_venv_python(vs, windows, views(existing@), views(dirs@)) == first_venv_python(
                            vs.skip(i as int),
                            windows,
                            views(existing@),
                            views(dirs@),
                        ),
                    decreases venvs.len() - i,
                {
                    assert(vs.skip(i as int)[0] == venvs@[i as int]@);
                    assert(vs.skip(i as int).drop_first() =~= vs.skip(i + 1));
                    if contains_str(dirs, venvs[i].as_str()) {
                        let python = python_executable_in_venv(venvs[i].as_str(), windows);
                        if contains_str(existing, python.as_str()) {
                            return Some(python);
                        }
                    }
                    i = i + 1;
                }
                system_python
            },
        }
    }
}

// ---- site-packages ----

pub open spec fn is_digit(c: char) -> bool {
    '0' <= c && c <= '9'
}

/// The value of a string of decimal digits.
pub open spec fn decimal(s: Seq<char>) -> nat
    decreases s.len(),
{
    if s.len() == 0 {
        0
    } else {
        decimal(s.drop_last()) * 10 + (s.last() as nat - '0' as nat) as nat
    }
}

pub open spec fn all_digits(s: Seq<char>) -> bool {
    forall|i: int| 0 <= i < s.len() ==> is_digit(#[trigger] s[i])
}

/// What `str::parse::<u32>` gives: an optional `+`, then at least one digit,
/// the value fitting in 32 bits.
pub open spec fn parsed_u32(s: Seq<char>) -> Option<u32> {
    let body = if s.len() > 0 && s[0] == '+' {
        s.drop_first()
    } else {
        s
    };
    if body.len() > 0 && all_digits(body) && decimal(body) <= u32::MAX {
        Some(decimal(body) as u32)
    } else {
        None
    }
}

proof fn lemma_decimal_grows(s: Seq<char>, i: int, j: int)
    requires
        0 <= i <= j <= s.len(),
        all_digits(s),
    ensures
        decimal(s.take(i)) <= decimal(s.take(j)),
    decreases j - i,
{
    if i < j {
        lemma_decimal_grows(s, i, j - 1);
        assert(s.take(j).drop_last() =~= s.take(j - 1));
        assert(is_digit(s[j - 1]));
        let d = decimal(s.take(j - 1));
        assert(d <= d * 10) by (nonlinear_arith);
    }
}

fn digit_char(c: char) -> (r: bool)
    ensures
        r == is_digit(c),
{
    '0' <= c && c <= '9'
}

/// Parses a decimal `u32` as `str::parse` does.
pub fn parse_u32(s: &str) -> (r: Option<u32>)
    ensures
        r == parsed_u32(s@),
{
    let n = s.unicode_len();
    let mut start: usize = 0;
    if n > 0 && s.get_char(0) == '+' {
        start = 1;
    }
    let ghost body = if s@.len() > 0 && s@[0] == '+' {
        s@.drop_first()
    } else {
        s@
    };
    assert(body =~= s@.skip(start as int));
    if start == n {
        return None;
    }
    let mut value: u64 = 0;
    let mut over = false;
    let mut i: usize = start;
    while i < n
        invariant
            start <= i <= n,
            n == s@.len(),
            body == s@.skip(start as int),
            body == (if s@.len() > 0 && s@[0] == '+' {
                s@.drop_first()
            } else {
                s@
            }),
            forall|k: int| start <= k < i ==> is_digit(#[trigger] s@[k]),
            !over ==> value == decimal(body.take(i - start)),
            over ==> decimal(body.take(i - start)) > u32::MAX,
            value <= u32::MAX,
        decreases n - i,
    {
        let c = s.get_char(i);
        if !('0' <= c && c <= '9') {
            assert(!all_digits(body)) by {
                assert(body[i - start] == c);
            }
            return None;
        }
        let ghost prefix = body.take(i - start);
        assert(body.take(i + 1 - start).drop_last() =~= prefix);
        assert(body.take(i + 1 - start).last() == c);
        if !over {
            let d = (c as u64) - ('0' as u64);
            let next = value * 10 + d;
            if next > 4294967295u64 {
                over = true;
            } else {
                value = next;
            }
        } else {
            assert(decimal(prefix) <= decimal(prefix) * 10) by (nonlinear_arith);
        }
        i = i + 1;
    }
    assert(body.take(n - start) =~= body);
    assert(all_digits(body)) by {
        assert forall|k: int| 0 <= k < body.len() implies is_digit(#[trigger] body[k]) by {
            assert(body[k] == s@[k + start]);
        }
    }
    if over {
        None
    } else {
        Some(value as u32)
    }
}

/// Where the first `c` of `s` is; `s.len()` when there is none.
pub open spec fn first_index_of(s: Seq<char>, c: char) -> int
    decreases s.len(),
{
    if s.len() == 0 {
        0
    } else if first_index_of(s.drop_last(), c) < s.len() - 1 {
        first_index_of(s.drop_last(), c)
    } else if s.last() == c {
        s.len() - 1
    } else {
        s.len() as int
    }
}

/// How many digits `s` starts with.
pub open spec fn leading_digit_count(s: Seq<char>) -> int
    decreases s.len(),
{
    if s.len() == 0 {
        0
    } else if leading_digit_count(s.drop_last()) < s.len() - 1 {
        leading_digit_count(s.drop_last())
    } else if is_digit(s.last()) {
        s.len() as int
    } else {
        s.len() - 1
    }
}

/// The Python version that a `pythonX.Y...` directory name's suffix gives:
/// the major number before the first dot and the digits that start the part
/// after it; none without a dot or when either does not parse.
pub open spec fn python_version(suffix: Seq<char>) -> Option<(u32, u32)> {
    let k = first_index_of(suffix, '.');
    if k >= suffix.len() {
        None
    } else {
        let minor_part = suffix.skip(k + 1);
        let minor_digits = minor_part.take(leading_digit_count(minor_part));
        match (parsed_u32(suffix.take(k)), parsed_u32(minor_digits)) {
            (Some(major), Some(minor)) => if minor_digits.len() > 0 {
                Some((major, minor))
            } else {
                None
            },
            _ => None,
        }
    }
}

proof fn lemma_first_index_of(s: Seq<char>, c: char)
    ensures
        0 <= first_index_of(s, c) <= s.len(),
        first_index_of(s, c) < s.len() ==> s[first_index_of(s, c)] == c,
        forall|i: int| 0 <= i < first_index_of(s, c) ==> s[i] != c,
    decreases s.len(),
{
    if s.len() > 0 {
        lemma_first_index_of(s.drop_last(), c);
        assert forall|i: int| 0 <= i < s.len() - 1 implies s.drop_last()[i] == s[i] by {}
    }
}

proof fn lemma_first_index_at(s: Seq<char>, c: char, k: int)
    requires
        0 <= k <= s.len(),
        k < s.len() ==> s[k] == c,
        forall|i: int| 0 <= i < k ==> s[i] != c,
    ensures
        first_index_of(s, c) == k,
    decreases s.len(),
{
    if s.len() > 0 {
        if k < s.len() {
            if k < s.len() - 1 {
                lemma_first_index_at(s.drop_last(), c, k);
            } else {
                lemma_first_index_at(s.drop_last(), c, k);
            }
        } else {
            lemma_first_index_at(s.drop_last(), c, k - 1);
        }
    }
}

proof fn lemma_leading_digits_at(s: Seq<char>, k: int)
    requires
        0 <= k <= s.len(),
        k < s.len() ==> !is_digit(s[k]),
        forall|i: int| 0 <= i < k ==> is_digit(s[i]),
    ensures
        leading_digit_count(s) == k,
    decreases s.len(),
{
    if s.len() > 0 {
        if k < s.len() {
            lemma_leading_digits_at(s.drop_last(), if k < s.len() - 1 { k } else { k });
        } else {
            lemma_leading_digits_at(s.drop_last(), k - 1);
        }
    }
}

/// The Python version a `python...` directory suffix names.
pub fn parse_python_version(suffix: &str) -> (r: Option<(u32, u32)>)
    ensures
        r == python_version(suffix@),
{
    let n = suffix.unicode_len();
    let mut k: usize = 0;
    while k < n && suffix.get_char(k) != '.'
        invariant
            k <= n,
            n == suffix@.len(),
            forall|i: int| 0 <= i < k ==> suffix@[i] != '.',
        decreases n - k,
    {
        k = k + 1;
    }
    proof {
        lemma_first_index_at(suffix@, '.', k as int);
    }
    if k >= n {
        return None;
    }
    let major = suffix.substring_char(0, k);
    let minor_part = suffix.substring_char(k + 1, n);
    let m = minor_part.unicode_len();
    let mut j: usize = 0;
    while j < m && digit_char(minor_part.get_char(j))
        invariant
            j <= m,
            m == minor_part@.len(),
            forall|i: int| 0 <= i < j ==> is_digit(minor_part@[i]),
        decreases m - j,
    {
        j = j + 1;
    }
    proof {
        lemma_leading_digits_at(minor_part@, j as int);
    }
    let minor_digits = minor_part.substring_char(0, j);
    assert(minor_part@ =~= suffix@.skip(k + 1));
    assert(major@ =~= suffix@.take(k as int));
    match (parse_u32(major), parse_u32(minor_digits)) {
        (Some(a), Some(b)) => if j > 0 {
            Some((a, b))
        } else {
            None
        },
        _ => None,
    }
}

/// A Python version, or none, ordered with none first.
pub open spec fn version_lt(a: Option<(u32, u32)>, b: Option<(u32, u32)>) -> bool {
    match (a, b) {
        (None, Some(_)) => true,
        (Some(x), Some(y)) => x.0 < y.0 || (x.0 == y.0 && x.1 < y.1),
        _ => false,
    }
}

/// The order of `site-packages` candidates: by version, then by directory name.
pub open spec fn site_le(a: (Option<(u32, u32)>, Seq<char>), b: (Option<(u32, u32)>, Seq<char>)) -> bool {
    version_lt(a.0, b.0) || (a.0 == b.0 && (str_lt(a.1, b.1) || a.1 == b.1))
}

/// A `site-packages` candidate: the version, the `python...` directory name and
/// the `site-packages` path.
pub type SiteCandidate = (Option<(u32, u32)>, Seq<char>, Seq<char>);

/// The `site-packages` directories under the `lib` directory `lib` with
/// entries `entries` (name, is a directory): those of its `python...`
/// directories that hold one, in order.
pub open spec fn site_candidates(lib: Seq<char>, entries: Seq<(Seq<char>, bool)>, dirs: Seq<Seq<char>>) -> Seq<
    SiteCandidate,
>
    decreases entries.len(),
{
    if entries.len() == 0 {
        Seq::empty()
    } else {
        let rest = site_candidates(lib, entries.drop_last(), dirs);
        let e = entries.last();
        let site = joined(joined(lib, e.0), "site-packages"@);
        if e.1 && e.0.len() >= 6 && e.0.take(6) == "python"@ && dirs.contains(site) {
            rest.push((python_version(e.0.skip(6)), e.0, site))
        } else {
            rest
        }
    }
}

/// The greatest candidate by [`site_le`]; of equal ones the last.
pub open spec fn best_site(cs: Seq<SiteCandidate>) -> Option<SiteCandidate>
    decreases cs.len(),
{
    if cs.len() == 0 {
        None
    } else {
        match best_site(cs.drop_last()) {
            None => Some(cs.last()),
            Some(b) => if site_le((b.0, b.1), (cs.last().0, cs.last().1)) {
                Some(cs.last())
            } else {
                Some(b)
            },
        }
    }
}

/// The entries listed for `dir`; none when it was not listed.
pub open spec fn listing_of(listings: Seq<(String, Vec<(String, bool)>)>, dir: Seq<char>) -> Seq<(Seq<char>, bool)>
    decreases listings.len(),
{
    if listings.len() == 0 {
        Seq::empty()
    } else if listings[0].0@ == dir {
        listings[0].1@.map_values(|e: (String, bool)| (e.0@, e.1))
    } else {
        listing_of(listings.drop_first(), dir)
    }
}

/// The `site-packages` directory of the virtual environment `venv`: on
/// Windows `Lib/site-packages` when it exists; else the one under the newest
/// `lib/pythonX.Y`; else `Lib/site-packages` when it exists.
pub open spec fn venv_site_packages(
    venv: Seq<char>,
    windows: bool,
    dirs: Seq<Seq<char>>,
    listings: Seq<(String, Vec<(String, bool)>)>,
) -> Option<Seq<char>> {
    let win = joined(joined(venv, "Lib"@), "site-packages"@);
    if windows && dirs.contains(win) {
        Some(win)
    } else {
        let lib = joined(venv, "lib"@);
        let entries = if dirs.contains(lib) {
            listing_of(listings, lib)
        } else {
            Seq::empty()
        };
        match best_site(site_candidates(lib, entries, dirs)) {
            Some(b) => Some(b.2),
            None => if dirs.contains(win) {
                Some(win)
            } else {
                None
            },
        }
    }
}

fn listing_for<'a>(listings: &'a Vec<(String, Vec<(String, bool)>)>, dir: &str) -> (r: Option<&'a Vec<(String, bool)>>)
    ensures
        match r {
            Some(v) => v@.map_values(|e: (String, bool)| (e.0@, e.1)) == listing_of(listings@, dir@),
            None => listing_of(listings@, dir@).len() == 0,
        },
{
    let mut i: usize = 0;
    while i < listings.len()
        invariant
            i <= listings.len(),
            listing_of(listings@, dir@) == listing_of(listings@.skip(i as int), dir@),
        decreases listings.len() - i,
    {
        assert(listings@.skip(i as int)[0] == listings@[i as int]);
        assert(listings@.skip(i as int).drop_first() =~= listings@.skip(i + 1));
        if crate::text::str_eq(listings[i].0.as_str(), dir) {
            return Some(&listings[i].1);
        }
        i = i + 1;
    }
    None
}

fn site_le_exec(a: &Option<(u32, u32)>, an: &str, b: &Option<(u32, u32)>, bn: &str) -> (r: bool)
    ensures
        r == site_le((*a, an@), (*b, bn@)),
{
    let same_version = match (a, b) {
        (None, None) => true,
        (Some(x), Some(y)) => x.0 == y.0 && x.1 == y.1,
        _ => false,
    };
    let lt = match (a, b) {
        (None, Some(_)) => true,
        (Some(x), Some(y)) => x.0 < y.0 || (x.0 == y.0 && x.1 < y.1),
        _ => false,
    };
    if lt {
        true
    } else if same_version {
        compare_str(an, bn) <= 0
    } else {
        false
    }
}

/// The `site-packages` directory of the virtual environment `venv`. `dirs`
/// lists the directories that exist and `listings` the entries (name, whether
/// it is a directory) of each directory that was listed.
pub fn site_packages_path_in_venv(
    venv: &str,
    windows: bool,
    dirs: &Vec<String>,
    listings: &Vec<(String, Vec<(String, bool)>)>,
) -> (r: Option<String>)
    ensures
        crate::paths::opt_view(r) == venv_site_packages(venv@, windows, views(dirs@), listings@),
{
    let lib_upper = path_join(venv, "Lib");
    let windows_site_packages = path_join(lib_upper.as_str(), "site-packages");
    if windows && contains_str(dirs, windows_site_packages.as_str()) {
        return Some(windows_site_packages);
    }
    let lib_dir = path_join(venv, "lib");
    let empty: Vec<(String, bool)> = Vec::new();
    let entries: &Vec<(String, bool)> = if contains_str(dirs, lib_dir.as_str()) {
        match listing_for(listings, lib_dir.as_str()) {
            Some(v) => v,
            None => &empty,
        }
    } else {
        &empty
    };
    let ghost ev = entries@.map_values(|e: (String, bool)| (e.0@, e.1));
    proof {
        reveal_strlit("python");
    }
    assert(ev =~= (if views(dirs@).contains(lib_dir@) {
        listing_of(listings@, lib_dir@)
    } else {
        Seq::empty()
    }));
    let mut best: Option<(Option<(u32, u32)>, String, String)> = None;
    let mut i: usize = 0;
    while i < entries.len()
        invariant
            i <= entries.len(),
            ev == entries@.map_values(|e: (String, bool)| (e.0@, e.1)),
            match best {
                Some(b) => best_site(site_candidates(lib_dir@, ev.take(i as int), views(dirs@))) == Some(
                    (b.0, b.1@, b.2@),
                ),
                None => best_site(site_candidates(lib_dir@, ev.take(i as int), views(dirs@))) is None,
            },
        decreases entries.len() - i,
    {
        assert(ev.take(i + 1).drop_last() =~= ev.take(i as int));
        assert(ev.take(i + 1).last() == (entries@[i as int].0@, entries@[i as int].1));
        let name = &entries[i].0;
        let is_dir = entries[i].1;
        let site_dir = path_join(name_dir(lib_dir.as_str(), name.as_str()).as_str(), "site-packages");
        let n = name.unicode_len();
        let is_python = n >= 6 && crate::text::str_eq(name.substring_char(0, 6), "python");
        assert(is_python == (name@.len() >= 6 && name@.take(6) == "python"@)) by {
            if n >= 6 {
                assert(name@.subrange(0, 6) =~= name@.take(6));
            }
        }
        let ghost prev = site_candidates(lib_dir@, ev.take(i as int), views(dirs@));
        let ghost next = site_candidates(lib_dir@, ev.take(i + 1), views(dirs@));
        assert(site_dir@ == joined(joined(lib_dir@, name@), "site-packages"@));
        if is_dir && is_python && contains_str(dirs, site_dir.as_str()) {
            let version = parse_python_version(name.substring_char(6, n));
            assert(next == prev.push((version, name@, site_dir@)));
            assert(next.drop_last() =~= prev);
            assert(name@.subrange(6, n as int) =~= name@.skip(6));
            let take = match &best {
                None => true,
                Some(b) => site_le_exec(&b.0, b.1.as_str(), &version, name.as_str()),
            };
            if take {
                let ghost c = (version, name@, site_dir@);
                assert(best_site(next) == Some(c));
                let owned = name.clone();
                assert(owned@ == name@);
                best = Some((version, owned, site_dir));
            } else {
                assert(best_site(next) == best_site(prev));
            }
        } else {
            assert(next == prev);
        }
        i = i + 1;
    }
    assert(ev.take(i as int) =~= ev);
    match best {
        Some(b) => Some(b.2),
        None => {
            if contains_str(dirs, windows_site_packages.as_str()) {
                Some(windows_site_packages)
            } else {
                None
            }
        },
    }
}

/// `dir` joined with `name`.
fn name_dir(dir: &str, name: &str) -> (r: String)
    ensures
        r@ == joined(dir@, name@),
{
    path_join(dir, name)
}

/// The `site-packages` directory of the first project virtual environment
/// that is a directory and has one.
pub open spec fn first_venv_site_packages(
    venvs: Seq<Seq<char>>,
    windows: bool,
    dirs: Seq<Seq<char>>,
    listings: Seq<(String, Vec<(String, bool)>)>,
) -> Option<Seq<char>>
    decreases venvs.len(),
{
    if venvs.len() == 0 {
        None
    } else if dirs.contains(venvs[0]) && venv_site_packages(venvs[0], windows, dirs, listings) is Some {
        venv_site_packages(venvs[0], windows, dirs, listings)
    } else {
        first_venv_site_packages(venvs.drop_first(), windows, dirs, listings)
    }
}

impl Interpreter {
    /// The `site-packages` directory of the interpreter's environment: that of
    /// the given virtual environment, or of the first project virtual
    /// environment that has one; none for a bare interpreter path.
    pub fn site_packages_path(
        &self,
        project_root: &str,
        windows: bool,
        dirs: &Vec<String>,
        listings: &Vec<(String, Vec<(String, bool)>)>,
    ) -> (r: Option<String>)
        ensures
            crate::paths::opt_view(r) == match *self {
                Interpreter::VenvPath(v) => venv_site_packages(v@, windows, views(dirs@), listings@),
                Interpreter::Auto => first_venv_site_packages(auto_venvs(project_root@), windows, views(dirs@), listings@),
                Interpreter::InterpreterPath(_) => None,
            },
    {
        match self {
            Interpreter::VenvPath(venv) => site_packages_path_in_venv(venv.as_str(), windows, dirs, listings),
            Interpreter::Auto => {
                let venvs = auto_venv_paths(project_root);
                let ghost vs = views(venvs@);
                let mut i: usize = 0;
                while i < venvs.len()
                    invariant
                        i <= venvs.len(),
                        vs == views(venvs@),
                        vs == auto_venvs(project_root@),
                        *self == Interpreter::Auto,
                        first_venv_site_packages(vs, windows, views(dirs@), listings@) == first_venv_site_packages(
                            vs.skip(i as int),
                            windows,
                            views(dirs@),
                            listings@,
                        ),
                    decreases venvs.len() - i,
                {
                    assert(vs.skip(i as int)[0] == venvs@[i as int]@);
                    assert(vs.skip(i as int).drop_first() =~= vs.skip(i + 1));
                    if contains_str(dirs, venvs[i].as_str()) {
                        let found = site_packages_path_in_venv(venvs[i].as_str(), windows, dirs, listings);
                        if found.is_some() {
                            return found;
                        }
                    }
                    i = i + 1;
                }
                None
            },
            Interpreter::InterpreterPath(_) => None,
        }
    }
}

} // verus!
