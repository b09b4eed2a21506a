//! Resolving Python module names: relative imports, module search paths, and
//! the files a module name can live in.
use vstd::prelude::*;
use vstd::string::StrSliceExecFns;

use crate::facts::{
    reason_views, Confidence, ReasonView, SourceView, Fact, Field, ModuleLocation, ModuleResolution, ModuleSearchPathEntry, ModuleSearchPathKind,
    Reason, ReasonSource, ResolvedModule,
};
use crate::names::{is_dotted_name, name_error_message, PyModuleName};
use crate::paths::{
    components_of, extension_of, file_name_of, path_components, path_extension, path_file_name,
    path_strip_prefix, stripped_prefix, path_starts_with, path_with_extension, starts_with_path, with_extension,
    is_absolute_path, joined, opt_view, parent_of, path_is_absolute, path_join, path_parent, path_eq, same_path,
};
use crate::text::{concat, contains_str, str_eq, views};

verus! {

broadcast use vstd::seq::Seq::group_seq_extra;

/// The parts of `s` between the characters `c`; always at least one part.
pub open spec fn split_at_char(s: Seq<char>, c: char) -> Seq<Seq<char>>
    decreases s.len(),
{
    if s.len() == 0 {
        seq![Seq::empty()]
    } else {
        let rest = split_at_char(s.drop_last(), c);
        if s.last() == c {
            rest.push(Seq::empty())
        } else {
            rest.update(rest.len() - 1, rest.last().push(s.last()))
        }
    }
}

pub proof fn lemma_split_nonempty(s: Seq<char>, c: char)
    ensures
        split_at_char(s, c).len() >= 1,
    decreases s.len(),
{
    if s.len() > 0 {
        lemma_split_nonempty(s.drop_last(), c);
    }
}

/// The parts joined with `c` between them.
pub open spec fn join_with(parts: Seq<Seq<char>>, c: char) -> Seq<char>
    decreases parts.len(),
{
    if parts.len() == 0 {
        Seq::empty()
    } else if parts.len() == 1 {
        parts[0]
    } else {
        join_with(parts.drop_last(), c) + seq![c] + parts.last()
    }
}

/// The parts of `s` between the characters `c`.
pub fn split_char(s: &str, c: char) -> (r: Vec<String>)
    ensures
        views(r@) == split_at_char(s@, c),
{
    let n = s.unicode_len();
    let mut parts: Vec<String> = Vec::new();
    let mut start: usize = 0;
    let mut i: usize = 0;
    assert(s@.take(0) =~= Seq::<char>::empty());
    assert(s@.subrange(0, 0) =~= Seq::<char>::empty());
    assert(views(parts@) =~= Seq::<Seq<char>>::empty());
    assert(views(parts@) + seq![s@.subrange(0, 0)] =~= seq![Seq::<char>::empty()]);
    while i < n
        invariant
            n == s@.len(),
            start <= i <= n,
            views(parts@) + seq![s@.subrange(start as int, i as int)] == split_at_char(
                s@.take(i as int),
                c,
            ),
        decreases n - i,
    {
        let ghost prefix = s@.take(i as int);
        assert(s@.take(i + 1).drop_last() =~= prefix);
        assert(s@.take(i + 1).last() == s@[i as int]);
        proof {
            lemma_split_nonempty(prefix, c);
        }
        if s.get_char(i) == c {
            let part = s.substring_char(start, i).to_string();
            let ghost before = views(parts@);
            parts.push(part);
            assert(views(parts@) =~= before.push(part@));
            assert(s@.subrange((i + 1) as int, (i + 1) as int) =~= Seq::<char>::empty());
            assert(views(parts@) + seq![s@.subrange((i + 1) as int, (i + 1) as int)] =~= (before
                + seq![s@.subrange(start as int, i as int)]).push(Seq::empty()));
            start = i + 1;
        } else {
            let ghost before = views(parts@);
            assert(s@.subrange(start as int, i + 1) =~= s@.subrange(start as int, i as int).push(
                s@[i as int],
            ));
            assert(before + seq![s@.subrange(start as int, i + 1)] =~= (before + seq![
                s@.subrange(start as int, i as int),
            ]).update(before.len() as int, s@.subrange(start as int, i as int).push(s@[i as int])));
        }
        i = i + 1;
    }
    assert(s@.take(n as int) =~= s@);
    let last = s.substring_char(start, n).to_string();
    let ghost before = views(parts@);
    parts.push(last);
    assert(views(parts@) =~= before.push(last@));
    parts
}

/// The strings joined with `sep` between them.
pub fn join_strings(parts: &Vec<String>, sep: &str) -> (r: String)
    requires
        sep@.len() == 1,
    ensures
        r@ == join_with(views(parts@), sep@[0]),
{
    let mut out = String::new();
    let mut k: usize = 0;
    while k < parts.len()
        invariant
            k <= parts.len(),
            sep@.len() == 1,
            out@ == join_with(views(parts@).take(k as int), sep@[0]),
        decreases parts.len() - k,
    {
        assert(views(parts@).take(k + 1).drop_last() =~= views(parts@).take(k as int));
        assert(views(parts@).take(k + 1).last() == parts@[k as int]@);
        if k == 0 {
            out = parts[k].clone();
        } else {
            let with_sep = concat(out.as_str(), sep);
            assert(sep@ =~= seq![sep@[0]]);
            out = concat(with_sep.as_str(), parts[k].as_str());
        }
        k = k + 1;
    }
    assert(views(parts@).take(parts.len() as int) =~= views(parts@));
    out
}

/// ASCII whitespace, as `str::trim` removes it for the names handled here.
pub open spec fn is_space(c: char) -> bool {
    c == ' ' || c == '\t' || c == '\n' || c == '\r'
}

/// `s` without leading and trailing whitespace.
pub open spec fn trimmed(s: Seq<char>) -> Seq<char>
    decreases s.len(),
{
    if s.len() == 0 {
        s
    } else if is_space(s[0]) {
        trimmed(s.skip(1))
    } else if is_space(s.last()) {
        trimmed(s.drop_last())
    } else {
        s
    }
}

/// `s` without leading and trailing whitespace.
pub fn trim(s: &str) -> (r: String)
    ensures
        r@ == trimmed(s@),
{
    let n = s.unicode_len();
    let mut a: usize = 0;
    let mut b: usize = n;
    while a < b && (s.get_char(a) == ' ' || s.get_char(a) == '\t' || s.get_char(a) == '\n'
        || s.get_char(a) == '\r')
        invariant
            n == s@.len(),
            a <= b == n,
            trimmed(s@) == trimmed(s@.subrange(a as int, b as int)),
        decreases b - a,
    {
        assert(s@.subrange(a as int, b as int).skip(1) =~= s@.subrange(a + 1, b as int));
        a = a + 1;
    }
    while a < b && (s.get_char(b - 1) == ' ' || s.get_char(b - 1) == '\t' || s.get_char(b - 1)
        == '\n' || s.get_char(b - 1) == '\r')
        invariant
            n == s@.len(),
            a <= b <= n,
            a < b ==> !is_space(s@[a as int]),
            trimmed(s@) == trimmed(s@.subrange(a as int, b as int)),
        decreases b - a,
    {
        let ghost sub = s@.subrange(a as int, b as int);
        assert(sub.drop_last() =~= s@.subrange(a as int, b - 1));
        assert(sub[0] == s@[a as int]);
        b = b - 1;
    }
    let ghost sub = s@.subrange(a as int, b as int);
    if a < b {
        assert(sub[0] == s@[a as int]);
        assert(sub.last() == s@[b - 1]);
    }
    s.substring_char(a, b).to_string()
}

/// `r` is unknown for exactly one reason about `module`, saying `message`.
pub open spec fn unknown_for_module<T>(
    r: Fact<T>,
    field: Field,
    module: PyModuleName,
    message: Seq<char>,
) -> bool {
    r matches Fact::Unknown { reasons } && reasons@.len() == 1 && reasons@[0].field == field
        && reasons@[0].source == ReasonSource::Module(module) && reasons@[0].message@ == message
}

/// The parts a relative import at `level` from `current` starts from: the
/// package of `current`, then `level - 1` packages up.
pub open spec fn relative_base(current: Seq<char>, level: nat) -> Seq<Seq<char>> {
    let package = split_at_char(current, '.').drop_last();
    package.take(package.len() - (level - 1))
}

/// The module path a relative import resolves to, as parts.
pub open spec fn relative_target(current: Seq<char>, level: nat, module: Option<Seq<char>>) -> Seq<
    Seq<char>,
> {
    let base = relative_base(current, level);
    match module {
        Some(m) => if trimmed(m).len() > 0 {
            base + split_at_char(trimmed(m), '.')
        } else {
            base
        },
        None => base,
    }
}

/// The module that `from <dots><module> import ...` at `level` dots names from
/// `current_module`: known when it is a valid module path; unknown for a level
/// of zero, a level above the top-level package, an empty result or an invalid
/// module path.
pub open spec fn relative_import_fact(
    current: PyModuleName,
    level: usize,
    module: Option<Seq<char>>,
    r: Fact<PyModuleName>,
) -> bool {
    let f = Field::ResolverRelativeImport;
    let package_len = split_at_char(current@, '.').len() - 1;
    if level == 0 {
        unknown_for_module(r, f, current, "relative import level must be greater than zero"@)
    } else if level > package_len + 1 {
        unknown_for_module(r, f, current, "relative import escapes the top-level package"@)
    } else {
        let target = relative_target(current@, level as nat, module);
        if target.len() == 0 {
            unknown_for_module(r, f, current, "relative import does not resolve to a module path"@)
        } else {
            let joined_target = join_with(target, '.');
            if is_dotted_name(joined_target) {
                r matches Fact::Known { value } && value@ == joined_target
            } else {
                unknown_for_module(
                    r,
                    f,
                    current,
                    "relative import resolves to an invalid module path: "@ + name_error_message(
                        joined_target,
                    ),
                )
            }
        }
    }
}

/// No part of a split holds the separator.
proof fn lemma_split_parts_lack_separator(s: Seq<char>, c: char)
    ensures
        split_at_char(s, c).len() >= 1,
        forall|i: int| 0 <= i < split_at_char(s, c).len() ==> !(#[trigger] split_at_char(s, c)[i]).contains(c),
    decreases s.len(),
{
    lemma_split_nonempty(s, c);
    if s.len() > 0 {
        lemma_split_parts_lack_separator(s.drop_last(), c);
        let rest = split_at_char(s.drop_last(), c);
        if s.last() != c {
            let last = rest.last().push(s.last());
            assert(!last.contains(c)) by {
                if last.contains(c) {
                    let j = choose|j: int| 0 <= j < last.len() && last[j] == c;
                    if j < last.len() - 1 {
                        assert(rest.last()[j] == c);
                        assert(rest[rest.len() - 1].contains(c));
                    }
                }
            }
        }
    }
}

/// Appending text without the separator extends the last part.
proof fn lemma_split_append_plain(y: Seq<char>, l: Seq<char>, c: char)
    requires
        !l.contains(c),
    ensures
        split_at_char(y + l, c) == split_at_char(y, c).update(
            split_at_char(y, c).len() - 1,
            split_at_char(y, c).last() + l,
        ),
    decreases l.len(),
{
    lemma_split_nonempty(y, c);
    if l.len() == 0 {
        assert(y + l =~= y);
        assert(split_at_char(y, c).last() + l =~= split_at_char(y, c).last());
        assert(split_at_char(y, c).update(split_at_char(y, c).len() - 1, split_at_char(y, c).last())
            =~= split_at_char(y, c));
    } else {
        let l0 = l.drop_last();
        assert(!l0.contains(c)) by {
            if l0.contains(c) {
                let j = choose|j: int| 0 <= j < l0.len() && l0[j] == c;
                assert(l[j] == c);
            }
        }
        assert(l[l.len() - 1] != c);
        lemma_split_append_plain(y, l0, c);
        assert((y + l).drop_last() =~= y + l0);
        assert((y + l).last() == l.last());
        let r0 = split_at_char(y, c);
        assert(split_at_char(y + l0, c).len() == r0.len());
        assert(split_at_char(y + l0, c).last() == r0.last() + l0);
        assert((r0.last() + l0).push(l.last()) =~= r0.last() + l);
        assert(split_at_char(y + l, c) =~= r0.update(r0.len() - 1, r0.last() + l));
    }
}

/// Splitting parts joined with a separator none of them holds gives the
/// parts back.
proof fn lemma_split_join(parts: Seq<Seq<char>>, c: char)
    requires
        parts.len() >= 1,
        forall|i: int| 0 <= i < parts.len() ==> !(#[trigger] parts[i]).contains(c),
    ensures
        split_at_char(join_with(parts, c), c) == parts,
    decreases parts.len(),
{
    if parts.len() == 1 {
        lemma_split_append_plain(Seq::empty(), parts[0], c);
        assert(Seq::<char>::empty() + parts[0] =~= parts[0]);
        assert(split_at_char(Seq::<char>::empty(), c) =~= seq![Seq::<char>::empty()]);
        assert(Seq::<char>::empty() + parts[0] =~= parts[0]);
        assert(split_at_char(parts[0], c) =~= parts);
    } else {
        let front = parts.drop_last();
        lemma_split_join(front, c);
        let y = join_with(front, c) + seq![c];
        assert(y.drop_last() =~= join_with(front, c));
        assert(y.last() == c);
        assert(split_at_char(y, c) == front.push(Seq::<char>::empty()));
        assert(!parts[parts.len() - 1].contains(c));
        lemma_split_append_plain(y, parts.last(), c);
        assert(join_with(parts, c) == y + parts.last());
        assert(Seq::<char>::empty() + parts.last() =~= parts.last());
        assert(split_at_char(join_with(parts, c), c) =~= parts);
    }
}

/// The parts that `module` adds to a relative import: none without a module
/// or for an empty one.
pub open spec fn module_parts(module: Option<Seq<char>>) -> Seq<Seq<char>> {
    match module {
        Some(m) => if trimmed(m).len() > 0 {
            split_at_char(trimmed(m), '.')
        } else {
            Seq::empty()
        },
        None => Seq::empty(),
    }
}

/// A relative import at level `level` from module `current` resolves, when it
/// does, to the first `k - level` components of `current` (of its `k`) followed
/// by the components of the imported module.
pub proof fn law_relative_import_drops_level_components(
    current: PyModuleName,
    level: usize,
    module: Option<Seq<char>>,
    r: Fact<PyModuleName>,
)
    requires
        relative_import_fact(current, level, module, r),
        r is Known,
    ensures
        1 <= level <= split_at_char(current@, '.').len(),
        r matches Fact::Known { value } && split_at_char(value@, '.') == split_at_char(current@, '.').take(
            split_at_char(current@, '.').len() - level,
        ) + module_parts(module),
{
    let parts = split_at_char(current@, '.');
    lemma_split_parts_lack_separator(current@, '.');
    let package = parts.drop_last();
    let base = relative_base(current@, level as nat);
    assert(base =~= parts.take(parts.len() - level));
    let target = relative_target(current@, level as nat, module);
    assert(target == base + module_parts(module));
    match module {
        Some(m) => lemma_split_parts_lack_separator(trimmed(m), '.'),
        None => {},
    }
    assert forall|i: int| 0 <= i < target.len() implies !(#[trigger] target[i]).contains('.') by {
        if i < base.len() {
            assert(target[i] == parts[i]);
        } else {
            assert(target[i] == module_parts(module)[i - base.len()]);
        }
    }
    lemma_split_join(target, '.');
}

/// Resolves a relative import: see [`relative_import_fact`].
pub fn resolve_relative_import_module(
    current_module: &PyModuleName,
    level: usize,
    module: Option<&str>,
) -> (r: Fact<PyModuleName>)
    ensures
        relative_import_fact(
            *current_module,
            level,
            match module {
                Some(m) => Some(m@),
                None => None,
            },
            r,
        ),
{
    let f = Field::ResolverRelativeImport;
    if level == 0 {
        return Fact::Unknown {
            reasons: vec![
                Reason::module(
                    f,
                    current_module.duplicate(),
                    "relative import level must be greater than zero",
                ),
            ],
        };
    }
    let mut parts = split_char(current_module.as_str(), '.');
    proof {
        lemma_split_nonempty(current_module@, '.');
    }
    let ghost all = views(parts@);
    let _ = parts.pop();
    assert(views(parts@) =~= all.drop_last());
    if level - 1 > parts.len() {
        return Fact::Unknown {
            reasons: vec![
                Reason::module(
                    f,
                    current_module.duplicate(),
                    "relative import escapes the top-level package",
                ),
            ],
        };
    }
    let ghost package = views(parts@);
    let mut k: usize = 1;
    while k < level
        invariant
            1 <= k <= level,
            level <= package.len() + 1,
            views(parts@) == package.take(package.len() - (k - 1)),
        decreases level - k,
    {
        let ghost before = views(parts@);
        let _ = parts.pop();
        assert(views(parts@) =~= before.drop_last());
        assert(before.drop_last() =~= package.take(package.len() - k));
        k = k + 1;
    }
    assert(views(parts@) == relative_base(current_module@, level as nat));
    match module {
        Some(m) => {
            let t = trim(m);
            if t.unicode_len() > 0 {
                let mut more = split_char(t.as_str(), '.');
                let ghost before = views(parts@);
                parts.append(&mut more);
                assert(views(parts@) =~= before + split_at_char(t@, '.'));
            }
        },
        None => {},
    }
    if parts.len() == 0 {
        return Fact::Unknown {
            reasons: vec![
                Reason::module(
                    f,
                    current_module.duplicate(),
                    "relative import does not resolve to a module path",
                ),
            ],
        };
    }
    proof {
        reveal_strlit(".");
    }
    let target = join_strings(&parts, ".");
    match PyModuleName::parse(target.as_str()) {
        Ok(t) => Fact::Known { value: t },
        Err(e) => {
            let msg = e.message();
            let message = concat("relative import resolves to an invalid module path: ", msg.as_str());
            Fact::Unknown {
                reasons: vec![Reason::module(f, current_module.duplicate(), message.as_str())],
            }
        },
    }
}

/// The paths of `.pth` lines: trimmed, without empty lines, comments and
/// `import` lines.
pub open spec fn pth_line_kept(line: Seq<char>) -> bool {
    let t = trimmed(line);
    t.len() > 0 && t[0] != '#' && !(t.len() >= 7 && t.take(7) == "import "@)
}

pub open spec fn pth_lines_spec(lines: Seq<Seq<char>>) -> Seq<Seq<char>>
    decreases lines.len(),
{
    if lines.len() == 0 {
        Seq::empty()
    } else {
        let rest = pth_lines_spec(lines.drop_last());
        if pth_line_kept(lines.last()) {
            rest.push(trimmed(lines.last()))
        } else {
            rest
        }
    }
}

/// The path entries of the contents of a `.pth` file, one per kept line.
pub fn pth_lines(contents: &str) -> (r: Vec<String>)
    ensures
        views(r@) == pth_lines_spec(split_at_char(contents@, '\n')),
{
    let lines = split_char(contents, '\n');
    let mut out: Vec<String> = Vec::new();
    let mut i: usize = 0;
    proof {
        reveal_strlit("import ");
    }
    while i < lines.len()
        invariant
            i <= lines.len(),
            views(out@) == pth_lines_spec(views(lines@).take(i as int)),
            "import "@.len() == 7,
        decreases lines.len() - i,
    {
        assert(views(lines@).take(i + 1).drop_last() =~= views(lines@).take(i as int));
        assert(views(lines@).take(i + 1).last() == lines@[i as int]@);
        let t = trim(lines[i].as_str());
        let n = t.unicode_len();
        let keep = if n == 0 {
            false
        } else if t.get_char(0) == '#' {
            false
        } else if n >= 7 && str_eq(t.substring_char(0, 7), "import ") {
            false
        } else {
            true
        };
        assert(n >= 7 ==> t@.subrange(0, 7) =~= t@.take(7));
        if keep {
            let ghost before = views(out@);
            out.push(t);
            assert(views(out@) =~= before.push(trimmed(lines@[i as int]@)));
        }
        i = i + 1;
    }
    assert(views(lines@).take(lines.len() as int) =~= views(lines@));
    out
}

/// What the file system says about a site-packages directory: whether it is a
/// directory and, when it could be listed, its `.pth` files in sorted order,
/// each with its contents when it could be read.
#[derive(Clone, Debug)]
pub struct SitePackagesProbe {
    pub path: String,
    pub pth_files: Option<Vec<(String, Option<String>)>>,
}

/// One step of discovering the module search paths.
pub enum SearchStep {
    /// A directory to search, of a kind.
    Add(ModuleSearchPathKind, String),
    /// A problem with a path; `is_file` when the path names a file.
    Problem { path: String, message: String, is_file: bool },
}

pub enum SearchStepView {
    Add(ModuleSearchPathKind, Seq<char>),
    Problem(Seq<char>, Seq<char>, bool),
}

impl View for SearchStep {
    type V = SearchStepView;

    open spec fn view(&self) -> SearchStepView {
        match self {
            SearchStep::Add(k, p) => SearchStepView::Add(*k, p@),
            SearchStep::Problem { path, message, is_file } => SearchStepView::Problem(
                path@,
                message@,
                *is_file,
            ),
        }
    }
}

pub open spec fn step_views(v: Seq<SearchStep>) -> Seq<SearchStepView> {
    v.map_values(|s: SearchStep| s@)
}

/// `path` is one of the existing directories `dirs`.
pub open spec fn is_dir_in(dirs: Seq<Seq<char>>, path: Seq<char>) -> bool {
    dirs.contains(path)
}

/// Adds `path` of `kind` when it is a directory, else a problem saying `message`.
pub open spec fn dir_step(
    dirs: Seq<Seq<char>>,
    kind: ModuleSearchPathKind,
    path: Seq<char>,
    message: Seq<char>,
) -> SearchStepView {
    if is_dir_in(dirs, path) {
        SearchStepView::Add(kind, path)
    } else {
        SearchStepView::Problem(path, message, false)
    }
}

/// `path`, or `path` under `root` when it is relative.
pub open spec fn anchored(root: Seq<char>, path: Seq<char>) -> Seq<char> {
    if is_absolute_path(path) {
        path
    } else {
        joined(root, path)
    }
}

pub open spec fn explicit_steps(root: Seq<char>, explicit: Seq<Seq<char>>, dirs: Seq<Seq<char>>) -> Seq<
    SearchStepView,
>
    decreases explicit.len(),
{
    if explicit.len() == 0 {
        Seq::empty()
    } else {
        explicit_steps(root, explicit.drop_last(), dirs).push(
            dir_step(
                dirs,
                ModuleSearchPathKind::ExplicitPythonPath,
                anchored(root, explicit.last()),
                "explicit Python module search path does not exist or is not a directory"@,
            ),
        )
    }
}

/// The steps for the entries `lines` of the `.pth` file `file` in `site`.
pub open spec fn pth_entry_steps(
    site: Seq<char>,
    file: Seq<char>,
    lines: Seq<Seq<char>>,
    dirs: Seq<Seq<char>>,
) -> Seq<SearchStepView>
    decreases lines.len(),
{
    if lines.len() == 0 {
        Seq::empty()
    } else {
        let base = match parent_of(file) {
            Some(p) => p,
            None => site,
        };
        pth_entry_steps(site, file, lines.drop_last(), dirs).push(
            dir_step(
                dirs,
                ModuleSearchPathKind::PthFile,
                anchored(base, lines.last()),
                ".pth entry does not exist or is not a directory"@,
            ),
        )
    }
}

/// The steps for the `.pth` files `files` of `site`.
pub open spec fn pth_file_steps(site: Seq<char>, files: Seq<(String, Option<String>)>, dirs: Seq<Seq<char>>) -> Seq<
    SearchStepView,
>
    decreases files.len(),
{
    if files.len() == 0 {
        Seq::empty()
    } else {
        let (f, contents) = files.last();
        pth_file_steps(site, files.drop_last(), dirs) + match contents {
            None => seq![
                SearchStepView::Problem(f@, "could not read .pth module search paths"@, true),
            ],
            Some(c) => pth_entry_steps(
                site,
                f@,
                pth_lines_spec(split_at_char(c@, '\n')),
                dirs,
            ),
        }
    }
}

/// The steps for the site-packages directories `sites`.
pub open spec fn site_steps(sites: Seq<SitePackagesProbe>, dirs: Seq<Seq<char>>) -> Seq<SearchStepView>
    decreases sites.len(),
{
    if sites.len() == 0 {
        Seq::empty()
    } else {
        let s = sites.last();
        site_steps(sites.drop_last(), dirs) + if is_dir_in(dirs, s.path@) {
            seq![SearchStepView::Add(ModuleSearchPathKind::SitePackages, s.path@)] + match s.pth_files {
                None => seq![
                    SearchStepView::Problem(
                        s.path@,
                        "could not read site-packages directory for .pth files"@,
                        false,
                    ),
                ],
                Some(files) => pth_file_steps(s.path@, files@, dirs),
            }
        } else {
            seq![
                SearchStepView::Problem(
                    s.path@,
                    "site-packages module search path does not exist or is not a directory"@,
                    false,
                ),
            ]
        }
    }
}

/// All steps, in the order the search paths are tried: the project root, its
/// `src` directory, the explicit paths, then each site-packages directory and
/// the entries of its `.pth` files.
pub open spec fn search_steps(
    root: Seq<char>,
    explicit: Seq<Seq<char>>,
    sites: Seq<SitePackagesProbe>,
    dirs: Seq<Seq<char>>,
) -> Seq<SearchStepView> {
    let src = joined(root, "src"@);
    seq![dir_step(dirs, ModuleSearchPathKind::Workspace, root, "project root does not exist or is not a directory"@)]
        + (if is_dir_in(dirs, src) {
        seq![SearchStepView::Add(ModuleSearchPathKind::AutoSrc, src)]
    } else {
        Seq::empty()
    }) + explicit_steps(root, explicit, dirs) + site_steps(sites, dirs)
}

/// The search paths the steps add, each path once, comparing paths
/// component by component (the first kind wins).
pub open spec fn added_paths(steps: Seq<SearchStepView>) -> Seq<(ModuleSearchPathKind, Seq<char>)>
    decreases steps.len(),
{
    if steps.len() == 0 {
        Seq::empty()
    } else {
        let rest = added_paths(steps.drop_last());
        match steps.last() {
            SearchStepView::Add(k, p) => if exists|i: int| 0 <= i < rest.len() && same_path((#[trigger] rest[i]).1, p) {
                rest
            } else {
                rest.push((k, p))
            },
            _ => rest,
        }
    }
}

/// The problems of the steps.
pub open spec fn step_problems(steps: Seq<SearchStepView>) -> Seq<(Seq<char>, Seq<char>, bool)>
    decreases steps.len(),
{
    if steps.len() == 0 {
        Seq::empty()
    } else {
        let rest = step_problems(steps.drop_last());
        match steps.last() {
            SearchStepView::Problem(p, m, f) => rest.push((p, m, f)),
            _ => rest,
        }
    }
}

/// `rs` are the reasons for the problems `ps`, about the module search paths.
pub open spec fn problem_reasons(rs: Seq<Reason>, ps: Seq<(Seq<char>, Seq<char>, bool)>) -> bool {
    &&& rs.len() == ps.len()
    &&& forall|i: int|
        0 <= i < rs.len() ==> {
            &&& (#[trigger] rs[i]).field == Field::ResolverModuleSearchPaths
            &&& rs[i].message@ == ps[i].1
            &&& if ps[i].2 {
                rs[i].source matches ReasonSource::File(f) && f@ == ps[i].0
            } else {
                rs[i].source matches ReasonSource::Path(f) && f@ == ps[i].0
            }
        }
}

pub open spec fn entry_views(v: Seq<ModuleSearchPathEntry>) -> Seq<(ModuleSearchPathKind, Seq<char>)> {
    v.map_values(|e: ModuleSearchPathEntry| (e.kind, e.path@))
}

/// Adds `path` of `kind` unless a search path with the same path (component
/// by component) is there already.
pub fn push_module_search_path(search_paths: &mut Vec<ModuleSearchPathEntry>, kind: ModuleSearchPathKind, path: String)
    ensures
        entry_views(final(search_paths)@) == (if exists|i: int|
            0 <= i < entry_views(old(search_paths)@).len() && same_path(
                (#[trigger] entry_views(old(search_paths)@)[i]).1,
                path@,
            ) {
            entry_views(old(search_paths)@)
        } else {
            entry_views(old(search_paths)@).push((kind, path@))
        }),
{
    let mut i: usize = 0;
    while i < search_paths.len()
        invariant
            i <= search_paths.len(),
            forall|j: int| 0 <= j < i ==> !same_path((#[trigger] search_paths@[j]).path@, path@),
        decreases search_paths.len() - i,
    {
        if path_eq(search_paths[i].path.as_str(), path.as_str()) {
            assert(entry_views(search_paths@)[i as int].1 == search_paths@[i as int].path@);
            return ;
        }
        i = i + 1;
    }
    let ghost before = entry_views(search_paths@);
    assert forall|j: int| 0 <= j < before.len() implies !same_path((#[trigger] before[j]).1, path@) by {
        assert(before[j].1 == search_paths@[j].path@);
    }
    search_paths.push(ModuleSearchPathEntry { kind, path });
    assert(entry_views(search_paths@) =~= before.push((kind, path@)));
}

/// Whether `path` is one of the existing directories `dirs`.
fn is_dir(dirs: &Vec<String>, path: &str) -> (r: bool)
    ensures
        r == is_dir_in(views(dirs@), path@),
{
    crate::text::contains_str(dirs, path)
}

/// `path`, or `path` under `root` when it is relative.
pub fn anchored_path(root: &str, path: &str) -> (r: String)
    ensures
        r@ == anchored(root@, path@),
{
    if path_is_absolute(path) {
        path.to_string()
    } else {
        path_join(root, path)
    }
}

/// The directory that relative entries of the `.pth` file `file` in `site` are
/// taken from: the file's parent, or `site` when it has none.
pub fn pth_base(site: &str, file: &str) -> (r: String)
    ensures
        r@ == match parent_of(file@) {
            Some(p) => p,
            None => site@,
        },
{
    match path_parent(file) {
        Some(p) => p,
        None => site.to_string(),
    }
}

fn dir_step_exec(dirs: &Vec<String>, kind: ModuleSearchPathKind, path: String, message: &str) -> (r:
    SearchStep)
    ensures
        r@ == dir_step(views(dirs@), kind, path@, message@),
{
    if is_dir(dirs, path.as_str()) {
        SearchStep::Add(kind, path)
    } else {
        SearchStep::Problem { path, message: message.to_string(), is_file: false }
    }
}

/// The steps of discovering the module search paths: see [`search_steps`].
pub fn search_path_steps(
    project_root: &str,
    explicit_python_paths: &Vec<String>,
    site_packages: &Vec<SitePackagesProbe>,
    dirs: &Vec<String>,
) -> (r: Vec<SearchStep>)
    ensures
        step_views(r@) == search_steps(
            project_root@,
            views(explicit_python_paths@),
            site_packages@,
            views(dirs@),
        ),
        !same_path(project_root@, joined(project_root@, "src"@)),
{
    let ghost d = views(dirs@);
    let mut steps: Vec<SearchStep> = Vec::new();
    steps.push(
        dir_step_exec(
            dirs,
            ModuleSearchPathKind::Workspace,
            project_root.to_string(),
            "project root does not exist or is not a directory",
        ),
    );
    proof {
        reveal_strlit("src");
        reveal_strlit(".");
        reveal_strlit("..");
        assert(!("src"@ =~= "."@) && !("src"@ =~= ".."@));
    }
    let src = path_join(project_root, "src");
    if is_dir(dirs, src.as_str()) {
        steps.push(SearchStep::Add(ModuleSearchPathKind::AutoSrc, src));
    }
    let ghost head = step_views(steps@);
    assert(head =~= seq![dir_step(d, ModuleSearchPathKind::Workspace, project_root@, "project root does not exist or is not a directory"@)]
        + (if is_dir_in(d, joined(project_root@, "src"@)) {
        seq![SearchStepView::Add(ModuleSearchPathKind::AutoSrc, joined(project_root@, "src"@))]
    } else {
        Seq::empty()
    }));
    let ghost explicit = views(explicit_python_paths@);
    let mut i: usize = 0;
    while i < explicit_python_paths.len()
        invariant
            i <= explicit_python_paths.len(),
            d == views(dirs@),
            explicit == views(explicit_python_paths@),
            step_views(steps@) == head + explicit_steps(project_root@, explicit.take(i as int), d),
        decreases explicit_python_paths.len() - i,
    {
        assert(explicit.take(i + 1).drop_last() =~= explicit.take(i as int));
        assert(explicit.take(i + 1).last() == explicit_python_paths@[i as int]@);
        let path = anchored_path(project_root, explicit_python_paths[i].as_str());
        let step = dir_step_exec(
            dirs,
            ModuleSearchPathKind::ExplicitPythonPath,
            path,
            "explicit Python module search path does not exist or is not a directory",
        );
        let ghost before = step_views(steps@);
        steps.push(step);
        assert(step_views(steps@) =~= before.push(step@));
        i = i + 1;
    }
    assert(explicit.take(explicit_python_paths.len() as int) =~= explicit);
    let ghost mid = step_views(steps@);
    let mut k: usize = 0;
    while k < site_packages.len()
        invariant
            k <= site_packages.len(),
            d == views(dirs@),
            step_views(steps@) == mid + site_steps(site_packages@.take(k as int), d),
        decreases site_packages.len() - k,
    {
        assert(site_packages@.take(k + 1).drop_last() =~= site_packages@.take(k as int));
        assert(site_packages@.take(k + 1).last() == site_packages@[k as int]);
        let site = &site_packages[k];
        let ghost before = step_views(steps@);
        let mut local: Vec<SearchStep> = Vec::new();
        if is_dir(dirs, site.path.as_str()) {
            local.push(SearchStep::Add(ModuleSearchPathKind::SitePackages, site.path.clone()));
            let ghost first = step_views(local@);
            match &site.pth_files {
                None => {
                    local.push(
                        SearchStep::Problem {
                            path: site.path.clone(),
                            message: "could not read site-packages directory for .pth files".to_string(),
                            is_file: false,
                        },
                    );
                },
                Some(files) => {
                    let mut j: usize = 0;
                    while j < files.len()
                        invariant
                            j <= files.len(),
                            d == views(dirs@),
                            step_views(local@) == first + pth_file_steps(site.path@, files@.take(j as int), d),
                        decreases files.len() - j,
                    {
                        assert(files@.take(j + 1).drop_last() =~= files@.take(j as int));
                        assert(files@.take(j + 1).last() == files@[j as int]);
                        let ghost before_file = step_views(local@);
                        let (f, contents) = &files[j];
                        match contents {
                            None => {
                                local.push(
                                    SearchStep::Problem {
                                        path: f.clone(),
                                        message: "could not read .pth module search paths".to_string(),
                                        is_file: true,
                                    },
                                );
                            },
                            Some(c) => {
                                let lines = pth_lines(c.as_str());
                                let base = pth_base(site.path.as_str(), f.as_str());
                                let ghost ls = views(lines@);
                                let mut l: usize = 0;
                                while l < lines.len()
                                    invariant
                                        l <= lines.len(),
                                        d == views(dirs@),
                                        ls == views(lines@),
                                        base@ == match parent_of(f@) {
                                            Some(p) => p,
                                            None => site.path@,
                                        },
                                        step_views(local@) == before_file + pth_entry_steps(
                                            site.path@,
                                            f@,
                                            ls.take(l as int),
                                            d,
                                        ),
                                    decreases lines.len() - l,
                                {
                                    assert(ls.take(l + 1).drop_last() =~= ls.take(l as int));
                                    assert(ls.take(l + 1).last() == lines@[l as int]@);
                                    let path = anchored_path(base.as_str(), lines[l].as_str());
                                    let step = dir_step_exec(
                                        dirs,
                                        ModuleSearchPathKind::PthFile,
                                        path,
                                        ".pth entry does not exist or is not a directory",
                                    );
                                    let ghost b = step_views(local@);
                                    local.push(step);
                                    assert(step_views(local@) =~= b.push(step@));
                                    l = l + 1;
                                }
                                assert(ls.take(lines.len() as int) =~= ls);
                            },
                        }
                        assert(step_views(local@) =~= first + pth_file_steps(site.path@, files@.take(j + 1), d));
                        j = j + 1;
                    }
                    assert(files@.take(files.len() as int) =~= files@);
                },
            }
        } else {
            local.push(
                SearchStep::Problem {
                    path: site.path.clone(),
                    message: "site-packages module search path does not exist or is not a directory".to_string(),
                    is_file: false,
                },
            );
        }
        let ghost local_views = step_views(local@);
        steps.append(&mut local);
        assert(step_views(steps@) =~= before + local_views);
        k = k + 1;
    }
    assert(site_packages@.take(site_packages.len() as int) =~= site_packages@);
    steps
}

/// `r` is the fact the steps give: the search paths they add, each once,
/// partial with a reason per problem; unknown when they add none.
pub open spec fn search_paths_fact(steps: Seq<SearchStepView>, r: Fact<Vec<ModuleSearchPathEntry>>) -> bool {
    let entries = added_paths(steps);
    let problems = step_problems(steps);
    if entries.len() == 0 {
        r matches Fact::Unknown { reasons } && problem_reasons(reasons@, problems)
    } else if problems.len() == 0 {
        r matches Fact::Known { value } && entry_views(value@) == entries
    } else {
        r matches Fact::Partial { value, reasons } && entry_views(value@) == entries
            && problem_reasons(reasons@, problems)
    }
}

/// Gathers the search paths and problems of the steps.
pub fn apply_search_steps(steps: Vec<SearchStep>) -> (r: Fact<Vec<ModuleSearchPathEntry>>)
    ensures
        search_paths_fact(step_views(steps@), r),
{
    let ghost all = step_views(steps@);
    let n = steps.len();
    assert(all.len() == n);
    let mut search_paths: Vec<ModuleSearchPathEntry> = Vec::new();
    let mut reasons: Vec<Reason> = Vec::new();
    let mut rest = steps;
    let mut done: usize = 0;
    while rest.len() > 0
        invariant
            all.len() <= usize::MAX,
            done + rest@.len() == all.len(),
            done <= all.len(),
            step_views(rest@) == all.skip(done as int),
            entry_views(search_paths@) == added_paths(all.take(done as int)),
            problem_reasons(reasons@, step_problems(all.take(done as int))),
        decreases rest@.len(),
    {
        let ghost prefix = all.take(done as int);
        assert(all.take(done + 1).drop_last() =~= prefix);
        let ghost old_rest = rest@;
        let step = rest.remove(0);
        assert(step_views(old_rest)[0] == old_rest[0]@);
        assert(all.skip(done as int)[0] == all[done as int]);
        assert(step@ == all[done as int]);
        assert(all.take(done + 1).last() == all[done as int]);
        match step {
            SearchStep::Add(kind, path) => {
                push_module_search_path(&mut search_paths, kind, path);
            },
            SearchStep::Problem { path, message, is_file } => {
                let source = if is_file {
                    ReasonSource::File(path)
                } else {
                    ReasonSource::Path(path)
                };
                let ghost before = reasons@;
                let ghost ps = step_problems(prefix);
                reasons.push(Reason::new(Field::ResolverModuleSearchPaths, source, message));
                assert forall|i: int| 0 <= i < reasons@.len() implies {
                    &&& (#[trigger] reasons@[i]).field == Field::ResolverModuleSearchPaths
                    &&& reasons@[i].message@ == step_problems(all.take(done + 1))[i].1
                    &&& if step_problems(all.take(done + 1))[i].2 {
                        reasons@[i].source matches ReasonSource::File(f) && f@ == step_problems(
                            all.take(done + 1),
                        )[i].0
                    } else {
                        reasons@[i].source matches ReasonSource::Path(f) && f@ == step_problems(
                            all.take(done + 1),
                        )[i].0
                    }
                } by {
                    if i < before.len() {
                        assert(reasons@[i] == before[i]);
                        assert(step_problems(all.take(done + 1))[i] == ps[i]);
                    }
                }
            },
        }
        assert(step_views(rest@) =~= all.skip(done + 1));
        done = done + 1;
    }
    assert(all.take(done as int) =~= all);
    if search_paths.len() == 0 {
        Fact::Unknown { reasons }
    } else if reasons.len() == 0 {
        Fact::Known { value: search_paths }
    } else {
        Fact::Partial { value: search_paths, reasons }
    }
}

/// The search paths of a fact: its value's, none when it has no value.
pub open spec fn fact_search_paths(r: Fact<Vec<ModuleSearchPathEntry>>) -> Seq<(ModuleSearchPathKind, Seq<char>)> {
    match r {
        Fact::Known { value } => entry_views(value@),
        Fact::Partial { value, .. } => entry_views(value@),
        _ => Seq::empty(),
    }
}

/// What the first `k` steps add comes first in what all of them add.
proof fn lemma_added_paths_prefix(s: Seq<SearchStepView>, k: int)
    requires
        0 <= k <= s.len(),
    ensures
        added_paths(s.take(k)).len() <= added_paths(s).len(),
        forall|i: int| 0 <= i < added_paths(s.take(k)).len() ==> added_paths(s)[i] == added_paths(s.take(k))[i],
    decreases s.len(),
{
    if k == s.len() {
        assert(s.take(k) =~= s);
    } else {
        lemma_added_paths_prefix(s.drop_last(), k);
        assert(s.drop_last().take(k) =~= s.take(k));
    }
}

/// The module search paths of a project: the project root, its `src`
/// directory, the explicit Python paths (relative ones under the root), each
/// site-packages directory and the entries of its `.pth` files, each path
/// once (paths that are the same component by component count as one);
/// whether a path is a directory is whether it is among `dirs`. Paths
/// that are not directories, and files that could not be read, become reasons.
pub fn discover_module_search_paths(
    project_root: &str,
    explicit_python_paths: &Vec<String>,
    site_packages: &Vec<SitePackagesProbe>,
    dirs: &Vec<String>,
) -> (r: Fact<Vec<ModuleSearchPathEntry>>)
    ensures
        search_paths_fact(
            search_steps(project_root@, views(explicit_python_paths@), site_packages@, views(dirs@)),
            r,
        ),
        is_dir_in(views(dirs@), project_root@) ==> {
            &&& fact_search_paths(r).len() >= 1
            &&& fact_search_paths(r)[0] == (ModuleSearchPathKind::Workspace, project_root@)
            &&& is_dir_in(views(dirs@), joined(project_root@, "src"@)) ==> fact_search_paths(r).len() >= 2
                && fact_search_paths(r)[1] == (ModuleSearchPathKind::AutoSrc, joined(project_root@, "src"@))
        },
{
    let steps = search_path_steps(project_root, explicit_python_paths, site_packages, dirs);
    let ghost all = step_views(steps@);
    let r = apply_search_steps(steps);
    proof {
        let root = project_root@;
        let src = joined(root, "src"@);
        let d = views(dirs@);
        if is_dir_in(d, root) {
            assert(all[0] == SearchStepView::Add(ModuleSearchPathKind::Workspace, root));
            let one = all.take(1);
            assert(one.drop_last() =~= Seq::<SearchStepView>::empty());
            assert(added_paths(one.drop_last()) =~= Seq::<(ModuleSearchPathKind, Seq<char>)>::empty());
            assert(added_paths(one) =~= seq![(ModuleSearchPathKind::Workspace, root)]);
            lemma_added_paths_prefix(all, 1);
            if is_dir_in(d, src) {
                assert(all[1] == SearchStepView::Add(ModuleSearchPathKind::AutoSrc, src));
                let two = all.take(2);
                assert(two.drop_last() =~= one);
                assert(added_paths(two) =~= seq![
                    (ModuleSearchPathKind::Workspace, root),
                    (ModuleSearchPathKind::AutoSrc, src),
                ]);
                lemma_added_paths_prefix(all, 2);
            }
        }
    }
    r
}

/// The directory path of `parts` under `base`.
pub open spec fn joined_parts(base: Seq<char>, parts: Seq<Seq<char>>) -> Seq<char>
    decreases parts.len(),
{
    if parts.len() == 0 {
        base
    } else {
        joined(joined_parts(base, parts.drop_last()), parts.last())
    }
}

/// The package file (`.../__init__.py`) and module file (`....py`) that the
/// module `requested` would be in under `search_path`.
pub open spec fn module_files(requested: Seq<char>, search_path: Seq<char>) -> (Seq<char>, Seq<char>) {
    let dir = joined_parts(search_path, split_at_char(requested, '.'));
    (joined(dir, "__init__.py"@), with_extension(dir, "py"@))
}

/// The files the module `requested` would be in under `search_path`.
pub fn module_file_candidates(requested: &PyModuleName, search_path: &str) -> (r: (String, String))
    ensures
        (r.0@, r.1@) == module_files(requested@, search_path@),
{
    let parts = split_char(requested.as_str(), '.');
    let ghost ps = views(parts@);
    let mut dir = search_path.to_string();
    let mut i: usize = 0;
    while i < parts.len()
        invariant
            i <= parts.len(),
            ps == views(parts@),
            dir@ == joined_parts(search_path@, ps.take(i as int)),
        decreases parts.len() - i,
    {
        assert(ps.take(i + 1).drop_last() =~= ps.take(i as int));
        assert(ps.take(i + 1).last() == parts@[i as int]@);
        dir = path_join(dir.as_str(), parts[i].as_str());
        i = i + 1;
    }
    assert(ps.take(parts.len() as int) =~= ps);
    proof {
        reveal_strlit("py");
    }
    (path_join(dir.as_str(), "__init__.py"), path_with_extension(dir.as_str(), "py"))
}

/// The file the module is in under `search_path`, when one of its files exists
/// (the package first), with where it lies.
pub open spec fn candidate_file(requested: Seq<char>, search_path: Seq<char>, files: Seq<Seq<char>>) -> Option<
    Seq<char>,
> {
    let (package, module) = module_files(requested, search_path);
    if files.contains(package) {
        Some(package)
    } else if files.contains(module) {
        Some(module)
    } else {
        None
    }
}

/// `m` is the module `requested` found in `file` under `search_path`.
pub open spec fn resolved_as(
    m: ResolvedModule,
    requested: PyModuleName,
    file: Seq<char>,
    search_path: Seq<char>,
    project_root: Seq<char>,
) -> bool {
    &&& m.module == requested
    &&& m.file@ == file
    &&& m.search_path@ == search_path
    &&& m.location == (if starts_with_path(file, project_root) {
        ModuleLocation::Workspace
    } else {
        ModuleLocation::External
    })
}

/// The module found under one search path, if any; whether a file exists is
/// whether it is among `files`.
pub fn module_candidate(
    requested: &PyModuleName,
    search_path: &ModuleSearchPathEntry,
    project_root: &str,
    files: &Vec<String>,
) -> (r: Option<ResolvedModule>)
    ensures
        match candidate_file(requested@, search_path.path@, views(files@)) {
            Some(f) => r matches Some(m) && resolved_as(
                m,
                *requested,
                f,
                search_path.path@,
                project_root@,
            ),
            None => r is None,
        },
{
    let (package, module) = module_file_candidates(requested, search_path.path.as_str());
    let file = if crate::text::contains_str(files, package.as_str()) {
        package
    } else if crate::text::contains_str(files, module.as_str()) {
        module
    } else {
        return None;
    };
    let location = if path_starts_with(file.as_str(), project_root) {
        ModuleLocation::Workspace
    } else {
        ModuleLocation::External
    };
    Some(
        ResolvedModule {
            module: requested.duplicate(),
            file,
            search_path: search_path.path.clone(),
            location,
        },
    )
}

/// The files the module is found in, one per search path that has it, each
/// file once.
pub open spec fn found_files(requested: Seq<char>, search_paths: Seq<ModuleSearchPathEntry>, files: Seq<Seq<char>>) -> Seq<
    (Seq<char>, Seq<char>),
>
    decreases search_paths.len(),
{
    if search_paths.len() == 0 {
        Seq::empty()
    } else {
        let rest = found_files(requested, search_paths.drop_last(), files);
        let sp = search_paths.last().path@;
        match candidate_file(requested, sp, files) {
            Some(f) => if exists|i: int| 0 <= i < rest.len() && (#[trigger] rest[i]).0 == f {
                rest
            } else {
                rest.push((f, sp))
            },
            None => rest,
        }
    }
}

/// Every file found is one of `files`.
pub proof fn lemma_found_files_exist(requested: Seq<char>, search_paths: Seq<ModuleSearchPathEntry>, files: Seq<Seq<char>>)
    ensures
        forall|i: int|
            0 <= i < found_files(requested, search_paths, files).len() ==> files.contains(
                (#[trigger] found_files(requested, search_paths, files)[i]).0,
            ),
    decreases search_paths.len(),
{
    if search_paths.len() > 0 {
        lemma_found_files_exist(requested, search_paths.drop_last(), files);
        let rest = found_files(requested, search_paths.drop_last(), files);
        let found = found_files(requested, search_paths, files);
        assert forall|i: int| 0 <= i < found.len() implies files.contains((#[trigger] found[i]).0) by {
            if i < rest.len() {
                assert(found[i] == rest[i]);
            }
        }
    }
}

/// `ms` are the modules found: `requested` in each of `found` (file, search path).
pub open spec fn all_resolved_as(
    ms: Seq<ResolvedModule>,
    requested: PyModuleName,
    found: Seq<(Seq<char>, Seq<char>)>,
    project_root: Seq<char>,
) -> bool {
    &&& ms.len() == found.len()
    &&& forall|i: int|
        0 <= i < ms.len() ==> resolved_as(#[trigger] ms[i], requested, found[i].0, found[i].1, project_root)
}

/// Looks up `requested` in the search paths: known when one file has it,
/// ambiguous between several, unknown when none does.
pub open spec fn resolution_fact(
    requested: PyModuleName,
    search_paths: Seq<ModuleSearchPathEntry>,
    project_root: Seq<char>,
    files: Seq<Seq<char>>,
    r: ModuleResolution,
) -> bool {
    let found = found_files(requested@, search_paths, files);
    &&& r.requested == requested
    &&& if found.len() == 0 {
        unknown_for_module(
            r.resolved,
            Field::ResolverModule,
            requested,
            "module `"@ + requested@ + "` was not found in module search paths"@,
        )
    } else if found.len() == 1 {
        r.resolved matches Fact::Known { value } && resolved_as(
            value,
            requested,
            found[0].0,
            found[0].1,
            project_root,
        )
    } else {
        r.resolved matches Fact::Ambiguous { candidates, reasons } && all_resolved_as(
            candidates@,
            requested,
            found,
            project_root,
        ) && reasons@.len() == 1 && reasons@[0].field == Field::ResolverModule
            && reasons@[0].source == ReasonSource::Module(requested) && reasons@[0].message@
            == "module resolves to more than one module search path"@
    }
}

/// Resolves `requested` through the search paths: see [`resolution_fact`].
pub fn resolve_module(
    requested: PyModuleName,
    search_paths: &Vec<ModuleSearchPathEntry>,
    project_root: &str,
    files: &Vec<String>,
) -> (r: ModuleResolution)
    ensures
        resolution_fact(requested, search_paths@, project_root@, views(files@), r),
{
    let ghost fs = views(files@);
    let mut candidates: Vec<ResolvedModule> = Vec::new();
    let mut i: usize = 0;
    while i < search_paths.len()
        invariant
            i <= search_paths.len(),
            fs == views(files@),
            all_resolved_as(
                candidates@,
                requested,
                found_files(requested@, search_paths@.take(i as int), fs),
                project_root@,
            ),
        decreases search_paths.len() - i,
    {
        assert(search_paths@.take(i + 1).drop_last() =~= search_paths@.take(i as int));
        assert(search_paths@.take(i + 1).last() == search_paths@[i as int]);
        let ghost found = found_files(requested@, search_paths@.take(i as int), fs);
        match module_candidate(&requested, &search_paths[i], project_root, files) {
            Some(c) => {
                let mut seen = false;
                let mut j: usize = 0;
                while j < candidates.len()
                    invariant
                        j <= candidates.len(),
                        all_resolved_as(candidates@, requested, found, project_root@),
                        seen == exists|k: int| 0 <= k < j && (#[trigger] found[k]).0 == c.file@,
                    decreases candidates.len() - j,
                {
                    if str_eq(candidates[j].file.as_str(), c.file.as_str()) {
                        assert(found[j as int].0 == c.file@);
                        seen = true;
                    }
                    proof {
                        if !seen {
                            assert forall|k: int| 0 <= k < j + 1 implies (#[trigger] found[k]).0 != c.file@ by {
                                if k == j {
                                    assert(found[j as int].0 == candidates@[j as int].file@);
                                }
                            }
                        }
                    }
                    j = j + 1;
                }
                if !seen {
                    let ghost before = candidates@;
                    candidates.push(c);
                    assert forall|k: int| 0 <= k < candidates@.len() implies resolved_as(
                        #[trigger] candidates@[k],
                        requested,
                        found.push((c.file@, search_paths@[i as int].path@))[k].0,
                        found.push((c.file@, search_paths@[i as int].path@))[k].1,
                        project_root@,
                    ) by {
                        if k < before.len() {
                            assert(candidates@[k] == before[k]);
                        }
                    }
                }
            },
            None => {},
        }
        i = i + 1;
    }
    assert(search_paths@.take(search_paths.len() as int) =~= search_paths@);
    let resolved = if candidates.len() == 0 {
        let m1 = concat("module `", requested.as_str());
        let message = concat(m1.as_str(), "` was not found in module search paths");
        Fact::Unknown {
            reasons: vec![Reason::module(Field::ResolverModule, requested.duplicate(), message.as_str())],
        }
    } else if candidates.len() == 1 {
        let only = candidates.pop().unwrap();
        Fact::Known { value: only }
    } else {
        Fact::Ambiguous {
            candidates,
            reasons: vec![
                Reason::module(
                    Field::ResolverModule,
                    requested.duplicate(),
                    "module resolves to more than one module search path",
                ),
            ],
        }
    };
    ModuleResolution { requested, resolved }
}

// ---- the module name of a file ----

/// The module that a file path relative to a search path stands for: the
/// package directory of an `__init__.py` (not the search path itself), else the
/// `.py` file without its extension; its components joined with dots, when
/// that is a dotted name.
pub open spec fn relative_module_name(relative: Seq<char>) -> Option<Seq<char>> {
    if file_name_of(relative) == Some("__init__.py"@) {
        match parent_of(relative) {
            Some(p) => if p.len() > 0 && is_dotted_name(join_with(components_of(p), '.')) {
                Some(join_with(components_of(p), '.'))
            } else {
                None
            },
            None => None,
        }
    } else if extension_of(relative) == Some("py"@) && is_dotted_name(
        join_with(components_of(with_extension(relative, ""@)), '.'),
    ) {
        Some(join_with(components_of(with_extension(relative, ""@)), '.'))
    } else {
        None
    }
}

/// The module `relative` stands for.
pub fn module_name_from_relative_file(relative: &str) -> (r: Option<PyModuleName>)
    ensures
        match r {
            Some(m) => relative_module_name(relative@) == Some(m@),
            None => relative_module_name(relative@) is None,
        },
{
    proof {
        reveal_strlit("__init__.py");
        reveal_strlit("py");
        reveal_strlit(".");
    }
    let is_init = match path_file_name(relative) {
        Some(n) => str_eq(n.as_str(), "__init__.py"),
        None => false,
    };
    let dir = if is_init {
        match path_parent(relative) {
            Some(p) => {
                if p.unicode_len() == 0 {
                    return None;
                }
                p
            },
            None => return None,
        }
    } else {
        let is_py = match path_extension(relative) {
            Some(e) => str_eq(e.as_str(), "py"),
            None => false,
        };
        if !is_py {
            return None;
        }
        proof {
            reveal_strlit("");
        }
        path_with_extension(relative, "")
    };
    let parts = path_components(dir.as_str());
    let dotted = join_strings(&parts, ".");
    match PyModuleName::parse(dotted.as_str()) {
        Ok(m) => Some(m),
        Err(_) => None,
    }
}

/// The length of the longest search path that `file` lies under; -1 when
/// there is none.
pub open spec fn longest_prefix_len(file: Seq<char>, sps: Seq<ModuleSearchPathEntry>) -> int
    decreases sps.len(),
{
    if sps.len() == 0 {
        -1
    } else {
        let rest = longest_prefix_len(file, sps.drop_last());
        let p = sps.last().path@;
        if starts_with_path(file, p) && p.len() > rest {
            p.len() as int
        } else {
            rest
        }
    }
}

/// The modules `file` stands for under the longest search paths it lies
/// under, each module once, in search path order.
pub open spec fn file_module_names(file: Seq<char>, sps: Seq<ModuleSearchPathEntry>, longest: int) -> Seq<Seq<char>>
    decreases sps.len(),
{
    if sps.len() == 0 {
        Seq::empty()
    } else {
        let rest = file_module_names(file, sps.drop_last(), longest);
        let p = sps.last().path@;
        if starts_with_path(file, p) && p.len() == longest {
            match stripped_prefix(file, p) {
                Some(relative) => match relative_module_name(relative) {
                    Some(m) => if rest.contains(m) {
                        rest
                    } else {
                        rest.push(m)
                    },
                    None => rest,
                },
                None => rest,
            }
        } else {
            rest
        }
    }
}

/// A single reason about the file `file` with message `m`.
pub open spec fn single_file_reason(rs: Seq<Reason>, file: Seq<char>, m: Seq<char>) -> bool {
    &&& rs.len() == 1
    &&& rs[0].field == Field::ResolverModule
    &&& rs[0].source matches ReasonSource::File(f) && f@ == file
    &&& rs[0].message@ == m
}

/// The module name of the file `file`: unknown when it is not an existing
/// `.py` file or lies under no search path; known when it stands for one
/// module; ambiguous when for several.
pub open spec fn file_module_fact(
    file: Seq<char>,
    sps: Seq<ModuleSearchPathEntry>,
    files: Seq<Seq<char>>,
    r: Fact<PyModuleName>,
) -> bool {
    let names = file_module_names(file, sps, longest_prefix_len(file, sps));
    let unknown_with = |m: Seq<char>| r matches Fact::Unknown { reasons } && single_file_reason(reasons@, file, m);
    if !files.contains(file) {
        unknown_with("module file does not exist or is not a file"@)
    } else if extension_of(file) != Some("py"@) {
        unknown_with("module file is not a Python file"@)
    } else if names.len() == 0 {
        unknown_with("module file is outside configured module search paths"@)
    } else if names.len() == 1 {
        r matches Fact::Known { value } && value@ == names[0]
    } else {
        r matches Fact::Ambiguous { candidates, reasons } && candidates@.map_values(|m: PyModuleName| m@) == names
            && single_file_reason(reasons@, file, "module file maps to more than one module name"@)
    }
}

fn names_contain(v: &Vec<PyModuleName>, m: &PyModuleName) -> (r: bool)
    ensures
        r == v@.map_values(|x: PyModuleName| x@).contains(m@),
{
    let mut i: usize = 0;
    while i < v.len()
        invariant
            i <= v.len(),
            forall|j: int| 0 <= j < i ==> v@[j]@ != m@,
        decreases v.len() - i,
    {
        if str_eq(v[i].as_str(), m.as_str()) {
            assert(v@.map_values(|x: PyModuleName| x@)[i as int] == m@);
            return true;
        }
        i = i + 1;
    }
    let ghost mv = v@.map_values(|x: PyModuleName| x@);
    assert forall|j: int| 0 <= j < mv.len() implies #[trigger] mv[j] != m@ by {
        assert(mv[j] == v@[j]@);
    }
    false
}

/// The module name that the file `file` stands for; `files` lists the files
/// that exist.
pub fn module_name_for_file(file: &str, search_paths: &Vec<ModuleSearchPathEntry>, files: &Vec<String>) -> (r: Fact<
    PyModuleName,
>)
    ensures
        file_module_fact(file@, search_paths@, views(files@), r),
{
    proof {
        reveal_strlit("py");
    }
    if !contains_str(files, file) {
        return Fact::Unknown {
            reasons: vec![Reason::file(Field::ResolverModule, file, "module file does not exist or is not a file")],
        };
    }
    let is_py = match path_extension(file) {
        Some(e) => str_eq(e.as_str(), "py"),
        None => false,
    };
    if !is_py {
        return Fact::Unknown {
            reasons: vec![Reason::file(Field::ResolverModule, file, "module file is not a Python file")],
        };
    }
    let ghost sps = search_paths@;
    let mut longest: Option<usize> = None;
    let mut i: usize = 0;
    while i < search_paths.len()
        invariant
            i <= search_paths.len(),
            sps == search_paths@,
            match longest {
                None => longest_prefix_len(file@, sps.take(i as int)) == -1,
                Some(n) => n as int == longest_prefix_len(file@, sps.take(i as int)),
            },
        decreases search_paths.len() - i,
    {
        assert(sps.take(i + 1).drop_last() =~= sps.take(i as int));
        let p = search_paths[i].path.as_str();
        if path_starts_with(file, p) {
            let n = p.unicode_len();
            match longest {
                None => {
                    longest = Some(n);
                },
                Some(l) => {
                    if n > l {
                        longest = Some(n);
                    }
                },
            }
        }
        i = i + 1;
    }
    assert(sps.take(i as int) =~= sps);
    let ghost lp = longest_prefix_len(file@, sps);
    let mut names: Vec<PyModuleName> = Vec::new();
    let mut k: usize = 0;
    while k < search_paths.len()
        invariant
            k <= search_paths.len(),
            sps == search_paths@,
            lp == longest_prefix_len(file@, sps),
            match longest {
                None => lp == -1,
                Some(n) => n as int == lp,
            },
            names@.map_values(|x: PyModuleName| x@) == file_module_names(file@, sps.take(k as int), lp),
        decreases search_paths.len() - k,
    {
        assert(sps.take(k + 1).drop_last() =~= sps.take(k as int));
        let p = search_paths[k].path.as_str();
        let at_longest = match longest {
            Some(l) => p.unicode_len() == l,
            None => false,
        };
        if path_starts_with(file, p) && at_longest {
            match path_strip_prefix(file, p) {
                Some(relative) => match module_name_from_relative_file(relative.as_str()) {
                    Some(m) => {
                        if !names_contain(&names, &m) {
                            let ghost before = names@;
                            let ghost mv = m@;
                            names.push(m);
                            assert(names@.map_values(|x: PyModuleName| x@) =~= before.map_values(
                                |x: PyModuleName| x@,
                            ).push(mv));
                        }
                    },
                    None => {},
                },
                None => {},
            }
        }
        k = k + 1;
    }
    assert(sps.take(k as int) =~= sps);
    if names.len() == 0 {
        Fact::Unknown {
            reasons: vec![Reason::file(Field::ResolverModule, file, "module file is outside configured module search paths")],
        }
    } else if names.len() == 1 {
        let only = names.pop().unwrap();
        Fact::Known { value: only }
    } else {
        Fact::Ambiguous {
            candidates: names,
            reasons: vec![Reason::file(Field::ResolverModule, file, "module file maps to more than one module name")],
        }
    }
}

/// What looking up `requested` gives, by views: the confidence, the files the
/// module was found in, and the reasons.
pub open spec fn resolution_view(requested: Seq<char>, search_paths: Seq<ModuleSearchPathEntry>, files: Seq<Seq<char>>) -> (
    Confidence,
    Seq<Seq<char>>,
    Seq<ReasonView>,
) {
    let found = found_files(requested, search_paths, files);
    if found.len() == 0 {
        (
            Confidence::Unknown,
            Seq::empty(),
            seq![
                ReasonView {
                    field: Field::ResolverModule,
                    source: SourceView::Module(requested),
                    message: "module `"@ + requested + "` was not found in module search paths"@,
                },
            ],
        )
    } else if found.len() == 1 {
        (Confidence::Known, seq![found[0].0], Seq::empty())
    } else {
        (
            Confidence::Ambiguous,
            found.map_values(|p: (Seq<char>, Seq<char>)| p.0),
            seq![
                ReasonView {
                    field: Field::ResolverModule,
                    source: SourceView::Module(requested),
                    message: "module resolves to more than one module search path"@,
                },
            ],
        )
    }
}

/// A resolution by views: its confidence, the files of what it found, and
/// its reasons.
pub open spec fn resolved_view(f: Fact<ResolvedModule>) -> (Confidence, Seq<Seq<char>>, Seq<ReasonView>) {
    (
        f.confidence_spec(),
        match f {
            Fact::Known { value } => seq![value.file@],
            Fact::Partial { value, .. } => seq![value.file@],
            Fact::Unknown { .. } => Seq::empty(),
            Fact::Ambiguous { candidates, .. } => candidates@.map_values(|m: ResolvedModule| m.file@),
        },
        reason_views(f.reasons_spec()),
    )
}

/// A resolution that meets [`resolution_fact`] has the views of [`resolution_view`].
pub proof fn lemma_resolution_view(
    requested: PyModuleName,
    search_paths: Seq<ModuleSearchPathEntry>,
    project_root: Seq<char>,
    files: Seq<Seq<char>>,
    r: ModuleResolution,
)
    requires
        resolution_fact(requested, search_paths, project_root, files, r),
    ensures
        resolved_view(r.resolved) == resolution_view(requested@, search_paths, files),
{
    let found = found_files(requested@, search_paths, files);
    let rv = resolved_view(r.resolved);
    let sv = resolution_view(requested@, search_paths, files);
    if found.len() == 0 {
        assert(rv.2 =~= sv.2);
        assert(rv.1 =~= sv.1);
    } else if found.len() == 1 {
        assert(rv.1 =~= sv.1);
        assert(rv.2 =~= sv.2);
    } else {
        match r.resolved {
            Fact::Ambiguous { candidates, reasons } => {
                assert forall|i: int| 0 <= i < rv.1.len() implies rv.1[i] == sv.1[i] by {
                    assert(resolved_as(candidates@[i], requested, found[i].0, found[i].1, project_root));
                }
                assert(rv.1 =~= sv.1);
                assert(rv.2 =~= sv.2);
            },
            _ => {},
        }
    }
}

} // verus!
