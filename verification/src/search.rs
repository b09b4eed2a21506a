//! Where a project's Python modules are looked up, in order: the project
//! root, the extra Python paths that are directories, and the environment's
//! `site-packages`. Through them the Django model modules and the template
//! tag modules of the project are found.
use vstd::prelude::*;

use crate::interpreter::Interpreter;
use crate::names::PyModuleName;
use crate::modules::{join_strings, join_with};
use crate::paths::{
    components_of, extension_of, file_name_of, joined, parent_of, path_components, path_eq, path_extension,
    path_file_name, path_join, path_parent, path_starts_with, path_strip_prefix, path_with_extension, same_path,
    starts_with_path, stripped_prefix, with_extension,
};
use crate::text::{contains_str, str_eq, str_lt, views};

verus! {

/// How a search path belongs to the project.
#[derive(Clone, Copy, Debug, PartialEq, Eq, Structural)]
pub enum SearchPathKind {
    FirstParty,
    Extra,
    SitePackages,
}

/// A place where Python modules are looked up.
#[derive(Clone, Debug, PartialEq, Eq)]
pub enum SearchPath {
    FirstParty(String),
    Extra(String),
    SitePackages(String),
}

/// A search path by views: its kind and its path.
pub type SearchPathView = (SearchPathKind, Seq<char>);

impl View for SearchPath {
    type V = SearchPathView;

    open spec fn view(&self) -> SearchPathView {
        match self {
            SearchPath::FirstParty(p) => (SearchPathKind::FirstParty, p@),
            SearchPath::Extra(p) => (SearchPathKind::Extra, p@),
            SearchPath::SitePackages(p) => (SearchPathKind::SitePackages, p@),
        }
    }
}

impl SearchPath {
    pub fn path(&self) -> (r: &str)
        ensures
            r@ == self@.1,
    {
        match self {
            SearchPath::FirstParty(p) => p.as_str(),
            SearchPath::Extra(p) => p.as_str(),
            SearchPath::SitePackages(p) => p.as_str(),
        }
    }

    pub fn is_first_party(&self) -> (r: bool)
        ensures
            r == (self@.0 == SearchPathKind::FirstParty),
    {
        match self {
            SearchPath::FirstParty(_) => true,
            _ => false,
        }
    }

    /// The kind an extra Python path gets: `site-packages` when it is the
    /// environment's or lies in an installed-packages directory; first party
    /// under the project root; otherwise extra.
    pub fn from_pythonpath(root: &str, discovered_site_packages: Option<&str>, path: String) -> (r: SearchPath)
        ensures
            r@ == (
                pythonpath_kind(
                    root@,
                    match discovered_site_packages {
                        Some(s) => Some(s@),
                        None => None,
                    },
                    path@,
                ),
                path@,
            ),
    {
        let is_discovered = match discovered_site_packages {
            Some(s) => path_eq(s, path.as_str()),
            None => false,
        };
        if is_discovered || has_installed_package_component(path.as_str()) {
            SearchPath::SitePackages(path)
        } else if path_starts_with(path.as_str(), root) {
            SearchPath::FirstParty(path)
        } else {
            SearchPath::Extra(path)
        }
    }
}

/// A component of the path is `site-packages` or `dist-packages`.
pub open spec fn installed_package_path(path: Seq<char>) -> bool {
    components_of(path).contains("site-packages"@) || components_of(path).contains("dist-packages"@)
}

pub fn has_installed_package_component(path: &str) -> (r: bool)
    ensures
        r == installed_package_path(path@),
{
    let parts = path_components(path);
    contains_str(&parts, "site-packages") || contains_str(&parts, "dist-packages")
}

/// The kind of an extra Python path: see [`SearchPath::from_pythonpath`].
pub open spec fn pythonpath_kind(root: Seq<char>, site_packages: Option<Seq<char>>, path: Seq<char>) -> SearchPathKind {
    if (site_packages matches Some(s) && same_path(s, path)) || installed_package_path(path) {
        SearchPathKind::SitePackages
    } else if starts_with_path(path, root) {
        SearchPathKind::FirstParty
    } else {
        SearchPathKind::Extra
    }
}

/// Some search path of `list` is the path `p`.
pub open spec fn has_path(list: Seq<SearchPathView>, p: Seq<char>) -> bool {
    exists|i: int| 0 <= i < list.len() && same_path(#[trigger] list[i].1, p)
}

/// The search paths after the extra Python paths `pythonpath`: each in turn
/// that is a directory and not there yet is added with its kind.
pub open spec fn with_pythonpath(
    start: Seq<SearchPathView>,
    root: Seq<char>,
    site_packages: Option<Seq<char>>,
    pythonpath: Seq<Seq<char>>,
    dirs: Seq<Seq<char>>,
) -> Seq<SearchPathView>
    decreases pythonpath.len(),
{
    if pythonpath.len() == 0 {
        start
    } else {
        let prev = with_pythonpath(start, root, site_packages, pythonpath.drop_last(), dirs);
        let p = pythonpath.last();
        if !dirs.contains(p) || has_path(prev, p) {
            prev
        } else {
            prev.push((pythonpath_kind(root, site_packages, p), p))
        }
    }
}

/// The search paths of a project: its root (first party), then the extra
/// Python paths (see [`with_pythonpath`]), then the environment's
/// `site-packages` unless it is there already.
pub open spec fn project_search_paths(
    root: Seq<char>,
    site_packages: Option<Seq<char>>,
    pythonpath: Seq<Seq<char>>,
    dirs: Seq<Seq<char>>,
) -> Seq<SearchPathView> {
    let listed = with_pythonpath(seq![(SearchPathKind::FirstParty, root)], root, site_packages, pythonpath, dirs);
    match site_packages {
        Some(s) => if has_path(listed, s) {
            listed
        } else {
            listed.push((SearchPathKind::SitePackages, s))
        },
        None => listed,
    }
}

/// The `site-packages` directory of an interpreter's environment: see
/// [`Interpreter::site_packages_path`].
pub open spec fn interpreter_site_packages(
    interpreter: Interpreter,
    root: Seq<char>,
    windows: bool,
    dirs: Seq<Seq<char>>,
    listings: Seq<(String, Vec<(String, bool)>)>,
) -> Option<Seq<char>> {
    match interpreter {
        Interpreter::VenvPath(v) => crate::interpreter::venv_site_packages(v@, windows, dirs, listings),
        Interpreter::Auto => crate::interpreter::first_venv_site_packages(
            crate::interpreter::auto_venvs(root),
            windows,
            dirs,
            listings,
        ),
        Interpreter::InterpreterPath(_) => None,
    }
}

/// The search paths of a project, in order.
#[derive(Clone, Debug, PartialEq, Eq)]
pub struct SearchPaths {
    paths: Vec<SearchPath>,
}

pub open spec fn path_views(v: Seq<SearchPath>) -> Seq<SearchPathView> {
    v.map_values(|p: SearchPath| p@)
}

impl View for SearchPaths {
    type V = Seq<SearchPathView>;

    closed spec fn view(&self) -> Seq<SearchPathView> {
        path_views(self.paths@)
    }
}

impl SearchPaths {
    /// The search paths, in order.
    pub fn paths(&self) -> (r: &Vec<SearchPath>)
        ensures
            path_views(r@) == self@,
    {
        &self.paths
    }

    /// Whether one of the search paths is `path`.
    pub fn contains_path(&self, path: &str) -> (r: bool)
        ensures
            r == has_path(self@, path@),
    {
        let mut i: usize = 0;
        while i < self.paths.len()
            invariant
                i <= self.paths.len(),
                forall|k: int| 0 <= k < i ==> !same_path(path_views(self.paths@)[k].1, path@),
            decreases self.paths.len() - i,
        {
            if path_eq(self.paths[i].path(), path) {
                assert(same_path(path_views(self.paths@)[i as int].1, path@));
                return true;
            }
            i = i + 1;
        }
        false
    }

    /// The search paths of a project rooted at `root` whose interpreter is
    /// `interpreter`, with the extra Python paths `pythonpath`; `dirs` are the
    /// directories that exist and `listings` the contents of those listed (see
    /// [`Interpreter::site_packages_path`]).
    pub fn from_project_settings(
        root: &str,
        interpreter: &Interpreter,
        windows: bool,
        pythonpath: &Vec<String>,
        dirs: &Vec<String>,
        listings: &Vec<(String, Vec<(String, bool)>)>,
    ) -> (r: SearchPaths)
        ensures
            r@ == project_search_paths(
                root@,
                interpreter_site_packages(*interpreter, root@, windows, views(dirs@), listings@),
                views(pythonpath@),
                views(dirs@),
            ),
    {
        let site_packages = interpreter.site_packages_path(root, windows, dirs, listings);
        assert(crate::paths::opt_view(site_packages) == interpreter_site_packages(*interpreter, root@, windows, views(dirs@), listings@));
        let ghost site = crate::paths::opt_view(site_packages);
        let mut search_paths = SearchPaths { paths: vec![SearchPath::FirstParty(root.to_string())] };
        assert(search_paths@ =~= seq![(SearchPathKind::FirstParty, root@)]);
        let ghost start = search_paths@;
        let mut i: usize = 0;
        assert(views(pythonpath@).take(0) =~= Seq::<Seq<char>>::empty());
        while i < pythonpath.len()
            invariant
                i <= pythonpath.len(),
                site == crate::paths::opt_view(site_packages),
                start == seq![(SearchPathKind::FirstParty, root@)],
                search_paths@ == with_pythonpath(start, root@, site, views(pythonpath@).take(i as int), views(dirs@)),
            decreases pythonpath.len() - i,
        {
            assert(views(pythonpath@).take(i + 1).drop_last() =~= views(pythonpath@).take(i as int));
            let path = &pythonpath[i];
            if contains_str(dirs, path.as_str()) && !search_paths.contains_path(path.as_str()) {
                let discovered = match &site_packages {
                    Some(s) => Some(s.as_str()),
                    None => None,
                };
                let sp = SearchPath::from_pythonpath(root, discovered, path.clone());
                let ghost before = search_paths@;
                search_paths.paths.push(sp);
                assert(search_paths@ =~= before.push(sp@));
            }
            i = i + 1;
        }
        assert(views(pythonpath@).take(i as int) =~= views(pythonpath@));
        match site_packages {
            Some(s) => {
                if !search_paths.contains_path(s.as_str()) {
                    let ghost before = search_paths@;
                    let sp = SearchPath::SitePackages(s);
                    search_paths.paths.push(sp);
                    assert(search_paths@ =~= before.push(sp@));
                }
            },
            None => {},
        }
        search_paths
    }

    /// The file roots the search paths give, each with its kind: first-party
    /// paths under a project root already given are left out.
    pub fn file_roots(&self) -> (r: Vec<(String, FileRootKind)>)
        ensures
            root_views(r@) == roots_of(self@),
    {
        let ghost all = self@;
        let mut roots: Vec<(String, FileRootKind)> = Vec::new();
        let mut i: usize = 0;
        assert(root_views(roots@) =~= roots_of(all.take(0)));
        while i < self.paths.len()
            invariant
                i <= self.paths.len(),
                all == self@,
                all == path_views(self.paths@),
                root_views(roots@) == roots_of(all.take(i as int)),
            decreases self.paths.len() - i,
        {
            assert(all.take(i + 1).drop_last() =~= all.take(i as int));
            assert(all.take(i + 1).last() == self.paths@[i as int]@);
            let sp = &self.paths[i];
            let mut covered = false;
            if sp.is_first_party() {
                let mut k: usize = 0;
                while k < roots.len()
                    invariant
                        k <= roots.len(),
                        !covered ==> forall|j: int|
                            0 <= j < k ==> !covers(#[trigger] root_views(roots@)[j], sp@.1),
                        covered ==> exists|j: int|
                            0 <= j < roots.len() && covers(#[trigger] root_views(roots@)[j], sp@.1),
                    decreases roots.len() - k,
                {
                    if roots[k].1 == FileRootKind::Project && path_starts_with(sp.path(), roots[k].0.as_str()) {
                        assert(covers(root_views(roots@)[k as int], sp@.1));
                        covered = true;
                    }
                    k = k + 1;
                }
            }
            if !covered {
                let ghost before = root_views(roots@);
                let kind = if sp.is_first_party() {
                    FileRootKind::Project
                } else {
                    match sp {
                        SearchPath::Extra(_) => FileRootKind::Project,
                        _ => FileRootKind::SearchPath,
                    }
                };
                roots.push((sp.path().to_string(), kind));
                assert(root_views(roots@) =~= before.push((sp@.1, root_kind(sp@.0))));
            }
            i = i + 1;
        }
        assert(all.take(i as int) =~= all);
        roots
    }
}

/// How the files under a root change: project files are edited, search-path
/// files rarely change.
#[derive(Clone, Copy, Debug, PartialEq, Eq, Structural)]
pub enum FileRootKind {
    Project,
    SearchPath,
}

/// Extra Python paths hold code of the user, so they are project roots too.
pub open spec fn root_kind(kind: SearchPathKind) -> FileRootKind {
    match kind {
        SearchPathKind::SitePackages => FileRootKind::SearchPath,
        _ => FileRootKind::Project,
    }
}

pub open spec fn root_views(v: Seq<(String, FileRootKind)>) -> Seq<(Seq<char>, FileRootKind)> {
    v.map_values(|r: (String, FileRootKind)| (r.0@, r.1))
}

/// A project root that holds the path.
pub open spec fn covers(root: (Seq<char>, FileRootKind), path: Seq<char>) -> bool {
    root.1 == FileRootKind::Project && starts_with_path(path, root.0)
}

/// The file roots of the search paths: see [`SearchPaths::file_roots`].
pub open spec fn roots_of(paths: Seq<SearchPathView>) -> Seq<(Seq<char>, FileRootKind)>
    decreases paths.len(),
{
    if paths.len() == 0 {
        Seq::empty()
    } else {
        let prev = roots_of(paths.drop_last());
        let sp = paths.last();
        if sp.0 == SearchPathKind::FirstParty && exists|j: int| 0 <= j < prev.len() && covers(#[trigger] prev[j], sp.1) {
            prev
        } else {
            prev.push((sp.1, root_kind(sp.0)))
        }
    }
}

// ---- model modules ----

/// The dotted module path of a file relative to its search path: its
/// components without the `.py` extension, joined with dots; a package's
/// `__init__.py` stands for the package.
pub open spec fn dotted_path_of(relative: Seq<char>) -> Seq<char> {
    if file_name_of(relative) == Some("__init__.py"@) {
        match parent_of(relative) {
            Some(p) => join_with(components_of(p), '.'),
            None => Seq::empty(),
        }
    } else {
        join_with(components_of(with_extension(relative, ""@)), '.')
    }
}

pub fn dotted_path_from_relative_path(relative: &str) -> (r: String)
    ensures
        r@ == dotted_path_of(relative@),
{
    proof {
        reveal_strlit(".");
    }
    let is_init = match path_file_name(relative) {
        Some(n) => str_eq(n.as_str(), "__init__.py"),
        None => false,
    };
    if is_init {
        match path_parent(relative) {
            Some(p) => join_strings(&path_components(p.as_str()), "."),
            None => String::new(),
        }
    } else {
        proof {
            reveal_strlit("");
        }
        let stem = path_with_extension(relative, "");
        join_strings(&path_components(stem.as_str()), ".")
    }
}

/// Going up from `dir`: the first directory named `models` decides, by
/// whether its `__init__.py` exists; with none, the file is no model source.
pub open spec fn in_models_package(dir: Option<Seq<char>>, existing: Seq<Seq<char>>) -> bool
    decreases (match dir {
        Some(d) => d.len() + 1,
        None => 0,
    }),
{
    match dir {
        None => false,
        Some(d) => if file_name_of(d) == Some("models"@) {
            existing.contains(joined(d, "__init__.py"@))
        } else {
            match parent_of(d) {
                Some(next) => if next.len() < d.len() {
                    in_models_package(Some(next), existing)
                } else {
                    false
                },
                None => false,
            }
        },
    }
}

/// A Django model source: a `models.py`, or a Python file inside a `models`
/// package.
pub open spec fn is_model_source(path: Seq<char>, existing: Seq<Seq<char>>) -> bool {
    if file_name_of(path) == Some("models.py"@) {
        true
    } else if extension_of(path) == Some("py"@) {
        in_models_package(parent_of(path), existing)
    } else {
        false
    }
}

fn model_source(path: &str, existing: &Vec<String>) -> (r: bool)
    ensures
        r == is_model_source(path@, views(existing@)),
{
    let ghost ex = views(existing@);
    let is_models_file = match path_file_name(path) {
        Some(n) => str_eq(n.as_str(), "models.py"),
        None => false,
    };
    if is_models_file {
        return true;
    }
    let is_python = match path_extension(path) {
        Some(e) => str_eq(e.as_str(), "py"),
        None => false,
    };
    if !is_python {
        return false;
    }
    let mut dir = path_parent(path);
    loop
        invariant
            ex == views(existing@),
            is_model_source(path@, ex) == in_models_package(parent_of(path@), ex),
            in_models_package(crate::paths::opt_view(dir), ex) == in_models_package(parent_of(path@), ex),
        decreases (match dir {
            Some(d) => d@.len() + 1,
            None => 0,
        }),
    {
        match dir {
            None => {
                return false;
            },
            Some(d) => {
                let named_models = match path_file_name(d.as_str()) {
                    Some(n) => str_eq(n.as_str(), "models"),
                    None => false,
                };
                if named_models {
                    return contains_str(existing, path_join(d.as_str(), "__init__.py").as_str());
                }
                dir = path_parent(d.as_str());
            },
        }
    }
}

/// A module found in a search path: its dotted path and its file.
#[derive(Clone, Debug, PartialEq, Eq)]
pub struct PythonModule {
    pub dotted_path: String,
    pub path: String,
}

pub open spec fn module_views(v: Seq<PythonModule>) -> Seq<(Seq<char>, Seq<char>)> {
    v.map_values(|m: PythonModule| (m.dotted_path@, m.path@))
}

/// The model sources among the files walked under `base_dir`: those not
/// under an excluded root, with their module paths, in walk order.
pub open spec fn model_sources(
    base_dir: Seq<char>,
    walked: Seq<Seq<char>>,
    excluded: Seq<Seq<char>>,
    existing: Seq<Seq<char>>,
) -> Seq<(Seq<char>, Seq<char>)>
    decreases walked.len(),
{
    if walked.len() == 0 {
        Seq::empty()
    } else {
        let prev = model_sources(base_dir, walked.drop_last(), excluded, existing);
        let path = walked.last();
        if !is_model_source(path, existing) || exists|k: int|
            0 <= k < excluded.len() && starts_with_path(path, #[trigger] excluded[k]) {
            prev
        } else {
            match stripped_prefix(path, base_dir) {
                Some(rel) => prev.push((dotted_path_of(rel), path)),
                None => prev,
            }
        }
    }
}

/// `x` put into `s` after every module whose path is not above its own.
pub open spec fn insort(s: Seq<(Seq<char>, Seq<char>)>, x: (Seq<char>, Seq<char>)) -> Seq<(Seq<char>, Seq<char>)>
    decreases s.len(),
{
    if s.len() == 0 {
        seq![x]
    } else if str_lt(x.0, s.last().0) {
        insort(s.drop_last(), x).push(s.last())
    } else {
        s.push(x)
    }
}

/// The modules sorted by module path, equal paths kept in their order.
pub open spec fn sorted_modules(t: Seq<(Seq<char>, Seq<char>)>) -> Seq<(Seq<char>, Seq<char>)>
    decreases t.len(),
{
    if t.len() == 0 {
        Seq::empty()
    } else {
        insort(sorted_modules(t.drop_last()), t.last())
    }
}

/// The Django model sources among the files walked under `base_dir` (see
/// [`model_sources`]), sorted by module path; `existing` are the paths that
/// exist.
pub fn discover_model_files_excluding(
    base_dir: &str,
    walked: &Vec<String>,
    excluded_roots: &Vec<String>,
    existing: &Vec<String>,
) -> (r: Vec<PythonModule>)
    ensures
        module_views(r@) == sorted_modules(
            model_sources(base_dir@, views(walked@), views(excluded_roots@), views(existing@)),
        ),
{
    let ghost found = model_sources(base_dir@, views(walked@), views(excluded_roots@), views(existing@));
    let mut results: Vec<PythonModule> = Vec::new();
    let mut i: usize = 0;
    assert(module_views(results@) =~= model_sources(base_dir@, views(walked@).take(0), views(excluded_roots@), views(existing@)));
    while i < walked.len()
        invariant
            i <= walked.len(),
            module_views(results@) == model_sources(base_dir@, views(walked@).take(i as int), views(excluded_roots@), views(existing@)),
        decreases walked.len() - i,
    {
        assert(views(walked@).take(i + 1).drop_last() =~= views(walked@).take(i as int));
        let path = walked[i].as_str();
        let ghost before = module_views(results@);
        if model_source(path, existing) {
            let mut excluded = false;
            let mut k: usize = 0;
            while k < excluded_roots.len()
                invariant
                    k <= excluded_roots.len(),
                    excluded == exists|j: int|
                        0 <= j < k && starts_with_path(path@, #[trigger] views(excluded_roots@)[j]),
                decreases excluded_roots.len() - k,
            {
                if path_starts_with(path, excluded_roots[k].as_str()) {
                    assert(starts_with_path(path@, views(excluded_roots@)[k as int]));
                    excluded = true;
                }
                k = k + 1;
            }
            if !excluded {
                match path_strip_prefix(path, base_dir) {
                    Some(rel) => {
                        let dotted_path = dotted_path_from_relative_path(rel.as_str());
                        results.push(PythonModule { dotted_path, path: path.to_string() });
                        assert(module_views(results@) =~= before.push((dotted_path@, path@)));
                    },
                    None => {},
                }
            }
        }
        i = i + 1;
    }
    assert(views(walked@).take(i as int) =~= views(walked@));
    sort_by_dotted_path(results)
}

/// Sorts the modules by module path, keeping the order of equal ones.
fn sort_by_dotted_path(v: Vec<PythonModule>) -> (r: Vec<PythonModule>)
    ensures
        module_views(r@) == sorted_modules(module_views(v@)),
{
    let ghost t = module_views(v@);
    let mut out: Vec<PythonModule> = Vec::new();
    let mut i: usize = 0;
    while i < v.len()
        invariant
            i <= v.len(),
            t == module_views(v@),
            module_views(out@) == sorted_modules(t.take(i as int)),
        decreases v.len() - i,
    {
        let item = PythonModule { dotted_path: v[i].dotted_path.clone(), path: v[i].path.clone() };
        let ghost ov = module_views(out@);
        let ghost x = (item.dotted_path@, item.path@);
        assert(x == t[i as int]);
        assert(t.take(i + 1).drop_last() =~= t.take(i as int));
        let mut pos: usize = out.len();
        assert(ov.take(pos as int) =~= ov);
        assert(ov.skip(pos as int) =~= Seq::<(Seq<char>, Seq<char>)>::empty());
        while pos > 0 && crate::text::compare_str(item.dotted_path.as_str(), out[pos - 1].dotted_path.as_str()) < 0
            invariant
                pos <= out.len(),
                ov == module_views(out@),
                x == (item.dotted_path@, item.path@),
                insort(ov, x) == insort(ov.take(pos as int), x) + ov.skip(pos as int),
            decreases pos,
        {
            let ghost p = pos as int;
            assert(ov.take(p).drop_last() =~= ov.take(p - 1));
            assert(ov.take(p).last() == ov[p - 1]);
            assert(ov.skip(p - 1) =~= seq![ov[p - 1]] + ov.skip(p));
            assert(insort(ov.take(p), x) == insort(ov.take(p - 1), x).push(ov[p - 1]));
            assert(insort(ov.take(p - 1), x).push(ov[p - 1]) + ov.skip(p) =~= insort(ov.take(p - 1), x) + ov.skip(p - 1));
            pos = pos - 1;
        }
        proof {
            let p = pos as int;
            if p > 0 {
                assert(ov.take(p).last() == ov[p - 1]);
            }
            assert(insort(ov.take(p), x) == ov.take(p).push(x));
        }
        out.insert(pos, item);
        assert(module_views(out@) =~= ov.take(pos as int).push(x) + ov.skip(pos as int));
        i = i + 1;
    }
    assert(t.take(i as int) =~= t);
    out
}

/// The search paths that are not first party and lie under `base`.
pub open spec fn nested_external(paths: Seq<SearchPathView>, base: Seq<char>) -> Seq<Seq<char>>
    decreases paths.len(),
{
    if paths.len() == 0 {
        Seq::empty()
    } else {
        let prev = nested_external(paths.drop_last(), base);
        let o = paths.last();
        if o.0 != SearchPathKind::FirstParty && starts_with_path(o.1, base) {
            prev.push(o.1)
        } else {
            prev
        }
    }
}

/// What a search path leaves out when walked for models: a first-party path
/// leaves out the other search paths under it that are not first party.
pub open spec fn excluded_for(paths: Seq<SearchPathView>, sp: SearchPathView) -> Seq<Seq<char>> {
    if sp.0 == SearchPathKind::FirstParty {
        nested_external(paths, sp.1)
    } else {
        Seq::empty()
    }
}

/// A model module with the length (in bytes) of the search path it was
/// found through.
pub type ModelEntry = (nat, (Seq<char>, Seq<char>));

/// The index of the entry for the file `file`.
pub open spec fn entry_for(acc: Seq<ModelEntry>, file: Seq<char>) -> Option<int>
    decreases acc.len(),
{
    if acc.len() == 0 {
        None
    } else {
        match entry_for(acc.drop_last(), file) {
            Some(k) => Some(k),
            None => if same_path(acc.last().1.1, file) {
                Some(acc.len() - 1)
            } else {
                None
            },
        }
    }
}

/// The entries with the module `m`, found through a search path `len` bytes
/// long: a file seen before keeps the module of the longest search path.
pub open spec fn upsert_model(acc: Seq<ModelEntry>, len: nat, m: (Seq<char>, Seq<char>)) -> Seq<ModelEntry> {
    match entry_for(acc, m.1) {
        Some(k) => if len > acc[k].0 {
            acc.update(k, (len, m))
        } else {
            acc
        },
        None => acc.push((len, m)),
    }
}

pub open spec fn upsert_models(acc: Seq<ModelEntry>, len: nat, found: Seq<(Seq<char>, Seq<char>)>) -> Seq<ModelEntry>
    decreases found.len(),
{
    if found.len() == 0 {
        acc
    } else {
        upsert_model(upsert_models(acc, len, found.drop_last()), len, found.last())
    }
}

/// The model entries after the first `n` search paths, each walked (its
/// files in `walks`) for model sources.
pub open spec fn model_entries(
    paths: Seq<SearchPathView>,
    walks: Seq<Seq<Seq<char>>>,
    existing: Seq<Seq<char>>,
    n: int,
) -> Seq<ModelEntry>
    decreases n,
{
    if n <= 0 {
        Seq::empty()
    } else {
        let sp = paths[n - 1];
        let found = sorted_modules(
            model_sources(
                sp.1,
                if n - 1 < walks.len() {
                    walks[n - 1]
                } else {
                    Seq::empty()
                },
                excluded_for(paths, sp),
                existing,
            ),
        );
        upsert_models(model_entries(paths, walks, existing, n - 1), crate::text::utf8(sp.1).len(), found)
    }
}

pub open spec fn walk_views(walks: Seq<Vec<String>>) -> Seq<Seq<Seq<char>>> {
    walks.map_values(|w: Vec<String>| views(w@))
}

fn excluded_paths(paths: &Vec<SearchPath>, sp: &SearchPath) -> (r: Vec<String>)
    ensures
        views(r@) == excluded_for(path_views(paths@), sp@),
{
    let ghost pv = path_views(paths@);
    let mut out: Vec<String> = Vec::new();
    if !sp.is_first_party() {
        assert(views(out@) =~= Seq::<Seq<char>>::empty());
        return out;
    }
    let mut i: usize = 0;
    assert(views(out@) =~= nested_external(pv.take(0), sp@.1));
    while i < paths.len()
        invariant
            i <= paths.len(),
            pv == path_views(paths@),
            views(out@) == nested_external(pv.take(i as int), sp@.1),
        decreases paths.len() - i,
    {
        assert(pv.take(i + 1).drop_last() =~= pv.take(i as int));
        assert(pv.take(i + 1).last() == paths@[i as int]@);
        let o = &paths[i];
        if !o.is_first_party() && path_starts_with(o.path(), sp.path()) {
            let ghost before = views(out@);
            out.push(o.path().to_string());
            assert(views(out@) =~= before.push(o@.1));
        }
        i = i + 1;
    }
    assert(pv.take(i as int) =~= pv);
    out
}

pub open spec fn entry_views(v: Seq<(usize, PythonModule)>) -> Seq<ModelEntry> {
    v.map_values(|e: (usize, PythonModule)| (e.0 as nat, (e.1.dotted_path@, e.1.path@)))
}

fn upsert_model_entry(entries: &mut Vec<(usize, PythonModule)>, len: usize, m: PythonModule)
    ensures
        entry_views(final(entries)@) == upsert_model(entry_views(old(entries)@), len as nat, (m.dotted_path@, m.path@)),
{
    let ghost ev = entry_views(entries@);
    let mut k: usize = 0;
    while k < entries.len()
        invariant
            k <= entries.len(),
            ev == entry_views(entries@),
            ev == entry_views(old(entries)@),
            entry_for(ev.take(k as int), m.path@) is None,
        decreases entries.len() - k,
    {
        assert(ev.take(k + 1).drop_last() =~= ev.take(k as int));
        if path_eq(entries[k].1.path.as_str(), m.path.as_str()) {
            proof {
                assert(ev.take(k + 1).last() == ev[k as int]);
                assert(entry_for(ev.take(k + 1), m.path@) == Some(k as int));
                lemma_entry_for_prefix(ev, m.path@, (k + 1) as int);
            }
            if len > entries[k].0 {
                let ghost x = (len as nat, (m.dotted_path@, m.path@));
                entries.set(k, (len, m));
                assert(entry_views(entries@) =~= ev.update(k as int, x));
            }
            return ;
        }
        k = k + 1;
    }
    assert(ev.take(k as int) =~= ev);
    let ghost x = (len as nat, (m.dotted_path@, m.path@));
    entries.push((len, m));
    assert(entry_views(entries@) =~= ev.push(x));
}

/// The entry for a file found in a prefix is the entry for it overall.
proof fn lemma_entry_for_prefix(acc: Seq<ModelEntry>, file: Seq<char>, m: int)
    requires
        0 <= m <= acc.len(),
        entry_for(acc.take(m), file) is Some,
    ensures
        entry_for(acc, file) == entry_for(acc.take(m), file),
    decreases acc.len() - m,
{
    if m < acc.len() {
        assert(acc.take(m + 1).drop_last() =~= acc.take(m));
        lemma_entry_for_prefix(acc, file, m + 1);
    } else {
        assert(acc.take(m) =~= acc);
    }
}

/// The Django model modules of a project: each search path is walked (its
/// files in `walks`, in order) for model sources, a first-party path leaving
/// out the other search paths under it; a file found through several search
/// paths keeps the module of the longest; the files come in the order first
/// found. `existing` are the paths that exist.
pub fn model_modules(search_paths: &SearchPaths, walks: &Vec<Vec<String>>, existing: &Vec<String>) -> (r: Vec<
    PythonModule,
>)
    ensures
        module_views(r@) == model_entries(search_paths@, walk_views(walks@), views(existing@), search_paths@.len() as int).map_values(
            |e: ModelEntry| e.1,
        ),
{
    let paths = search_paths.paths();
    let ghost pv = path_views(paths@);
    let mut entries: Vec<(usize, PythonModule)> = Vec::new();
    let mut i: usize = 0;
    assert(entry_views(entries@) =~= Seq::<ModelEntry>::empty());
    while i < paths.len()
        invariant
            i <= paths.len(),
            pv == path_views(paths@),
            pv == search_paths@,
            entry_views(entries@) == model_entries(pv, walk_views(walks@), views(existing@), i as int),
        decreases paths.len() - i,
    {
        let sp = &paths[i];
        assert(pv[i as int] == sp@);
        let excluded = excluded_paths(paths, sp);
        let empty: Vec<String> = Vec::new();
        let walked = if i < walks.len() {
            &walks[i]
        } else {
            &empty
        };
        assert(views(walked@) == if i < walks.len() {
            walk_views(walks@)[i as int]
        } else {
            Seq::<Seq<char>>::empty()
        });
        let found = discover_model_files_excluding(sp.path(), walked, &excluded, existing);
        let len = sp.path().as_bytes().len();
        let ghost fv = module_views(found@);
        let mut j: usize = 0;
        let ghost start = entry_views(entries@);
        while j < found.len()
            invariant
                j <= found.len(),
                fv == module_views(found@),
                len == crate::text::utf8(sp@.1).len(),
                entry_views(entries@) == upsert_models(start, len as nat, fv.take(j as int)),
            decreases found.len() - j,
        {
            assert(fv.take(j + 1).drop_last() =~= fv.take(j as int));
            let m = PythonModule { dotted_path: found[j].dotted_path.clone(), path: found[j].path.clone() };
            assert((m.dotted_path@, m.path@) == fv[j as int]);
            upsert_model_entry(&mut entries, len, m);
            j = j + 1;
        }
        assert(fv.take(j as int) =~= fv);
        i = i + 1;
    }
    let ghost ev = entry_views(entries@);
    let ghost mv = ev.map_values(|e: ModelEntry| e.1);
    let mut out: Vec<PythonModule> = Vec::new();
    let mut k: usize = 0;
    while k < entries.len()
        invariant
            k <= entries.len(),
            ev == entry_views(entries@),
            mv == ev.map_values(|e: ModelEntry| e.1),
            module_views(out@) == mv.take(k as int),
        decreases entries.len() - k,
    {
        let e = &entries[k].1;
        let ghost before = module_views(out@);
        out.push(PythonModule { dotted_path: e.dotted_path.clone(), path: e.path.clone() });
        assert(mv[k as int] == (e.dotted_path@, e.path@));
        assert(module_views(out@) =~= before.push(mv[k as int]));
        assert(module_views(out@) =~= mv.take(k + 1));
        k = k + 1;
    }
    assert(mv.take(k as int) =~= mv);
    out
}

// ---- template tag modules ----

/// The file of the module `m` under `search_path`: `<path>.py` first, then
/// `<path>/__init__.py`, when it exists.
pub open spec fn templatetag_file(m: Seq<char>, search_path: Seq<char>, files: Seq<Seq<char>>) -> Option<Seq<char>> {
    let (package, module) = crate::modules::module_files(m, search_path);
    if files.contains(module) {
        Some(module)
    } else if files.contains(package) {
        Some(package)
    } else {
        None
    }
}

pub fn templatetag_module_file(m: &PyModuleName, search_path: &str, files: &Vec<String>) -> (r: Option<String>)
    ensures
        crate::paths::opt_view(r) == templatetag_file(m@, search_path@, views(files@)),
{
    let (package, module) = crate::modules::module_file_candidates(m, search_path);
    if contains_str(files, module.as_str()) {
        Some(module)
    } else if contains_str(files, package.as_str()) {
        Some(package)
    } else {
        None
    }
}

/// The file of the module `m` in the first search path that has it.
pub open spec fn first_templatetag_file(m: Seq<char>, paths: Seq<SearchPathView>, files: Seq<Seq<char>>) -> Option<
    Seq<char>,
>
    decreases paths.len(),
{
    if paths.len() == 0 {
        None
    } else {
        match templatetag_file(m, paths[0].1, files) {
            Some(f) => Some(f),
            None => first_templatetag_file(m, paths.drop_first(), files),
        }
    }
}

/// The template tag modules: each registration module, in order, with its
/// file in the first search path that has one; modules without a file are
/// left out.
pub open spec fn templatetag_modules_of(
    modules: Seq<Seq<char>>,
    paths: Seq<SearchPathView>,
    files: Seq<Seq<char>>,
) -> Seq<(Seq<char>, Seq<char>)>
    decreases modules.len(),
{
    if modules.len() == 0 {
        Seq::empty()
    } else {
        let prev = templatetag_modules_of(modules.drop_last(), paths, files);
        match first_templatetag_file(modules.last(), paths, files) {
            Some(f) => prev.push((modules.last(), f)),
            None => prev,
        }
    }
}

/// The template tag modules of the registration modules `modules` (see
/// [`templatetag_modules_of`]).
pub fn templatetag_modules(modules: &Vec<PyModuleName>, search_paths: &SearchPaths, files: &Vec<String>) -> (r: Vec<
    PythonModule,
>)
    ensures
        module_views(r@) == templatetag_modules_of(
            modules@.map_values(|m: PyModuleName| m@),
            search_paths@,
            views(files@),
        ),
{
    let paths = search_paths.paths();
    let ghost mv = modules@.map_values(|m: PyModuleName| m@);
    let mut out: Vec<PythonModule> = Vec::new();
    let mut i: usize = 0;
    assert(module_views(out@) =~= templatetag_modules_of(mv.take(0), search_paths@, views(files@)));
    while i < modules.len()
        invariant
            i <= modules.len(),
            mv == modules@.map_values(|m: PyModuleName| m@),
            path_views(paths@) == search_paths@,
            module_views(out@) == templatetag_modules_of(mv.take(i as int), search_paths@, views(files@)),
        decreases modules.len() - i,
    {
        assert(mv.take(i + 1).drop_last() =~= mv.take(i as int));
        assert(mv.take(i + 1).last() == modules@[i as int]@);
        let m = &modules[i];
        let mut k: usize = 0;
        let mut found: Option<String> = None;
        assert(search_paths@.skip(0) =~= search_paths@);
        while k < paths.len() && found.is_none()
            invariant
                k <= paths.len(),
                path_views(paths@) == search_paths@,
                found is None ==> first_templatetag_file(m@, search_paths@, views(files@))
                    == first_templatetag_file(m@, search_paths@.skip(k as int), views(files@)),
                found matches Some(f) ==> first_templatetag_file(m@, search_paths@, views(files@)) == Some(f@),
            decreases paths.len() - k,
        {
            assert(search_paths@.skip(k as int)[0] == paths@[k as int]@);
            assert(search_paths@.skip(k as int).drop_first() =~= search_paths@.skip(k + 1));
            found = templatetag_module_file(m, paths[k].path(), files);
            k = k + 1;
        }
        if found.is_none() {
            assert(search_paths@.skip(k as int) =~= Seq::<SearchPathView>::empty());
        }
        match found {
            Some(f) => {
                let ghost before = module_views(out@);
                out.push(PythonModule { dotted_path: m.as_str().to_string(), path: f });
                assert(module_views(out@) =~= before.push((m@, f@)));
            },
            None => {},
        }
        i = i + 1;
    }
    assert(mv.take(i as int) =~= mv);
    out
}

} // verus!
