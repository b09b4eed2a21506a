//! Project-level rules: which template backends count, where an installed
//! app's package is, how sure a combination of facts is, what a refresh of
//! external project data touches, and which variables a project's env file sets.
use vstd::prelude::*;
use vstd::string::StrSliceExecFns;
use vstd::string::StringExecFns;

use crate::libraries::segment_start;
use crate::paths::{joined, path_join};
use crate::path_order::{sort_unique_paths, sorted_unique_paths};
use crate::registry::StaticKnowledge;
use crate::text::{contains_str, str_eq, views};

verus! {

broadcast use vstd::seq::Seq::group_seq_extra;

/// Whether a backend counts as Django's template backend: it names it, or it
/// names none and is the only backend.
pub open spec fn is_django_templates_backend_spec(backend: Option<Seq<char>>, backend_count: nat) -> bool {
    match backend {
        Some(b) => b == "django.template.backends.django.DjangoTemplates"@,
        None => backend_count == 1,
    }
}

pub fn is_django_templates_backend(backend: Option<&str>, backend_count: usize) -> (r: bool)
    ensures
        r == is_django_templates_backend_spec(
            match backend {
                Some(b) => Some(b@),
                None => None,
            },
            backend_count as nat,
        ),
{
    match backend {
        Some(b) => str_eq(b, "django.template.backends.django.DjangoTemplates"),
        None => backend_count == 1,
    }
}

/// `pat` occurs in `s` at `i`.
pub open spec fn occurs_at(s: Seq<char>, pat: Seq<char>, i: int) -> bool {
    0 <= i && i + pat.len() <= s.len() && s.subrange(i, i + pat.len()) == pat
}

/// Where `pat` first occurs in `s`.
pub open spec fn first_occurrence(s: Seq<char>, pat: Seq<char>) -> Option<int> {
    if exists|i: int| #[trigger] occurs_at(s, pat, i) {
        Some(choose|i: int| #[trigger] occurs_at(s, pat, i) && forall|j: int| 0 <= j < i ==> !occurs_at(s, pat, j))
    } else {
        None
    }
}

/// The package module of an `INSTALLED_APPS` entry: what precedes the first
/// `.apps.`; for an entry ending in `Config`, what precedes its last dot; else
/// the entry itself.
pub open spec fn package_module(app: Seq<char>) -> Seq<char> {
    match first_occurrence(app, ".apps."@) {
        Some(i) => app.take(i),
        None => if app.len() >= 6 && app.skip(app.len() - 6) == "Config"@ {
            if segment_start(app) > 0 {
                app.take(segment_start(app) - 1)
            } else {
                app
            }
        } else {
            app
        },
    }
}

proof fn lemma_first_occurrence_at(s: Seq<char>, pat: Seq<char>, i: int)
    requires
        occurs_at(s, pat, i),
        forall|j: int| 0 <= j < i ==> !occurs_at(s, pat, j),
    ensures
        first_occurrence(s, pat) == Some(i),
{
    let k = choose|k: int| #[trigger] occurs_at(s, pat, k) && forall|j: int| 0 <= j < k ==> !occurs_at(s, pat, j);
    assert(occurs_at(s, pat, k) && forall|j: int| 0 <= j < k ==> !occurs_at(s, pat, j));
    if k < i {
    } else if k > i {
        assert(!occurs_at(s, pat, i));
    }
}

/// The package module that an `INSTALLED_APPS` entry names.
pub fn installed_app_package_module(installed_app: &str) -> (r: &str)
    ensures
        r@ == package_module(installed_app@),
{
    let n = installed_app.unicode_len();
    proof {
        reveal_strlit(".apps.");
        reveal_strlit("Config");
    }
    let mut i: usize = 0;
    while n >= 6 && i <= n - 6
        invariant
            i <= n,
            n == installed_app@.len(),
            ".apps."@.len() == 6,
            forall|j: int| 0 <= j < i ==> !occurs_at(installed_app@, ".apps."@, j),
        decreases n - i,
    {
        if str_eq(installed_app.substring_char(i, i + 6), ".apps.") {
            proof {
                lemma_first_occurrence_at(installed_app@, ".apps."@, i as int);
            }
            return installed_app.substring_char(0, i);
        }
        i = i + 1;
    }
    assert(first_occurrence(installed_app@, ".apps."@) is None) by {
        assert forall|j: int| !occurs_at(installed_app@, ".apps."@, j) by {
            if j >= i {
                assert(j + 6 > n);
            }
        }
    }
    if n >= 6 && str_eq(installed_app.substring_char(n - 6, n), "Config") {
        assert(installed_app@.subrange(n - 6, n as int) =~= installed_app@.skip(n - 6));
        let base = crate::libraries::segment_start_exec(installed_app);
        proof {
            crate::libraries::lemma_segment_start(installed_app@);
        }
        if base > 0 {
            installed_app.substring_char(0, base - 1)
        } else {
            installed_app
        }
    } else {
        proof {
            if n >= 6 {
                assert(installed_app@.subrange(n - 6, n as int) =~= installed_app@.skip(n - 6));
            }
        }
        installed_app
    }
}

/// The weaker of two kinds of knowledge.
pub open spec fn weakest_spec(left: StaticKnowledge, right: StaticKnowledge) -> StaticKnowledge {
    if left == StaticKnowledge::Unknown || right == StaticKnowledge::Unknown {
        StaticKnowledge::Unknown
    } else if left == StaticKnowledge::Partial || right == StaticKnowledge::Partial {
        StaticKnowledge::Partial
    } else {
        StaticKnowledge::Known
    }
}

pub fn weakest(left: StaticKnowledge, right: StaticKnowledge) -> (r: StaticKnowledge)
    ensures
        r == weakest_spec(left, right),
{
    match (left, right) {
        (StaticKnowledge::Unknown, _) | (_, StaticKnowledge::Unknown) => StaticKnowledge::Unknown,
        (StaticKnowledge::Partial, _) | (_, StaticKnowledge::Partial) => StaticKnowledge::Partial,
        (StaticKnowledge::Known, StaticKnowledge::Known) => StaticKnowledge::Known,
    }
}

/// Known knowledge becomes partial; other knowledge stays.
pub fn demote_to_partial(knowledge: &mut StaticKnowledge)
    ensures
        *final(knowledge) == if *old(knowledge) == StaticKnowledge::Known {
            StaticKnowledge::Partial
        } else {
            *old(knowledge)
        },
{
    if *knowledge == StaticKnowledge::Known {
        *knowledge = StaticKnowledge::Partial;
    }
}

/// `s` with each dot replaced by a slash.
pub open spec fn dots_to_slashes(s: Seq<char>) -> Seq<char> {
    s.map_values(|c: char| if c == '.' { '/' } else { c })
}

pub(crate) fn replace_dots(s: &str) -> (r: String)
    ensures
        r@ == dots_to_slashes(s@),
{
    let n = s.unicode_len();
    let mut out = String::new();
    let mut i: usize = 0;
    while i < n
        invariant
            i <= n,
            n == s@.len(),
            out@ == dots_to_slashes(s@.take(i as int)),
        decreases n - i,
    {
        let c = s.get_char(i);
        let ghost d = if c == '.' {
            '/'
        } else {
            c
        };
        proof {
            reveal_strlit("/");
        }
        let piece = if c == '.' {
            "/"
        } else {
            s.substring_char(i, i + 1)
        };
        assert(piece@ =~= seq![d]);
        out.append(piece);
        assert(dots_to_slashes(s@.take(i + 1)) =~= dots_to_slashes(s@.take(i as int)).push(d));
        i = i + 1;
    }
    assert(s@.take(n as int) =~= s@);
    out
}

/// The directory of the first search path under which the app's package
/// module, with dots as slashes, is a directory.
pub open spec fn first_app_dir(search_paths: Seq<Seq<char>>, relative: Seq<char>, dirs: Seq<Seq<char>>) -> Option<
    Seq<char>,
>
    decreases search_paths.len(),
{
    if search_paths.len() == 0 {
        None
    } else if dirs.contains(joined(search_paths[0], relative)) {
        Some(joined(search_paths[0], relative))
    } else {
        first_app_dir(search_paths.drop_first(), relative, dirs)
    }
}

/// The package directory of an installed app: none for an empty package
/// module; else under the first search path where it is a directory.
pub fn resolve_installed_app_dir(installed_app: &str, search_paths: &Vec<String>, dirs: &Vec<String>) -> (r:
    Option<String>)
    ensures
        crate::paths::opt_view(r) == if package_module(installed_app@).len() == 0 {
            None
        } else {
            first_app_dir(views(search_paths@), dots_to_slashes(package_module(installed_app@)), views(dirs@))
        },
{
    let module = installed_app_package_module(installed_app);
    if module.unicode_len() == 0 {
        return None;
    }
    let relative = replace_dots(module);
    let ghost sps = views(search_paths@);
    let mut i: usize = 0;
    while i < search_paths.len()
        invariant
            i <= search_paths.len(),
            module@ == package_module(installed_app@),
            module@.len() > 0,
            relative@ == dots_to_slashes(module@),
            sps == views(search_paths@),
            first_app_dir(sps, relative@, views(dirs@)) == first_app_dir(sps.skip(i as int), relative@, views(dirs@)),
        decreases search_paths.len() - i,
    {
        assert(sps.skip(i as int)[0] == search_paths@[i as int]@);
        assert(sps.skip(i as int).drop_first() =~= sps.skip(i + 1));
        let candidate = path_join(search_paths[i].as_str(), relative.as_str());
        if contains_str(dirs, candidate.as_str()) {
            return Some(candidate);
        }
        i = i + 1;
    }
    None
}

/// What a project offers to a refresh: its module search paths, the files its
/// settings depend on, and the files of its model and template tag modules.
pub struct ProjectFiles {
    pub search_paths: Vec<String>,
    pub settings_files: Vec<String>,
    pub model_module_files: Vec<String>,
    pub templatetag_module_files: Vec<String>,
}

/// What a refresh touches: whether the source roots are refreshed, the search
/// paths whose file roots get a new revision, the settings files and the
/// module files (sorted, each once) that get a new revision.
pub struct RefreshPlan {
    pub refresh_source_roots: bool,
    pub root_paths: Vec<String>,
    pub settings_files: Vec<String>,
    pub module_files: Vec<String>,
}

/// The refresh of external project data: nothing without a project; else the
/// source roots, the roots of all search paths, the settings files, and the
/// model and template tag module files in path order, each path once (see
/// [`sorted_unique_paths`]).
pub fn refresh_external_data(project: Option<&ProjectFiles>) -> (r: RefreshPlan)
    ensures
        match project {
            None => {
                &&& !r.refresh_source_roots
                &&& r.root_paths@.len() == 0
                &&& r.settings_files@.len() == 0
                &&& r.module_files@.len() == 0
            },
            Some(p) => {
                &&& r.refresh_source_roots
                &&& views(r.root_paths@) == views(p.search_paths@)
                &&& views(r.settings_files@) == views(p.settings_files@)
                &&& sorted_unique_paths(
                    views(p.model_module_files@) + views(p.templatetag_module_files@),
                    views(r.module_files@),
                )
            },
        },
{
    match project {
        None => {
            let root_paths: Vec<String> = Vec::new();
            let settings_files: Vec<String> = Vec::new();
            let module_files: Vec<String> = Vec::new();
            RefreshPlan { refresh_source_roots: false, root_paths, settings_files, module_files }
        },
        Some(p) => {
            let mut files = crate::text::clone_strings(&p.model_module_files);
            let mut more = crate::text::clone_strings(&p.templatetag_module_files);
            let ghost a = views(files@);
            let ghost b = views(more@);
            files.append(&mut more);
            assert(views(files@) =~= a + b);
            RefreshPlan {
                refresh_source_roots: true,
                root_paths: crate::text::clone_strings(&p.search_paths),
                settings_files: crate::text::clone_strings(&p.settings_files),
                module_files: sort_unique_paths(&files),
            }
        },
    }
}

// ---- the env file ----

/// Where a project's env file is: the configured path, else `.env`, under the
/// project root.
pub open spec fn env_file_location(root: Seq<char>, env_file: Option<Seq<char>>) -> Seq<char> {
    match env_file {
        Some(f) => joined(root, f),
        None => joined(root, ".env"@),
    }
}

pub fn env_file_path(root: &str, env_file: Option<&str>) -> (r: String)
    ensures
        r@ == env_file_location(
            root@,
            match env_file {
                Some(f) => Some(f@),
                None => None,
            },
        ),
{
    match env_file {
        Some(f) => path_join(root, f),
        None => path_join(root, ".env"),
    }
}

/// The text recorded for `path`: that of the first entry for it.
pub open spec fn text_of(texts: Seq<(String, String)>, path: Seq<char>) -> Option<Seq<char>>
    decreases texts.len(),
{
    if texts.len() == 0 {
        None
    } else if texts[0].0@ == path {
        Some(texts[0].1@)
    } else {
        text_of(texts.skip(1), path)
    }
}

fn find_text<'a>(texts: &'a Vec<(String, String)>, path: &str) -> (r: Option<&'a String>)
    ensures
        match r {
            Some(t) => text_of(texts@, path@) == Some(t@),
            None => text_of(texts@, path@) is None,
        },
{
    let mut i: usize = 0;
    assert(texts@.skip(0) =~= texts@);
    while i < texts.len()
        invariant
            i <= texts.len(),
            text_of(texts@, path@) == text_of(texts@.skip(i as int), path@),
        decreases texts.len() - i,
    {
        assert(texts@.skip(i as int)[0] == texts@[i as int]);
        assert(texts@.skip(i as int).skip(1) =~= texts@.skip(i + 1));
        if str_eq(texts[i].0.as_str(), path) {
            return Some(&texts[i].1);
        }
        i = i + 1;
    }
    None
}

/// The variables that the entries of an env file set: those that parsed, in
/// order.
pub open spec fn parsed_vars(entries: Seq<Option<(String, String)>>) -> Seq<(Seq<char>, Seq<char>)>
    decreases entries.len(),
{
    if entries.len() == 0 {
        Seq::empty()
    } else {
        match entries.last() {
            Some((k, v)) => parsed_vars(entries.drop_last()).push((k@, v@)),
            None => parsed_vars(entries.drop_last()),
        }
    }
}

pub open spec fn var_views(vars: Seq<(String, String)>) -> Seq<(Seq<char>, Seq<char>)> {
    vars.map_values(|p: (String, String)| (p.0@, p.1@))
}

/// The variables that the entries set; an entry that did not parse is left out.
pub fn env_vars_from_entries(entries: Vec<Option<(String, String)>>) -> (r: Vec<(String, String)>)
    ensures
        var_views(r@) == parsed_vars(entries@),
{
    let ghost all = entries@;
    let mut vars: Vec<(String, String)> = Vec::new();
    let mut rest = entries;
    let mut taken: Vec<Option<(String, String)>> = Vec::new();
    assert(var_views(vars@) =~= parsed_vars(taken@));
    while rest.len() > 0
        invariant
            taken@ + rest@ == all,
            var_views(vars@) == parsed_vars(taken@),
        decreases rest.len(),
    {
        let entry = rest.remove(0);
        let ghost before = taken@;
        let ghost vv = var_views(vars@);
        match entry {
            Some((k, v)) => {
                let kc = k.clone();
                let vc = v.clone();
                taken.push(Some((k, v)));
                vars.push((kc, vc));
                assert(var_views(vars@) =~= vv.push((kc@, vc@)));
            },
            None => {
                taken.push(None);
            },
        }
        assert(taken@.drop_last() =~= before);
        assert(taken@ + rest@ =~= all);
    }
    assert(taken@ =~= all);
    vars
}

/// What `dotenvy::from_read_iter` reads from an env file's text, entry by
/// entry: the variable's name where the entry parses, `None` where it does
/// not. Both depend on the text alone; the values do not (see
/// [`parse_env_entries`]).
pub uninterp spec fn dotenv_entry_keys(text: Seq<char>) -> Seq<Option<Seq<char>>>;

/// The names of the entries: that of each entry that parsed, `None` for one
/// that did not.
pub open spec fn entry_names(entries: Seq<Option<(String, String)>>) -> Seq<Option<Seq<char>>> {
    entries.map_values(|e: Option<(String, String)>| match e {
        Some((k, _v)) => Some(k@),
        None => None,
    })
}

/// The names that parsed, in order.
pub open spec fn parsed_names(names: Seq<Option<Seq<char>>>) -> Seq<Seq<char>>
    decreases names.len(),
{
    if names.len() == 0 {
        Seq::empty()
    } else {
        match names.last() {
            Some(k) => parsed_names(names.drop_last()).push(k),
            None => parsed_names(names.drop_last()),
        }
    }
}

/// The names of the variables.
pub open spec fn var_names(vars: Seq<(Seq<char>, Seq<char>)>) -> Seq<Seq<char>> {
    vars.map_values(|p: (Seq<char>, Seq<char>)| p.0)
}

proof fn lemma_parsed_vars_names(entries: Seq<Option<(String, String)>>)
    ensures
        var_names(parsed_vars(entries)) == parsed_names(entry_names(entries)),
    decreases entries.len(),
{
    if entries.len() > 0 {
        lemma_parsed_vars_names(entries.drop_last());
        assert(entry_names(entries.drop_last()) =~= entry_names(entries).drop_last());
        assert(var_names(parsed_vars(entries)) =~= parsed_names(entry_names(entries)));
    } else {
        assert(var_names(parsed_vars(entries)) =~= Seq::<Seq<char>>::empty());
    }
}

/// The entries as views: name and value of each entry that parsed, `None`
/// for one that did not.
pub open spec fn entry_pairs(entries: Seq<Option<(String, String)>>) -> Seq<Option<(Seq<char>, Seq<char>)>> {
    entries.map_values(|e: Option<(String, String)>| match e {
        Some((k, v)) => Some((k@, v@)),
        None => None,
    })
}

/// A character an env file can hold in a name.
pub open spec fn env_name_char(c: char) -> bool {
    ('a' <= c && c <= 'z') || ('A' <= c && c <= 'Z') || ('0' <= c && c <= '9') || c == '_'
}

/// A variable name written plainly: an ASCII letter or `_`, then ASCII
/// letters, digits and `_`.
pub open spec fn plain_env_name(k: Seq<char>) -> bool {
    &&& k.len() > 0
    &&& !('0' <= k[0] && k[0] <= '9')
    &&& forall|i: int| 0 <= i < k.len() ==> env_name_char(#[trigger] k[i])
}

/// A value written plainly: ASCII letters, digits and `_ = / : ? @ . + - % , &`,
/// with no quote, escape, `$`, `#` or white space.
pub open spec fn plain_env_value(v: Seq<char>) -> bool {
    forall|i: int|
        0 <= i < v.len() ==> env_name_char(#[trigger] v[i]) || v[i] == '=' || v[i] == '/' || v[i] == ':' || v[i]
            == '?' || v[i] == '@' || v[i] == '.' || v[i] == '+' || v[i] == '-' || v[i] == '%' || v[i] == ','
            || v[i] == '&'
}

/// Each variable's name and value are written plainly.
pub open spec fn plain_vars(vars: Seq<(Seq<char>, Seq<char>)>) -> bool {
    forall|i: int| 0 <= i < vars.len() ==> plain_env_name((#[trigger] vars[i]).0) && plain_env_value(vars[i].1)
}

/// The env file text with one line `NAME=VALUE` per variable.
pub open spec fn plain_env_lines(vars: Seq<(Seq<char>, Seq<char>)>) -> Seq<char>
    decreases vars.len(),
{
    if vars.len() == 0 {
        Seq::empty()
    } else {
        plain_env_lines(vars.drop_last()) + vars.last().0 + seq!['='] + vars.last().1 + seq!['\n']
    }
}

/// `dotenvy::from_read_iter` over the text: each entry of the env file, a
/// variable and its value, or `None` where the entry did not parse. Which
/// entries parse, and their names, are those of [`dotenv_entry_keys`].
/// Values substitute `$NAME` from the process environment, so in general
/// nothing is stated of them; for a text of plain `NAME=VALUE` lines (see
/// [`plain_vars`]), which holds no `$`, quote, escape or comment, the entries
/// are those lines' names and values, read back as written.
#[verifier::external_body]
fn parse_env_entries(text: &str) -> (r: Vec<Option<(String, String)>>)
    ensures
        entry_names(r@) == dotenv_entry_keys(text@),
        forall|vars: Seq<(Seq<char>, Seq<char>)>|
            plain_vars(vars) && text@ == #[trigger] plain_env_lines(vars) ==> entry_pairs(r@) == vars.map_values(
                |p: (Seq<char>, Seq<char>)| Some(p),
            ),
{
    dotenvy::from_read_iter(text.as_bytes()).map(|item| item.ok()).collect()
}

proof fn lemma_all_entries_parsed(entries: Seq<Option<(String, String)>>, vars: Seq<(Seq<char>, Seq<char>)>)
    requires
        entry_pairs(entries) == vars.map_values(|p: (Seq<char>, Seq<char>)| Some(p)),
    ensures
        parsed_vars(entries) == vars,
    decreases entries.len(),
{
    assert(entry_pairs(entries).len() == vars.len());
    if entries.len() > 0 {
        let e0 = entries.drop_last();
        let v0 = vars.drop_last();
        assert forall|i: int| 0 <= i < e0.len() implies #[trigger] entry_pairs(e0)[i] == v0.map_values(
            |p: (Seq<char>, Seq<char>)| Some(p),
        )[i] by {
            assert(entry_pairs(e0)[i] == entry_pairs(entries)[i]);
            assert(vars.map_values(|p: (Seq<char>, Seq<char>)| Some(p))[i] == Some(vars[i]));
        }
        assert(entry_pairs(e0) =~= v0.map_values(|p: (Seq<char>, Seq<char>)| Some(p)));
        lemma_all_entries_parsed(e0, v0);
        assert(entry_pairs(entries)[entries.len() - 1] == Some(vars.last()));
        assert(vars =~= v0.push(vars.last()));
    } else {
        assert(vars =~= Seq::<(Seq<char>, Seq<char>)>::empty());
    }
}

/// `vars` are the variables of the project's env file among the files read in
/// `texts`: none when it was not read; otherwise the entries that parse, in
/// order, by their names; and for a file of plain `NAME=VALUE` lines, exactly
/// those names and values.
pub open spec fn env_file_vars(
    root: Seq<char>,
    env_file: Option<Seq<char>>,
    texts: Seq<(String, String)>,
    vars: Seq<(Seq<char>, Seq<char>)>,
) -> bool {
    match text_of(texts, env_file_location(root, env_file)) {
        None => vars.len() == 0,
        Some(t) => {
            &&& var_names(vars) == parsed_names(dotenv_entry_keys(t))
            &&& forall|written: Seq<(Seq<char>, Seq<char>)>|
                plain_vars(written) && t == #[trigger] plain_env_lines(written) ==> vars == written
        },
    }
}

/// The variables of the project's env file (see [`env_file_vars`]).
pub fn load_env_file(root: &str, env_file: Option<&str>, texts: &Vec<(String, String)>) -> (r: Vec<(String, String)>)
    ensures
        env_file_vars(
            root@,
            match env_file {
                Some(f) => Some(f@),
                None => None,
            },
            texts@,
            var_views(r@),
        ),
{
    let path = env_file_path(root, env_file);
    match find_text(texts, path.as_str()) {
        None => Vec::new(),
        Some(text) => {
            let entries = parse_env_entries(text.as_str());
            proof {
                lemma_parsed_vars_names(entries@);
            }
            let r = env_vars_from_entries(entries);
            assert forall|written: Seq<(Seq<char>, Seq<char>)>|
                plain_vars(written) && text@ == #[trigger] plain_env_lines(written) implies var_views(r@) == written by {
                lemma_all_entries_parsed(entries@, written);
            }
            r
        },
    }
}

/// An env file of plain `NAME=VALUE` lines is read back as written: each
/// variable with its whole value, in order.
pub proof fn law_plain_env_file_is_read_back(
    root: Seq<char>,
    env_file: Option<Seq<char>>,
    texts: Seq<(String, String)>,
    written: Seq<(Seq<char>, Seq<char>)>,
    vars: Seq<(Seq<char>, Seq<char>)>,
)
    requires
        plain_vars(written),
        text_of(texts, env_file_location(root, env_file)) == Some(plain_env_lines(written)),
        env_file_vars(root, env_file, texts, vars),
    ensures
        vars == written,
{
}

// ---- the settings module ----

/// The settings module found beside `manage.py` among the paths that exist:
/// `settings`, `config.settings` or `project.settings`, the first whose file
/// exists; none without `manage.py`.
pub open spec fn detected_settings_module(root: Seq<char>, existing: Seq<Seq<char>>) -> Option<Seq<char>> {
    if !existing.contains(joined(root, "manage.py"@)) {
        None
    } else if existing.contains(joined(root, "settings.py"@)) {
        Some("settings"@)
    } else if existing.contains(joined(joined(root, "config"@), "settings.py"@)) {
        Some("config.settings"@)
    } else if existing.contains(joined(joined(root, "project"@), "settings.py"@)) {
        Some("project.settings"@)
    } else {
        None
    }
}

pub fn auto_detect_settings_module(root: &str, existing: &Vec<String>) -> (r: Option<String>)
    ensures
        opt_strings(r) == detected_settings_module(root@, views(existing@)),
{
    if !contains_str(existing, path_join(root, "manage.py").as_str()) {
        return None;
    }
    if contains_str(existing, path_join(root, "settings.py").as_str()) {
        return Some("settings".to_string());
    }
    let config = path_join(root, "config");
    if contains_str(existing, path_join(config.as_str(), "settings.py").as_str()) {
        return Some("config.settings".to_string());
    }
    let project = path_join(root, "project");
    if contains_str(existing, path_join(project.as_str(), "settings.py").as_str()) {
        return Some("project.settings".to_string());
    }
    None
}

pub open spec fn opt_strings(o: Option<String>) -> Option<Seq<char>> {
    match o {
        Some(s) => Some(s@),
        None => None,
    }
}

/// The settings module a project uses: the configured one; else the
/// `DJANGO_SETTINGS_MODULE` environment variable's value, when it is set and
/// not empty; else the one detected beside `manage.py`.
pub open spec fn resolved_settings_module(
    root: Seq<char>,
    configured: Option<Seq<char>>,
    environment_value: Option<Seq<char>>,
    existing: Seq<Seq<char>>,
) -> Option<Seq<char>> {
    match configured {
        Some(m) => Some(m),
        None => match environment_value {
            Some(v) => if v.len() > 0 {
                Some(v)
            } else {
                detected_settings_module(root, existing)
            },
            None => detected_settings_module(root, existing),
        },
    }
}

pub fn resolve_django_settings(
    root: &str,
    configured: Option<&str>,
    environment_value: Option<&str>,
    existing: &Vec<String>,
) -> (r: Option<String>)
    ensures
        opt_strings(r) == resolved_settings_module(
            root@,
            match configured {
                Some(m) => Some(m@),
                None => None,
            },
            match environment_value {
                Some(v) => Some(v@),
                None => None,
            },
            views(existing@),
        ),
{
    match configured {
        Some(m) => Some(m.to_string()),
        None => match environment_value {
            Some(v) => if v.unicode_len() > 0 {
                Some(v.to_string())
            } else {
                auto_detect_settings_module(root, existing)
            },
            None => auto_detect_settings_module(root, existing),
        },
    }
}

// ---- template directories from settings ----

/// A template directory as the settings give it: a path, or an expression
/// that could not be followed.
pub enum TemplateDirPath {
    Resolved(String),
    Unknown,
}

/// A template backend as the settings give it.
pub struct BackendSettings {
    pub backend: Option<String>,
    pub dirs: Vec<TemplateDirPath>,
    pub app_dirs: Option<bool>,
    pub knowledge: StaticKnowledge,
}

/// The installed apps as the settings give them.
pub struct InstalledAppsSettings {
    pub values: Vec<String>,
    pub knowledge: StaticKnowledge,
}

/// The template backends as the settings give them.
pub struct TemplatesSettings {
    pub backends: Vec<BackendSettings>,
    pub knowledge: StaticKnowledge,
}

/// What a settings module says of the installed apps and the templates.
pub struct DjangoSettings {
    pub installed_apps: InstalledAppsSettings,
    pub templates: TemplatesSettings,
}

/// Known knowledge becomes partial; other knowledge stays.
pub open spec fn demoted(k: StaticKnowledge) -> StaticKnowledge {
    if k == StaticKnowledge::Known {
        StaticKnowledge::Partial
    } else {
        k
    }
}

/// The directories and knowledge after a backend's `DIRS` entries: a path is
/// added, an expression not followed demotes the knowledge.
pub open spec fn after_dir_entries(
    acc: (Seq<Seq<char>>, StaticKnowledge),
    entries: Seq<TemplateDirPath>,
) -> (Seq<Seq<char>>, StaticKnowledge)
    decreases entries.len(),
{
    if entries.len() == 0 {
        acc
    } else {
        let prev = after_dir_entries(acc, entries.drop_last());
        match entries.last() {
            TemplateDirPath::Resolved(p) => (prev.0.push(p@), prev.1),
            TemplateDirPath::Unknown => (prev.0, demoted(prev.1)),
        }
    }
}

/// The package directory of an installed app: see
/// [`resolve_installed_app_dir`].
pub open spec fn installed_app_dir(app: Seq<char>, search_paths: Seq<Seq<char>>, dirs: Seq<Seq<char>>) -> Option<Seq<char>> {
    if package_module(app).len() == 0 {
        None
    } else {
        first_app_dir(search_paths, dots_to_slashes(package_module(app)), dirs)
    }
}

/// The directories and knowledge after the installed apps' `templates`
/// directories: an app whose package is not found demotes the knowledge; a
/// `templates` directory that exists is added.
pub open spec fn after_app_dirs(
    acc: (Seq<Seq<char>>, StaticKnowledge),
    apps: Seq<Seq<char>>,
    search_paths: Seq<Seq<char>>,
    dirs: Seq<Seq<char>>,
) -> (Seq<Seq<char>>, StaticKnowledge)
    decreases apps.len(),
{
    if apps.len() == 0 {
        acc
    } else {
        let prev = after_app_dirs(acc, apps.drop_last(), search_paths, dirs);
        match installed_app_dir(apps.last(), search_paths, dirs) {
            None => (prev.0, demoted(prev.1)),
            Some(d) => if dirs.contains(joined(d, "templates"@)) {
                (prev.0.push(joined(d, "templates"@)), prev.1)
            } else {
                prev
            },
        }
    }
}

pub open spec fn opt_view_str(o: Option<String>) -> Option<Seq<char>> {
    match o {
        Some(s) => Some(s@),
        None => None,
    }
}

/// The directories and knowledge after one Django backend: its knowledge,
/// its `DIRS`, then, with `APP_DIRS` true, the installed apps' knowledge and
/// their `templates` directories.
pub open spec fn after_backend(
    acc: (Seq<Seq<char>>, StaticKnowledge),
    b: BackendSettings,
    apps: Seq<Seq<char>>,
    apps_knowledge: StaticKnowledge,
    search_paths: Seq<Seq<char>>,
    dirs: Seq<Seq<char>>,
) -> (Seq<Seq<char>>, StaticKnowledge) {
    let with_dirs = after_dir_entries((acc.0, weakest_spec(acc.1, b.knowledge)), b.dirs@);
    if b.app_dirs == Some(true) {
        after_app_dirs((with_dirs.0, weakest_spec(with_dirs.1, apps_knowledge)), apps, search_paths, dirs)
    } else {
        with_dirs
    }
}

/// The directories and knowledge after the backends that are Django's (see
/// [`is_django_templates_backend_spec`], among `count` backends).
pub open spec fn after_backends(
    acc: (Seq<Seq<char>>, StaticKnowledge),
    backends: Seq<BackendSettings>,
    count: nat,
    apps: Seq<Seq<char>>,
    apps_knowledge: StaticKnowledge,
    search_paths: Seq<Seq<char>>,
    dirs: Seq<Seq<char>>,
) -> (Seq<Seq<char>>, StaticKnowledge)
    decreases backends.len(),
{
    if backends.len() == 0 {
        acc
    } else {
        let prev = after_backends(acc, backends.drop_last(), count, apps, apps_knowledge, search_paths, dirs);
        let b = backends.last();
        if is_django_templates_backend_spec(opt_view_str(b.backend), count) {
            after_backend(prev, b, apps, apps_knowledge, search_paths, dirs)
        } else {
            prev
        }
    }
}

fn push_app_template_dirs(
    out: &mut Vec<String>,
    knowledge: &mut StaticKnowledge,
    apps: &Vec<String>,
    search_paths: &Vec<String>,
    dirs: &Vec<String>,
)
    ensures
        (views(final(out)@), *final(knowledge)) == after_app_dirs(
            (views(old(out)@), *old(knowledge)),
            views(apps@),
            views(search_paths@),
            views(dirs@),
        ),
{
    let ghost start = (views(out@), *knowledge);
    let mut i: usize = 0;
    while i < apps.len()
        invariant
            i <= apps.len(),
            (views(out@), *knowledge) == after_app_dirs(start, views(apps@).take(i as int), views(search_paths@), views(dirs@)),
        decreases apps.len() - i,
    {
        assert(views(apps@).take(i + 1).drop_last() =~= views(apps@).take(i as int));
        match resolve_installed_app_dir(apps[i].as_str(), search_paths, dirs) {
            None => {
                demote_to_partial(knowledge);
            },
            Some(app_dir) => {
                let templates = path_join(app_dir.as_str(), "templates");
                if contains_str(dirs, templates.as_str()) {
                    let ghost before = views(out@);
                    out.push(templates);
                    assert(views(out@) =~= before.push(joined(app_dir@, "templates"@)));
                }
            },
        }
        i = i + 1;
    }
    assert(views(apps@).take(i as int) =~= views(apps@));
}

/// The template directories the settings give and how sure they are:
/// through the Django backends in order (see [`after_backends`]), starting
/// from the templates' knowledge. `search_paths` are where installed apps are
/// looked up; `dirs` are the directories that exist.
pub fn template_dirs(settings: &DjangoSettings, search_paths: &Vec<String>, dirs: &Vec<String>) -> (r: (
    Vec<String>,
    StaticKnowledge,
))
    ensures
        (views(r.0@), r.1) == after_backends(
            (Seq::empty(), settings.templates.knowledge),
            settings.templates.backends@,
            settings.templates.backends@.len(),
            views(settings.installed_apps.values@),
            settings.installed_apps.knowledge,
            views(search_paths@),
            views(dirs@),
        ),
{
    let backends = &settings.templates.backends;
    let count = backends.len();
    let mut out: Vec<String> = Vec::new();
    let mut knowledge = settings.templates.knowledge;
    let ghost apps = views(settings.installed_apps.values@);
    let ghost start = (views(out@), knowledge);
    assert(views(out@) =~= Seq::<Seq<char>>::empty());
    let mut i: usize = 0;
    while i < backends.len()
        invariant
            i <= backends.len(),
            count == backends@.len(),
            apps == views(settings.installed_apps.values@),
            start == (Seq::<Seq<char>>::empty(), settings.templates.knowledge),
            (views(out@), knowledge) == after_backends(
                start,
                backends@.take(i as int),
                count as nat,
                apps,
                settings.installed_apps.knowledge,
                views(search_paths@),
                views(dirs@),
            ),
        decreases backends.len() - i,
    {
        assert(backends@.take(i + 1).drop_last() =~= backends@.take(i as int));
        let b = &backends[i];
        let name = match &b.backend {
            Some(n) => Some(n.as_str()),
            None => None,
        };
        if is_django_templates_backend(name, count) {
            knowledge = weakest(knowledge, b.knowledge);
            let mut k: usize = 0;
            let ghost mid = (views(out@), knowledge);
            while k < b.dirs.len()
                invariant
                    k <= b.dirs.len(),
                    (views(out@), knowledge) == after_dir_entries(mid, b.dirs@.take(k as int)),
                decreases b.dirs.len() - k,
            {
                assert(b.dirs@.take(k + 1).drop_last() =~= b.dirs@.take(k as int));
                match &b.dirs[k] {
                    TemplateDirPath::Resolved(p) => {
                        let ghost before = views(out@);
                        out.push(p.clone());
                        assert(views(out@) =~= before.push(p@));
                    },
                    TemplateDirPath::Unknown => {
                        demote_to_partial(&mut knowledge);
                    },
                }
                k = k + 1;
            }
            assert(b.dirs@.take(k as int) =~= b.dirs@);
            match b.app_dirs {
                Some(true) => {
                    knowledge = weakest(knowledge, settings.installed_apps.knowledge);
                    push_app_template_dirs(&mut out, &mut knowledge, &settings.installed_apps.values, search_paths, dirs);
                },
                _ => {},
            }
        }
        i = i + 1;
    }
    assert(backends@.take(i as int) =~= backends@);
    (out, knowledge)
}

} // verus!
