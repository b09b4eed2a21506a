//! A settings file as Django reads it: its statements in order, each star
//! import replaced by what the imported file says, followed through the module
//! search paths. A file that cannot be read or parsed leaves both settings
//! unknown; a file already being read (an import cycle) is such a file too.
use vstd::prelude::*;
use vstd::set_lib::lemma_len_subset;

use crate::facts::{Fact, ModuleResolution, ModuleSearchPathEntry, Reason, SettingsFacts};
use crate::modules::{lemma_found_files_exist, resolution_fact, resolve_module};
use crate::names::PyModuleName;
use crate::paths::{joined, opt_view, path_join};
use crate::project::{dots_to_slashes, replace_dots};
use crate::pyast::{find_source, source_of, ModuleSource, Stmt};
use crate::settings::{
    facts_of, fresh_state, into_reasons, is_file_reason, star_import, star_import_module, star_import_module_fact, star_import_effect,
    star_import_spec, statement_effect, unknown_for, SettingsExtractionState,
};
use vstd::pervasive::arbitrary;
use crate::text::{clone_strings, concat, contains_str, views};

verus! {

/// Where the star imports of a settings file are looked up: the project root,
/// the module search paths, and the files that exist.
pub struct SettingsImportScope {
    pub project_root: String,
    pub search_paths: Vec<ModuleSearchPathEntry>,
    pub files: Vec<String>,
}

/// `st` is the state of a file that could not be had: both settings unknown
/// for `message`, as [`SettingsExtractionState::failed`] makes it.
pub open spec fn failed_state(st: SettingsExtractionState, file: Seq<char>, message: Seq<char>) -> bool {
    &&& st.file@ == file
    &&& views(st.files_read@) == seq![file]
    &&& st.path_values@.len() == 0
    &&& st.installed_apps matches Some(f) && unknown_for(f, crate::facts::Field::SettingsInstalledApps, file, message)
    &&& st.template_backends matches Some(f) && unknown_for(f, crate::facts::Field::SettingsTemplates, file, message)
    &&& st.installed_apps_import_reasons@.len() == 0
    &&& st.template_backends_import_reasons@.len() == 0
    &&& st.load_failed
}

/// `new` is `old` with `rs` added to the import reasons of both settings.
pub open spec fn imports_added(old: SettingsExtractionState, rs: Seq<Reason>, new: SettingsExtractionState) -> bool {
    &&& new.installed_apps_import_reasons@ == old.installed_apps_import_reasons@ + rs
    &&& new.template_backends_import_reasons@ == old.template_backends_import_reasons@ + rs
    &&& new.file == old.file
    &&& new.files_read == old.files_read
    &&& new.path_values == old.path_values
    &&& new.installed_apps == old.installed_apps
    &&& new.template_backends == old.template_backends
    &&& new.load_failed == old.load_failed
}

/// `new` is `old` with the files `fs` recorded as read.
pub open spec fn files_added(old: SettingsExtractionState, fs: Seq<Seq<char>>, new: SettingsExtractionState) -> bool {
    &&& views(new.files_read@) == views(old.files_read@) + fs
    &&& new.file == old.file
    &&& new.path_values == old.path_values
    &&& new.installed_apps == old.installed_apps
    &&& new.template_backends == old.template_backends
    &&& new.installed_apps_import_reasons == old.installed_apps_import_reasons
    &&& new.template_backends_import_reasons == old.template_backends_import_reasons
    &&& new.load_failed == old.load_failed
}

/// The files a module that was not found could have been: in each search
/// path, `<module path>.py` and then `<module path>/__init__.py`.
pub open spec fn candidate_files(module: Seq<char>, search_paths: Seq<ModuleSearchPathEntry>) -> Seq<Seq<char>>
    decreases search_paths.len(),
{
    if search_paths.len() == 0 {
        Seq::empty()
    } else {
        let base = search_paths.last().path@;
        let relative = dots_to_slashes(module);
        candidate_files(module, search_paths.drop_last()) + seq![
            joined(base, relative + ".py"@),
            joined(joined(base, relative), "__init__.py"@),
        ]
    }
}

fn unresolved_module_candidate_files(module: &PyModuleName, search_paths: &Vec<ModuleSearchPathEntry>) -> (r: Vec<
    String,
>)
    ensures
        views(r@) == candidate_files(module@, search_paths@),
{
    let relative = replace_dots(module.as_str());
    let module_file_name = concat(relative.as_str(), ".py");
    let mut out: Vec<String> = Vec::new();
    let mut i: usize = 0;
    while i < search_paths.len()
        invariant
            i <= search_paths.len(),
            relative@ == dots_to_slashes(module@),
            module_file_name@ == relative@ + ".py"@,
            views(out@) == candidate_files(module@, search_paths@.take(i as int)),
        decreases search_paths.len() - i,
    {
        assert(search_paths@.take(i + 1).drop_last() =~= search_paths@.take(i as int));
        let ghost before = views(out@);
        let base = search_paths[i].path.as_str();
        out.push(path_join(base, module_file_name.as_str()));
        let package = path_join(base, relative.as_str());
        out.push(path_join(package.as_str(), "__init__.py"));
        assert(views(out@) =~= candidate_files(module@, search_paths@.take(i + 1)));
        i = i + 1;
    }
    assert(search_paths@.take(i as int) =~= search_paths@);
    out
}

/// How a settings file was read, step by step: the state after each of its
/// statements, and for the star import at step `k`: the module it names
/// (`targets[k]`), the state once that module's reasons are added
/// (`named[k]`), the module's lookup (`lookups[k]`), the state once the
/// lookup's reasons are added (`looked_up[k]`), the imported file's state
/// (`imported[k]`) and how that file was read (`inner[k]`).
pub struct ReadTrace {
    pub states: Seq<SettingsExtractionState>,
    pub targets: Seq<Fact<PyModuleName>>,
    pub named: Seq<SettingsExtractionState>,
    pub lookups: Seq<ModuleResolution>,
    pub looked_up: Seq<SettingsExtractionState>,
    pub imported: Seq<SettingsExtractionState>,
    pub inner: Seq<ReadTrace>,
}

/// `r` is the state after reading `file` as a settings file, as `tr` traces
/// it. `active` are the files being read around it: finding `file` among them
/// is an import cycle. A file whose source is missing, unreadable or
/// unparsable fails; otherwise its statements are taken in order from a fresh
/// state (see [`read_steps`]).
pub open spec fn file_read(
    tr: ReadTrace,
    file: Seq<char>,
    current: Option<PyModuleName>,
    scope: Option<SettingsImportScope>,
    sources: Seq<(String, ModuleSource)>,
    active: Seq<Seq<char>>,
    r: SettingsExtractionState,
) -> bool
    decreases tr, 1int, 0int,
{
    if active.contains(file) {
        failed_state(r, file, "cycle detected while following settings star imports"@)
    } else {
        match source_of(sources, file) {
            None => failed_state(r, file, "failed to read settings file: "@),
            Some(ModuleSource::Unreadable(e)) => failed_state(r, file, "failed to read settings file: "@ + e@),
            Some(ModuleSource::Unparsable(e)) => failed_state(r, file, "failed to parse settings file: "@ + e@),
            Some(ModuleSource::Parsed(body)) => {
                &&& tr.states.len() == body@.len() + 1
                &&& fresh_state(tr.states[0], file)
                &&& tr.states.last() == r
                &&& read_steps(tr, body@, body@.len() as int, current, scope, sources, active.push(file))
            },
        }
    }
}

/// The first `n` statements of `stmts` lead from state to state as `tr`
/// traces them: a star import is followed (see [`star_followed`]), any other
/// statement has its [`statement_effect`].
pub open spec fn read_steps(
    tr: ReadTrace,
    stmts: Seq<Stmt>,
    n: int,
    current: Option<PyModuleName>,
    scope: Option<SettingsImportScope>,
    sources: Seq<(String, ModuleSource)>,
    active: Seq<Seq<char>>,
) -> bool
    decreases tr, 0int, n,
{
    if n <= 0 {
        true
    } else if !read_steps(tr, stmts, n - 1, current, scope, sources, active) {
        false
    } else {
        let k = n - 1;
        match star_import_spec(stmts[k]) {
            Some((module, level)) => if 0 <= k < tr.inner.len() {
                star_followed(
                    tr.inner[k],
                    tr.states[k],
                    tr.states[k + 1],
                    tr.targets[k],
                    tr.named[k],
                    tr.lookups[k],
                    tr.looked_up[k],
                    tr.imported[k],
                    opt_view(module),
                    level,
                    current,
                    scope,
                    sources,
                    active,
                )
            } else {
                false
            },
            None => statement_effect(tr.states[k], &stmts[k], tr.states[n]),
        }
    }
}

/// `new` is `old` after the star import of `module` at `level` dots, read in
/// the module `current`. Without a current module or a scope it changes
/// nothing. The module it names, `t` (see [`star_import_module_fact`]), gives
/// its reasons to the import reasons (`mid`); when it names none, that is all.
/// The module is looked up (`res`): not found, or found more than once, its
/// lookup reasons are added (`mid2`) and its candidate files recorded as read;
/// found, the lookup's reasons are added (`mid2`) and the state `imported` of
/// its file, read as `inner` traces it, is taken in (see
/// [`star_import_effect`]).
pub open spec fn star_followed(
    inner: ReadTrace,
    old: SettingsExtractionState,
    new: SettingsExtractionState,
    t: Fact<PyModuleName>,
    mid: SettingsExtractionState,
    res: ModuleResolution,
    mid2: SettingsExtractionState,
    imported: SettingsExtractionState,
    module: Option<Seq<char>>,
    level: u32,
    current: Option<PyModuleName>,
    scope: Option<SettingsImportScope>,
    sources: Seq<(String, ModuleSource)>,
    active: Seq<Seq<char>>,
) -> bool
    decreases inner, 2int, 0int,
{
    match (current, scope) {
        (Some(cur), Some(sc)) => {
            &&& imports_added(old, t.reasons_spec(), mid)
            &&& star_import_module_fact(module, level, cur, t)
            &&& match t.value_spec() {
                None => new == mid,
                Some(m) => {
                    &&& resolution_fact(m, sc.search_paths@, sc.project_root@, views(sc.files@), res)
                    &&& match res.resolved {
                        Fact::Known { value } => {
                            &&& mid2 == mid
                            &&& file_read(inner, value.file@, Some(m), scope, sources, active, imported)
                            &&& star_import_effect(mid2, imported, new)
                        },
                        Fact::Partial { value, reasons } => {
                            &&& imports_added(mid, reasons@, mid2)
                            &&& file_read(inner, value.file@, Some(m), scope, sources, active, imported)
                            &&& star_import_effect(mid2, imported, new)
                        },
                        Fact::Unknown { reasons } => {
                            &&& imports_added(mid, reasons@, mid2)
                            &&& files_added(mid2, candidate_files(m@, sc.search_paths@), new)
                        },
                        Fact::Ambiguous { reasons, .. } => {
                            &&& imports_added(mid, reasons@, mid2)
                            &&& files_added(mid2, candidate_files(m@, sc.search_paths@), new)
                        },
                    }
                },
            }
        },
        _ => new == old,
    }
}

/// `a` and `b` trace the first `n` steps alike.
pub open spec fn traces_agree(a: ReadTrace, b: ReadTrace, n: int) -> bool {
    &&& 0 <= n
    &&& a.states.len() > n && b.states.len() > n
    &&& a.targets.len() >= n && b.targets.len() >= n
    &&& a.named.len() >= n && b.named.len() >= n
    &&& a.lookups.len() >= n && b.lookups.len() >= n
    &&& a.looked_up.len() >= n && b.looked_up.len() >= n
    &&& a.imported.len() >= n && b.imported.len() >= n
    &&& a.inner.len() >= n && b.inner.len() >= n
    &&& forall|k: int| 0 <= k <= n ==> a.states[k] == b.states[k]
    &&& forall|k: int| 0 <= k < n ==> a.targets[k] == b.targets[k]
    &&& forall|k: int| 0 <= k < n ==> a.named[k] == b.named[k]
    &&& forall|k: int| 0 <= k < n ==> a.lookups[k] == b.lookups[k]
    &&& forall|k: int| 0 <= k < n ==> a.looked_up[k] == b.looked_up[k]
    &&& forall|k: int| 0 <= k < n ==> a.imported[k] == b.imported[k]
    &&& forall|k: int| 0 <= k < n ==> a.inner[k] == b.inner[k]
}

/// The first `n` steps depend only on what the trace says of them.
proof fn lemma_read_steps_agree(
    a: ReadTrace,
    b: ReadTrace,
    stmts: Seq<Stmt>,
    n: int,
    current: Option<PyModuleName>,
    scope: Option<SettingsImportScope>,
    sources: Seq<(String, ModuleSource)>,
    active: Seq<Seq<char>>,
)
    requires
        traces_agree(a, b, n),
    ensures
        read_steps(a, stmts, n, current, scope, sources, active) == read_steps(b, stmts, n, current, scope, sources, active),
    decreases n,
{
    if n > 0 {
        assert(traces_agree(a, b, n - 1));
        lemma_read_steps_agree(a, b, stmts, n - 1, current, scope, sources, active);
        let k = n - 1;
        assert(a.states[k] == b.states[k]);
        assert(a.states[k + 1] == b.states[k + 1]);
        assert(a.inner[k] == b.inner[k]);
        assert(a.targets[k] == b.targets[k]);
        assert(a.named[k] == b.named[k]);
        assert(a.lookups[k] == b.lookups[k]);
        assert(a.looked_up[k] == b.looked_up[k]);
        assert(a.imported[k] == b.imported[k]);
    }
}

/// How deep star imports can still be followed: as many files as remain
/// outside `active`, and one more for the file being read.
pub open spec fn budget(scope: Option<SettingsImportScope>, active: Seq<Seq<char>>) -> nat {
    match scope {
        Some(sc) => (sc.files@.len() + 1 - active.len()) as nat,
        None => 0,
    }
}

/// The files being read around `file`: none repeated, and after the first
/// (the settings file itself), all existing files; `file` too when it is
/// star-imported.
pub open spec fn active_ok(scope: Option<SettingsImportScope>, active: Seq<Seq<char>>, file: Seq<char>) -> bool {
    &&& active.no_duplicates()
    &&& active.len() > 0 ==> (scope matches Some(sc) && views(sc.files@).contains(file))
    &&& forall|k: int|
        1 <= k < active.len() ==> (scope matches Some(sc) && views(sc.files@).contains(#[trigger] active[k]))
}

/// The files being read are at most the existing files and the settings file.
proof fn lemma_active_bound(files: Seq<Seq<char>>, active: Seq<Seq<char>>)
    requires
        active.no_duplicates(),
        forall|k: int| 1 <= k < active.len() ==> files.contains(#[trigger] active[k]),
    ensures
        active.len() <= files.len() + 1,
{
    if active.len() > 0 {
        let rest = active.drop_first();
        assert(rest.no_duplicates()) by {
            assert forall|i: int, j: int| 0 <= i < rest.len() && 0 <= j < rest.len() && i != j implies rest[i]
                != rest[j] by {
                assert(rest[i] == active[i + 1]);
                assert(rest[j] == active[j + 1]);
            }
        }
        rest.unique_seq_to_set();
        assert forall|x: Seq<char>| rest.to_set().contains(x) implies files.to_set().contains(x) by {
            let i = choose|i: int| 0 <= i < rest.len() && rest[i] == x;
            assert(active[i + 1] == x);
        }
        files.lemma_cardinality_of_set();
        lemma_len_subset(rest.to_set(), files.to_set());
    }
}

pub open spec fn scope_view(scope: Option<&SettingsImportScope>) -> Option<SettingsImportScope> {
    match scope {
        Some(s) => Some(*s),
        None => None,
    }
}

pub open spec fn module_view(m: Option<&PyModuleName>) -> Option<PyModuleName> {
    match m {
        Some(x) => Some(*x),
        None => None,
    }
}

/// The state after reading `file`, and how it was read: see [`file_read`].
fn settings_state(
    file: &str,
    current: Option<&PyModuleName>,
    scope: Option<&SettingsImportScope>,
    sources: &Vec<(String, ModuleSource)>,
    active: &Vec<String>,
) -> (r: (SettingsExtractionState, Ghost<ReadTrace>))
    requires
        active_ok(scope_view(scope), views(active@), file@),
    ensures
        file_read(r.1@, file@, module_view(current), scope_view(scope), sources@, views(active@), r.0),
    decreases budget(scope_view(scope), views(active@)), 1nat,
{
    let ghost none = ReadTrace {
        states: Seq::empty(),
        targets: Seq::empty(),
        named: Seq::empty(),
        lookups: Seq::empty(),
        looked_up: Seq::empty(),
        imported: Seq::empty(),
        inner: Seq::empty(),
    };
    if contains_str(active, file) {
        let st = SettingsExtractionState::failed(file, "cycle detected while following settings star imports");
        return (st, Ghost(none));
    }
    let body = match find_source(sources, file) {
        None => {
            let st = SettingsExtractionState::failed(file, "failed to read settings file: ");
            return (st, Ghost(none));
        },
        Some(ModuleSource::Unreadable(e)) => {
            let message = concat("failed to read settings file: ", e.as_str());
            let st = SettingsExtractionState::failed(file, message.as_str());
            return (st, Ghost(none));
        },
        Some(ModuleSource::Unparsable(e)) => {
            let message = concat("failed to parse settings file: ", e.as_str());
            let st = SettingsExtractionState::failed(file, message.as_str());
            return (st, Ghost(none));
        },
        Some(ModuleSource::Parsed(body)) => body,
    };
    let ghost depth = budget(scope_view(scope), views(active@));
    let mut inner = clone_strings(active);
    inner.push(file.to_string());
    let ghost iv = views(inner@);
    proof {
        assert(iv =~= views(active@).push(file@));
        match scope_view(scope) {
            Some(sc) => {
                assert forall|k: int| 1 <= k < iv.len() implies views(sc.files@).contains(#[trigger] iv[k]) by {
                    if k < iv.len() - 1 {
                        assert(iv[k] == views(active@)[k]);
                    }
                }
                lemma_active_bound(views(sc.files@), iv);
            },
            None => {},
        }
    }
    let mut state = SettingsExtractionState::new(file);
    let ghost mut tr = ReadTrace {
        states: seq![state],
        targets: Seq::empty(),
        named: Seq::empty(),
        lookups: Seq::empty(),
        looked_up: Seq::empty(),
        imported: Seq::empty(),
        inner: Seq::empty(),
    };
    let mut i: usize = 0;
    while i < body.len()
        invariant
            i <= body.len(),
            iv == views(inner@),
            iv == views(active@).push(file@),
            !views(active@).contains(file@),
            active_ok(scope_view(scope), views(active@), file@),
            depth == budget(scope_view(scope), views(active@)),
            scope_view(scope) matches Some(sc) ==> iv.len() <= sc.files@.len() + 1,
            tr.states.len() == i + 1,
            tr.targets.len() == i,
            tr.named.len() == i,
            tr.lookups.len() == i,
            tr.looked_up.len() == i,
            tr.imported.len() == i,
            tr.inner.len() == i,
            read_steps(tr, body@, i as int, module_view(current), scope_view(scope), sources@, iv),
            fresh_state(tr.states[0], file@),
            tr.states.last() == state,
        decreases body.len() - i,
    {
        let ghost before = state;
        let stmt = &body[i];
        let ghost step: (Fact<PyModuleName>, SettingsExtractionState, ModuleResolution, SettingsExtractionState, SettingsExtractionState, ReadTrace) = (
            arbitrary(),
            before,
            arbitrary(),
            before,
            before,
            none,
        );
        match star_import(stmt) {
            Some((module, level)) => {
                let module_name = match module {
                    Some(m) => Some(m.as_str()),
                    None => None,
                };
                let w = follow_star_import(&mut state, module_name, level, current, scope, sources, &inner, Ghost(depth));
                proof {
                    step = w@;
                }
            },
            None => {
                state.apply_statement(stmt);
            },
        }
        proof {
            let next = ReadTrace {
                states: tr.states.push(state),
                targets: tr.targets.push(step.0),
                named: tr.named.push(step.1),
                lookups: tr.lookups.push(step.2),
                looked_up: tr.looked_up.push(step.3),
                imported: tr.imported.push(step.4),
                inner: tr.inner.push(step.5),
            };
            assert(traces_agree(tr, next, i as int));
            lemma_read_steps_agree(tr, next, body@, i as int, module_view(current), scope_view(scope), sources@, iv);
            assert(next.states[i as int] == before);
            assert(next.states[i + 1] == state);
            tr = next;
        }
        i = i + 1;
    }
    proof {
        assert(!views(active@).contains(file@));
        assert(source_of(sources@, file@) == Some(ModuleSource::Parsed(*body)));
    }
    (state, Ghost(tr))
}

/// Follows one star import, and gives what it went through: see
/// [`star_followed`].
fn follow_star_import(
    state: &mut SettingsExtractionState,
    module: Option<&str>,
    level: u32,
    current: Option<&PyModuleName>,
    scope: Option<&SettingsImportScope>,
    sources: &Vec<(String, ModuleSource)>,
    active: &Vec<String>,
    Ghost(depth): Ghost<nat>,
) -> (w: Ghost<
    (
        Fact<PyModuleName>,
        SettingsExtractionState,
        ModuleResolution,
        SettingsExtractionState,
        SettingsExtractionState,
        ReadTrace,
    ),
>)
    requires
        scope_view(scope) matches Some(sc) ==> {
            &&& views(active@).no_duplicates()
            &&& views(active@).len() > 0
            &&& forall|k: int|
                1 <= k < active@.len() ==> views(sc.files@).contains(#[trigger] views(active@)[k])
            &&& views(active@).len() <= sc.files@.len() + 1
            &&& depth == budget(scope_view(scope), views(active@)) + 1
        },
    ensures
        star_followed(
            w@.5,
            *old(state),
            *final(state),
            w@.0,
            w@.1,
            w@.2,
            w@.3,
            w@.4,
            match module {
                Some(m) => Some(m@),
                None => None,
            },
            level,
            module_view(current),
            scope_view(scope),
            sources@,
            views(active@),
        ),
    decreases depth, 0nat,
{
    let ghost start = *state;
    let ghost none = ReadTrace {
        states: Seq::empty(),
        targets: Seq::empty(),
        named: Seq::empty(),
        lookups: Seq::empty(),
        looked_up: Seq::empty(),
        imported: Seq::empty(),
        inner: Seq::empty(),
    };
    let (cur, sc) = match (current, scope) {
        (Some(c), Some(s)) => (c, s),
        _ => {
            return Ghost((arbitrary(), start, arbitrary(), start, start, none));
        },
    };
    let t = star_import_module(module, level, cur);
    let ghost tv = t;
    let target = match t.value() {
        Some(m) => Some(m.duplicate()),
        None => None,
    };
    state.add_import_reasons(into_reasons(t));
    let ghost mid = *state;
    let target = match target {
        Some(m) => m,
        None => {
            return Ghost((tv, mid, arbitrary(), mid, mid, none));
        },
    };
    let res = resolve_module(target.duplicate(), &sc.search_paths, sc.project_root.as_str(), &sc.files);
    proof {
        lemma_found_files_exist(target@, sc.search_paths@, views(sc.files@));
    }
    let ghost rv = res;
    let file = match res.resolved {
        Fact::Known { value } => value.file,
        Fact::Partial { value, reasons } => {
            state.add_import_reasons(reasons);
            value.file
        },
        Fact::Unknown { reasons } => {
            state.add_import_reasons(reasons);
            let ghost mid2 = *state;
            let candidates = unresolved_module_candidate_files(&target, &sc.search_paths);
            let ghost fr = state.files_read@;
            state.add_files_read(candidates);
            assert(views(state.files_read@) =~= views(fr) + candidate_files(target@, sc.search_paths@));
            return Ghost((tv, mid, rv, mid2, mid2, none));
        },
        Fact::Ambiguous { reasons, .. } => {
            state.add_import_reasons(reasons);
            let ghost mid2 = *state;
            let candidates = unresolved_module_candidate_files(&target, &sc.search_paths);
            let ghost fr = state.files_read@;
            state.add_files_read(candidates);
            assert(views(state.files_read@) =~= views(fr) + candidate_files(target@, sc.search_paths@));
            return Ghost((tv, mid, rv, mid2, mid2, none));
        },
    };
    let ghost mid2 = *state;
    assert(views(sc.files@).contains(file@));
    let (imported, inner) = settings_state(file.as_str(), Some(&target), scope, sources, active);
    let ghost iv = imported;
    state.apply_star_import(imported);
    Ghost((tv, mid, rv, mid2, iv, inner@))
}

/// The facts of the settings file `file`, its star imports left alone, with
/// the Python sources read in `sources`.
pub fn extract_settings_facts(file: &str, sources: &Vec<(String, ModuleSource)>) -> (r: SettingsFacts)
    ensures
        exists|tr: ReadTrace, st: SettingsExtractionState|
            #[trigger] file_read(tr, file@, None, None, sources@, Seq::empty(), st) && facts_of(st, r),
{
    let active: Vec<String> = Vec::new();
    assert(views(active@) =~= Seq::<Seq<char>>::empty());
    let (st, tr) = settings_state(file, None, None, sources, &active);
    let ghost sv = st;
    let r = st.into_facts();
    assert(file_read(tr@, file@, None, None, sources@, Seq::empty(), sv) && facts_of(sv, r));
    r
}

/// The facts of the settings file `file` of the module `current_module`, its
/// star imports followed through `scope`, with the Python sources read in
/// `sources`.
pub fn extract_settings_facts_for_module(
    file: &str,
    current_module: &PyModuleName,
    scope: &SettingsImportScope,
    sources: &Vec<(String, ModuleSource)>,
) -> (r: SettingsFacts)
    ensures
        exists|tr: ReadTrace, st: SettingsExtractionState|
            #[trigger] file_read(tr, file@, Some(*current_module), Some(*scope), sources@, Seq::empty(), st)
                && facts_of(st, r),
{
    let active: Vec<String> = Vec::new();
    assert(views(active@) =~= Seq::<Seq<char>>::empty());
    let (st, tr) = settings_state(file, Some(current_module), Some(scope), sources, &active);
    let ghost sv = st;
    let r = st.into_facts();
    assert(file_read(tr@, file@, Some(*current_module), Some(*scope), sources@, Seq::empty(), sv)
        && facts_of(sv, r));
    r
}

/// A settings file that cannot be had (its source missing, unreadable or
/// unparsable, or the file already being read further up an import chain)
/// leaves both settings unknown, each for one reason about that file, and
/// counts as the only file read.
pub proof fn law_unavailable_file_leaves_settings_unknown(
    tr: ReadTrace,
    file: Seq<char>,
    current: Option<PyModuleName>,
    scope: Option<SettingsImportScope>,
    sources: Seq<(String, ModuleSource)>,
    active: Seq<Seq<char>>,
    st: SettingsExtractionState,
    r: SettingsFacts,
)
    requires
        file_read(tr, file, current, scope, sources, active, st),
        facts_of(st, r),
        active.contains(file) || !(source_of(sources, file) matches Some(ModuleSource::Parsed(_))),
    ensures
        r.installed_apps is Unknown,
        r.installed_apps.reasons_spec().len() == 1,
        is_file_reason(r.installed_apps.reasons_spec()[0], crate::facts::Field::SettingsInstalledApps, file, r.installed_apps.reasons_spec()[0].message@),
        r.template_backends is Unknown,
        r.template_backends.reasons_spec().len() == 1,
        is_file_reason(r.template_backends.reasons_spec()[0], crate::facts::Field::SettingsTemplates, file, r.template_backends.reasons_spec()[0].message@),
        views(r.files_read@) == seq![file],
{
    crate::path_order::lemma_single_path(file, views(r.files_read@));
    let ia = st.installed_apps->0;
    let tb = st.template_backends->0;
    assert(ia.reasons_spec() + st.installed_apps_import_reasons@ =~= ia.reasons_spec());
    assert(tb.reasons_spec() + st.template_backends_import_reasons@ =~= tb.reasons_spec());
}

} // verus!
