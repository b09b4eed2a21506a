//! Which template libraries a project has, as Django's standard template
//! backend sees them: its default `{% load %}` libraries, the `templatetags`
//! packages of installed apps, `OPTIONS.libraries`, its default builtins and
//! `OPTIONS.builtins`. Loadable libraries are keyed by load name; a later entry
//! replaces an earlier one, and two apps that provide the same load name from
//! different modules leave a reason.
use vstd::prelude::*;
use vstd::string::StrSliceExecFns;

use crate::facts::{
    known_or_partial, reason_views, Fact, Field, Reason, ReasonSource, ReasonView, SourceView,
    TemplateBackendFact, TemplateLibraryFact, TemplateLibrarySource,
};
use crate::keyed::{find_key, keyed_map, keys, lemma_keyed_at, put_keyed, Keyed};
use crate::names::{is_dotted_name, is_ident_char, is_ident_start, LibraryName, PyModuleName};
use crate::template_dirs::{contains_reason, extend_unique_reasons, with_unique};
use crate::modules::{join_strings, join_with};
use crate::names::name_error_message;
use crate::paths::{
    components_of, file_name_of, opt_view, parent_of, path_components, path_file_name, path_parent,
    path_strip_prefix, path_with_extension, stripped_prefix, with_extension,
};
use crate::pyast::{Alias, Stmt};
use crate::settings::{assigned_value, assigned_value_spec};
use crate::text::{concat, str_eq, strictly_sorted, views};

verus! {

broadcast use vstd::seq::Seq::group_seq_extra;

/// Where the last dotted segment of `s` starts: after its last dot, or at 0.
pub open spec fn segment_start(s: Seq<char>) -> int
    decreases s.len(),
{
    if s.len() == 0 {
        0
    } else if s.last() == '.' {
        s.len() as int
    } else {
        segment_start(s.drop_last())
    }
}

/// The part of `s` after its last dot; all of `s` when it has none.
pub open spec fn basename(s: Seq<char>) -> Seq<char> {
    s.subrange(segment_start(s), s.len() as int)
}

pub proof fn lemma_segment_start(s: Seq<char>)
    ensures
        0 <= segment_start(s) <= s.len(),
        segment_start(s) == 0 || s[segment_start(s) - 1] == '.',
        forall|i: int| segment_start(s) <= i < s.len() ==> s[i] != '.',
    decreases s.len(),
{
    if s.len() > 0 && s.last() != '.' {
        lemma_segment_start(s.drop_last());
        let k = segment_start(s);
        assert forall|i: int| k <= i < s.len() implies s[i] != '.' by {
            if i < s.len() - 1 {
                assert(s.drop_last()[i] == s[i]);
            }
        }
        if k > 0 {
            assert(s.drop_last()[k - 1] == s[k - 1]);
        }
    }
}

proof fn lemma_segment_start_at(s: Seq<char>, k: int)
    requires
        0 <= k <= s.len(),
        k == 0 || s[k - 1] == '.',
        forall|i: int| k <= i < s.len() ==> s[i] != '.',
    ensures
        segment_start(s) == k,
    decreases s.len(),
{
    if s.len() > 0 && k < s.len() {
        assert(s.last() != '.');
        if k > 0 {
            assert(s.drop_last()[k - 1] == s[k - 1]);
        }
        assert forall|i: int| k <= i < s.len() - 1 implies s.drop_last()[i] != '.' by {
            assert(s.drop_last()[i] == s[i]);
        }
        lemma_segment_start_at(s.drop_last(), k);
    }
}

/// The last segment of a dotted name is itself a dotted name.
proof fn lemma_basename_dotted(s: Seq<char>)
    requires
        is_dotted_name(s),
    ensures
        is_dotted_name(basename(s)),
{
    lemma_segment_start(s);
    let k = segment_start(s);
    let b = basename(s);
    if k == s.len() {
        assert(s[k - 1] == '.');
    }
    assert(is_ident_start(b[0])) by {
        if k > 0 {
            assert(s[k - 1] == '.');
        }
    }
    assert forall|i: int| 0 <= i < b.len() implies if #[trigger] b[i] == '.' {
        i + 1 < b.len() && is_ident_start(b[i + 1])
    } else {
        is_ident_char(b[i])
    } by {
        assert(b[i] == s[k + i]);
        assert(s[k + i] != '.');
    }
}

/// The last segment of the module's name: `defaulttags` for
/// `django.template.defaulttags`.
pub fn module_basename(module: &PyModuleName) -> (r: &str)
    ensures
        r@ == basename(module@),
        is_dotted_name(r@),
{
    let s = module.as_str();
    let n = s.unicode_len();
    let k = segment_start_exec(s);
    proof {
        lemma_segment_start(s@);
        lemma_basename_dotted(s@);
    }
    s.substring_char(k, n)
}

/// Where the last dotted segment of `s` starts.
pub fn segment_start_exec(s: &str) -> (r: usize)
    ensures
        r == segment_start(s@),
{
    let n = s.unicode_len();
    let mut k = n;
    while k > 0 && s.get_char(k - 1) != '.'
        invariant
            k <= n,
            n == s@.len(),
            forall|i: int| k <= i < n ==> s@[i] != '.',
        decreases k,
    {
        k = k - 1;
    }
    proof {
        lemma_segment_start_at(s@, k as int);
    }
    k
}

/// A library by its load name, its module and its source.
pub type LibView = (Seq<char>, Seq<char>, TemplateLibrarySource);

pub open spec fn lib_view(f: TemplateLibraryFact) -> LibView {
    (f.load_name@, f.module@, f.source)
}

pub open spec fn lib_views(v: Seq<TemplateLibraryFact>) -> Seq<LibView> {
    v.map_values(|f: TemplateLibraryFact| lib_view(f))
}

/// The loadable libraries of a vector sorted by load name, by load name.
pub open spec fn loadable_view(v: Seq<TemplateLibraryFact>) -> Map<Seq<char>, LibView> {
    keyed_map(v).map_values(|f: TemplateLibraryFact| lib_view(f))
}

impl Keyed for TemplateLibraryFact {
    /// Loadable libraries are found by load name.
    open spec fn key(&self) -> Seq<char> {
        self.load_name@
    }

    fn key_str(&self) -> (r: &str) {
        self.load_name.as_str()
    }
}

impl TemplateLibrarySource {
    pub fn duplicate(&self) -> (r: TemplateLibrarySource)
        ensures
            r == *self,
    {
        match self {
            TemplateLibrarySource::AppTemplateTags { app } => TemplateLibrarySource::AppTemplateTags {
                app: app.duplicate(),
            },
            TemplateLibrarySource::SettingsLibraries => TemplateLibrarySource::SettingsLibraries,
            TemplateLibrarySource::SettingsBuiltins => TemplateLibrarySource::SettingsBuiltins,
            TemplateLibrarySource::DjangoDefaultLibrary => TemplateLibrarySource::DjangoDefaultLibrary,
            TemplateLibrarySource::DjangoDefaultBuiltin => TemplateLibrarySource::DjangoDefaultBuiltin,
            TemplateLibrarySource::Discovered => TemplateLibrarySource::Discovered,
            TemplateLibrarySource::UserOverride => TemplateLibrarySource::UserOverride,
        }
    }
}

impl TemplateLibraryFact {
    pub fn duplicate(&self) -> (r: TemplateLibraryFact)
        ensures
            r == *self,
    {
        TemplateLibraryFact {
            load_name: self.load_name.duplicate(),
            module: self.module.duplicate(),
            source: self.source.duplicate(),
        }
    }
}

/// The template tag libraries found in the `templatetags` package of one
/// installed app, and the reasons that came up while looking.
pub struct DiscoveredTemplateTags {
    pub libraries: Vec<TemplateLibraryFact>,
    pub reasons: Vec<Reason>,
}

impl DiscoveredTemplateTags {
    pub fn duplicate(&self) -> (r: DiscoveredTemplateTags)
        ensures
            r.libraries@ == self.libraries@,
            r.reasons@ == self.reasons@,
    {
        let mut libraries: Vec<TemplateLibraryFact> = Vec::new();
        let mut i: usize = 0;
        while i < self.libraries.len()
            invariant
                i <= self.libraries.len(),
                libraries@ == self.libraries@.take(i as int),
            decreases self.libraries.len() - i,
        {
            libraries.push(self.libraries[i].duplicate());
            assert(libraries@ =~= self.libraries@.take(i + 1));
            i = i + 1;
        }
        assert(self.libraries@.take(i as int) =~= self.libraries@);
        DiscoveredTemplateTags { libraries, reasons: crate::facts::duplicate_reasons(&self.reasons) }
    }
}

/// What assembly has gathered: loadable libraries by load name, builtins in
/// order, and reasons.
pub struct LibraryAssembly {
    pub loadable: Map<Seq<char>, LibView>,
    pub builtins: Seq<LibView>,
    pub reasons: Seq<ReasonView>,
}

/// The assembly state kept while assembling.
pub struct AssemblyState {
    pub loadable: Vec<TemplateLibraryFact>,
    pub builtins: Vec<TemplateLibraryFact>,
    pub reasons: Vec<Reason>,
}

impl View for AssemblyState {
    type V = LibraryAssembly;

    open spec fn view(&self) -> LibraryAssembly {
        LibraryAssembly {
            loadable: loadable_view(self.loadable@),
            builtins: lib_views(self.builtins@),
            reasons: reason_views(self.reasons@),
        }
    }
}

impl AssemblyState {
    /// The loadable libraries are sorted by load name, each name once.
    pub open spec fn wf(&self) -> bool {
        strictly_sorted(keys(self.loadable@))
    }
}

/// `rs` with `r` added unless it is there.
pub open spec fn with_reason(rs: Seq<ReasonView>, r: ReasonView) -> Seq<ReasonView> {
    if rs.contains(r) {
        rs
    } else {
        rs.push(r)
    }
}

/// The reason left when `new` takes a load name that `existing` provided from
/// another module.
pub open spec fn duplicate_load_name_reason(new: LibView, existing: LibView) -> ReasonView {
    ReasonView {
        field: Field::TemplateLibraries,
        source: SourceView::Module(new.1),
        message: "template library load name `"@ + new.0 + "` is provided by both `"@ + existing.1
            + "` and `"@ + new.1 + "`; the later Django discovery entry wins"@,
    }
}

/// `lib` takes its load name; when `report`, taking it from a library of
/// another module adds a reason.
pub open spec fn upserted(a: LibraryAssembly, lib: LibView, report: bool) -> LibraryAssembly {
    LibraryAssembly {
        loadable: a.loadable.insert(lib.0, lib),
        builtins: a.builtins,
        reasons: if report && a.loadable.contains_key(lib.0) && a.loadable[lib.0].1 != lib.1 {
            with_reason(a.reasons, duplicate_load_name_reason(lib, a.loadable[lib.0]))
        } else {
            a.reasons
        },
    }
}

/// Each of `libs` upserted in turn.
pub open spec fn upserted_all(a: LibraryAssembly, libs: Seq<LibView>, report: bool) -> LibraryAssembly
    decreases libs.len(),
{
    if libs.len() == 0 {
        a
    } else {
        upserted(upserted_all(a, libs.drop_last(), report), libs.last(), report)
    }
}

/// `lib` under its load name unless that name is taken.
pub open spec fn kept(a: LibraryAssembly, lib: LibView) -> LibraryAssembly {
    if a.loadable.contains_key(lib.0) {
        a
    } else {
        LibraryAssembly { loadable: a.loadable.insert(lib.0, lib), builtins: a.builtins, reasons: a.reasons }
    }
}

/// A default library of Django.
pub open spec fn default_library(load_name: Seq<char>, module: Seq<char>) -> LibView {
    (load_name, module, TemplateLibrarySource::DjangoDefaultLibrary)
}

/// Django's default loadable libraries, each unless its name is taken.
pub open spec fn with_default_libraries(a: LibraryAssembly) -> LibraryAssembly {
    kept(
        kept(
            kept(
                kept(kept(a, default_library("cache"@, "django.templatetags.cache"@)), default_library("i18n"@, "django.templatetags.i18n"@)),
                default_library("l10n"@, "django.templatetags.l10n"@),
            ),
            default_library("static"@, "django.templatetags.static"@),
        ),
        default_library("tz"@, "django.templatetags.tz"@),
    )
}

/// `b` appended to the builtins unless a builtin of its module is there.
pub open spec fn with_builtin(a: LibraryAssembly, b: LibView) -> LibraryAssembly {
    if exists|j: int| 0 <= j < a.builtins.len() && (#[trigger] a.builtins[j]).1 == b.1 {
        a
    } else {
        LibraryAssembly { loadable: a.loadable, builtins: a.builtins.push(b), reasons: a.reasons }
    }
}

/// Each of `bs` added as a builtin in turn.
pub open spec fn with_builtins(a: LibraryAssembly, bs: Seq<LibView>) -> LibraryAssembly
    decreases bs.len(),
{
    if bs.len() == 0 {
        a
    } else {
        with_builtin(with_builtins(a, bs.drop_last()), bs.last())
    }
}

/// The builtin library of `module`: loaded by the module's last segment.
pub open spec fn builtin_view(module: Seq<char>, source: TemplateLibrarySource) -> LibView {
    (basename(module), module, source)
}

/// Django's default builtins.
pub open spec fn with_default_builtins(a: LibraryAssembly) -> LibraryAssembly {
    with_builtin(
        with_builtin(
            with_builtin(a, builtin_view("django.template.defaulttags"@, TemplateLibrarySource::DjangoDefaultBuiltin)),
            builtin_view("django.template.defaultfilters"@, TemplateLibrarySource::DjangoDefaultBuiltin),
        ),
        builtin_view("django.template.loader_tags"@, TemplateLibrarySource::DjangoDefaultBuiltin),
    )
}

/// The builtins that `OPTIONS.builtins` names.
pub open spec fn settings_builtins(ms: Seq<PyModuleName>) -> Seq<LibView> {
    ms.map_values(|m: PyModuleName| builtin_view(m@, TemplateLibrarySource::SettingsBuiltins))
}

/// The reasons added each unless there.
pub open spec fn with_reasons(a: LibraryAssembly, rs: Seq<ReasonView>) -> LibraryAssembly {
    LibraryAssembly { loadable: a.loadable, builtins: a.builtins, reasons: with_unique(a.reasons, rs) }
}

/// One app's discovered libraries: its reasons first, then each library,
/// reporting load names taken from another module.
pub open spec fn discovered_step(a: LibraryAssembly, d: DiscoveredTemplateTags) -> LibraryAssembly {
    upserted_all(
        LibraryAssembly { loadable: a.loadable, builtins: a.builtins, reasons: a.reasons + reason_views(d.reasons@) },
        lib_views(d.libraries@),
        true,
    )
}

pub open spec fn apps_step(a: LibraryAssembly, apps: Seq<DiscoveredTemplateTags>) -> LibraryAssembly
    decreases apps.len(),
{
    if apps.len() == 0 {
        a
    } else {
        discovered_step(apps_step(a, apps.drop_last()), apps.last())
    }
}

/// The installed apps' libraries, by what is known of the app registry.
pub open spec fn app_libraries_step(a: LibraryAssembly, apps: Fact<Vec<DiscoveredTemplateTags>>) -> LibraryAssembly {
    match apps {
        Fact::Known { value } => apps_step(a, value@),
        Fact::Partial { value, reasons } => with_reasons(apps_step(a, value@), reason_views(reasons@)),
        Fact::Unknown { reasons } => with_reasons(a, reason_views(reasons@)),
        Fact::Ambiguous { reasons, .. } => with_reasons(a, reason_views(reasons@)),
    }
}

/// `OPTIONS.libraries` of one backend, replacing libraries of the same name.
pub open spec fn option_libraries_step(a: LibraryAssembly, f: Fact<Vec<TemplateLibraryFact>>) -> LibraryAssembly {
    match f {
        Fact::Known { value } => upserted_all(a, lib_views(value@), false),
        Fact::Partial { value, reasons } => with_reasons(upserted_all(a, lib_views(value@), false), reason_views(reasons@)),
        Fact::Unknown { reasons } => with_reasons(a, reason_views(reasons@)),
        Fact::Ambiguous { reasons, .. } => with_reasons(a, reason_views(reasons@)),
    }
}

/// `OPTIONS.builtins` of one backend.
pub open spec fn option_builtins_step(a: LibraryAssembly, f: Fact<Vec<PyModuleName>>) -> LibraryAssembly {
    match f {
        Fact::Known { value } => with_builtins(a, settings_builtins(value@)),
        Fact::Partial { value, reasons } => with_reasons(with_builtins(a, settings_builtins(value@)), reason_views(reasons@)),
        Fact::Unknown { reasons } => with_reasons(a, reason_views(reasons@)),
        Fact::Ambiguous { reasons, .. } => with_reasons(a, reason_views(reasons@)),
    }
}

/// The options of each backend in turn.
pub open spec fn options_step(a: LibraryAssembly, bs: Seq<TemplateBackendFact>) -> LibraryAssembly
    decreases bs.len(),
{
    if bs.len() == 0 {
        a
    } else {
        let b = bs.last();
        option_builtins_step(option_libraries_step(options_step(a, bs.drop_last()), b.option_libraries), b.option_builtins)
    }
}

/// Whether the backend is Django's standard template backend.
pub open spec fn is_django_backend(b: TemplateBackendFact) -> bool {
    b.backend matches Some(name) && name@ == "django.template.backends.django.DjangoTemplates"@
}

/// The reason for a backend whose `BACKEND` is not known.
pub open spec fn unknown_backend_library_reason() -> ReasonView {
    ReasonView {
        field: Field::TemplateLibraries,
        source: SourceView::Unknown,
        message: "TEMPLATES BACKEND is not known; only statically known template library options were assembled for this backend"@,
    }
}

/// `rs` with a reason for each backend whose `BACKEND` is not known.
pub open spec fn classified_reasons(rs: Seq<ReasonView>, bs: Seq<TemplateBackendFact>) -> Seq<ReasonView>
    decreases bs.len(),
{
    if bs.len() == 0 {
        rs
    } else if bs.last().backend is None {
        classified_reasons(rs, bs.drop_last()).push(unknown_backend_library_reason())
    } else {
        classified_reasons(rs, bs.drop_last())
    }
}

/// The backends whose options count: Django's and those whose kind is not known.
pub open spec fn option_backends(bs: Seq<TemplateBackendFact>) -> Seq<TemplateBackendFact>
    decreases bs.len(),
{
    if bs.len() == 0 {
        Seq::empty()
    } else if bs.last().backend is None || is_django_backend(bs.last()) {
        option_backends(bs.drop_last()).push(bs.last())
    } else {
        option_backends(bs.drop_last())
    }
}

/// Whether one of the backends is Django's.
pub open spec fn has_django_backend(bs: Seq<TemplateBackendFact>) -> bool {
    exists|i: int| 0 <= i < bs.len() && is_django_backend(#[trigger] bs[i])
}

/// Assembly over the backends, starting from `reasons`: with a Django backend,
/// Django's default libraries, then the apps' libraries, then Django's default
/// builtins; then the options of each backend that counts.
pub open spec fn assembled(
    bs: Seq<TemplateBackendFact>,
    reasons: Seq<ReasonView>,
    apps: Fact<Vec<DiscoveredTemplateTags>>,
) -> LibraryAssembly {
    let start = LibraryAssembly {
        loadable: Map::empty(),
        builtins: Seq::empty(),
        reasons: classified_reasons(reasons, bs),
    };
    let with_django = if has_django_backend(bs) {
        with_default_builtins(app_libraries_step(with_default_libraries(start), apps))
    } else {
        start
    };
    options_step(with_django, option_backends(bs))
}

/// `v` is the loadable libraries of `a` in load-name order, then its builtins.
pub open spec fn lists_assembly(v: Seq<TemplateLibraryFact>, a: LibraryAssembly) -> bool {
    exists|n: int|
        #![trigger v.take(n)]
        0 <= n <= v.len() && strictly_sorted(keys(v.take(n))) && loadable_view(v.take(n)) == a.loadable
            && lib_views(v.skip(n)) == a.builtins
}

/// `r` is the result of assembly `a`: known without reasons, else partial.
pub open spec fn assembly_fact(a: LibraryAssembly, r: Fact<Vec<TemplateLibraryFact>>) -> bool {
    match r {
        Fact::Known { value } => a.reasons.len() == 0 && lists_assembly(value@, a),
        Fact::Partial { value, reasons } => a.reasons.len() > 0 && reason_views(reasons@) == a.reasons
            && lists_assembly(value@, a),
        _ => false,
    }
}

/// Adds Django's default library `load_name` unless the name is taken.
fn add_default_library(state: &mut AssemblyState, load_name: &str, module: &str)
    requires
        old(state).wf(),
        is_dotted_name(load_name@),
        is_dotted_name(module@),
    ensures
        final(state).wf(),
        final(state)@ == kept(old(state)@, default_library(load_name@, module@)),
{
    let fact = TemplateLibraryFact {
        load_name: LibraryName::parse(load_name).unwrap(),
        module: PyModuleName::parse(module).unwrap(),
        source: TemplateLibrarySource::DjangoDefaultLibrary,
    };
    match find_key(&state.loadable, load_name) {
        Some(i) => {
            proof {
                lemma_keyed_at(state.loadable@, i as int);
            }
        },
        None => {
            let ghost before = state.loadable@;
            put_keyed(&mut state.loadable, fact);
            proof {
                assert(!keyed_map(before).dom().contains(load_name@));
                assert(loadable_view(state.loadable@) =~= loadable_view(before).insert(
                    load_name@,
                    default_library(load_name@, module@),
                ));
            }
        },
    }
}

/// Adds Django's default loadable libraries, each unless its name is taken.
fn append_default_loadable_libraries(state: &mut AssemblyState)
    requires
        old(state).wf(),
    ensures
        final(state).wf(),
        final(state)@ == with_default_libraries(old(state)@),
{
    proof {
        reveal_strlit("cache");
        reveal_strlit("django.templatetags.cache");
        reveal_strlit("i18n");
        reveal_strlit("django.templatetags.i18n");
        reveal_strlit("l10n");
        reveal_strlit("django.templatetags.l10n");
        reveal_strlit("static");
        reveal_strlit("django.templatetags.static");
        reveal_strlit("tz");
        reveal_strlit("django.templatetags.tz");
    }
    add_default_library(state, "cache", "django.templatetags.cache");
    add_default_library(state, "i18n", "django.templatetags.i18n");
    add_default_library(state, "l10n", "django.templatetags.l10n");
    add_default_library(state, "static", "django.templatetags.static");
    add_default_library(state, "tz", "django.templatetags.tz");
}

/// The message of the reason for a load name provided by two modules.
fn duplicate_load_name_message(load_name: &str, existing: &str, new: &str) -> (r: String)
    ensures
        r@ == "template library load name `"@ + load_name@ + "` is provided by both `"@ + existing@
            + "` and `"@ + new@ + "`; the later Django discovery entry wins"@,
{
    let a = concat("template library load name `", load_name);
    let b = concat(a.as_str(), "` is provided by both `");
    let c = concat(b.as_str(), existing);
    let d = concat(c.as_str(), "` and `");
    let e = concat(d.as_str(), new);
    concat(e.as_str(), "`; the later Django discovery entry wins")
}

/// Puts `library` under its load name. With `report`, a library of another
/// module that had the name leaves a reason.
fn upsert_loadable_library(state: &mut AssemblyState, library: TemplateLibraryFact, report: bool)
    requires
        old(state).wf(),
    ensures
        final(state).wf(),
        final(state)@ == upserted(old(state)@, lib_view(library), report),
{
    let ghost key = library.load_name@;
    if report {
        match find_key(&state.loadable, library.load_name.as_str()) {
            Some(i) => {
                proof {
                    lemma_keyed_at(state.loadable@, i as int);
                }
                let existing = &state.loadable[i];
                if !str_eq(existing.module.as_str(), library.module.as_str()) {
                    let message = duplicate_load_name_message(
                        library.load_name.as_str(),
                        existing.module.as_str(),
                        library.module.as_str(),
                    );
                    let reason = Reason::new(
                        Field::TemplateLibraries,
                        ReasonSource::Module(library.module.duplicate()),
                        message,
                    );
                    if !contains_reason(&state.reasons, &reason) {
                        let ghost before = reason_views(state.reasons@);
                        state.reasons.push(reason);
                        assert(reason_views(state.reasons@) =~= before.push(reason@));
                    }
                }
            },
            None => {
            },
        }
    }
    let ghost before = state.loadable@;
    put_keyed(&mut state.loadable, library);
    assert(loadable_view(state.loadable@) =~= loadable_view(before).insert(key, lib_view(library)));
}

/// Upserts each of `libraries` in turn.
fn upsert_loadable_libraries(state: &mut AssemblyState, libraries: &Vec<TemplateLibraryFact>, report: bool)
    requires
        old(state).wf(),
    ensures
        final(state).wf(),
        final(state)@ == upserted_all(old(state)@, lib_views(libraries@), report),
{
    let ghost start = state@;
    let mut i: usize = 0;
    while i < libraries.len()
        invariant
            i <= libraries.len(),
            state.wf(),
            state@ == upserted_all(start, lib_views(libraries@.take(i as int)), report),
        decreases libraries.len() - i,
    {
        assert(lib_views(libraries@.take(i + 1)).drop_last() =~= lib_views(libraries@.take(i as int)));
        upsert_loadable_library(state, libraries[i].duplicate(), report);
        i = i + 1;
    }
    assert(libraries@.take(i as int) =~= libraries@);
}

/// Adds the reasons, each unless there.
fn add_unique_reasons(state: &mut AssemblyState, reasons: &Vec<Reason>)
    requires
        old(state).wf(),
    ensures
        final(state).wf(),
        final(state)@ == with_reasons(old(state)@, reason_views(reasons@)),
{
    extend_unique_reasons(&mut state.reasons, reasons);
}

/// Adds the libraries that the installed apps' `templatetags` packages hold.
fn push_app_template_tag_libraries(state: &mut AssemblyState, apps: &Vec<DiscoveredTemplateTags>)
    requires
        old(state).wf(),
    ensures
        final(state).wf(),
        final(state)@ == apps_step(old(state)@, apps@),
{
    let ghost start = state@;
    let mut i: usize = 0;
    while i < apps.len()
        invariant
            i <= apps.len(),
            state.wf(),
            state@ == apps_step(start, apps@.take(i as int)),
        decreases apps.len() - i,
    {
        assert(apps@.take(i + 1).drop_last() =~= apps@.take(i as int));
        let ghost before = reason_views(state.reasons@);
        let found = apps[i].duplicate();
        let mut extra = found.reasons;
        state.reasons.append(&mut extra);
        assert(reason_views(state.reasons@) =~= before + reason_views(apps@[i as int].reasons@));
        upsert_loadable_libraries(state, &found.libraries, true);
        i = i + 1;
    }
    assert(apps@.take(i as int) =~= apps@);
}

/// Adds the installed apps' libraries, by what is known of the app registry.
fn append_app_template_tag_libraries(state: &mut AssemblyState, apps: &Fact<Vec<DiscoveredTemplateTags>>)
    requires
        old(state).wf(),
    ensures
        final(state).wf(),
        final(state)@ == app_libraries_step(old(state)@, *apps),
{
    match apps {
        Fact::Known { value } => push_app_template_tag_libraries(state, value),
        Fact::Partial { value, reasons } => {
            push_app_template_tag_libraries(state, value);
            add_unique_reasons(state, reasons);
        },
        Fact::Unknown { reasons } => add_unique_reasons(state, reasons),
        Fact::Ambiguous { reasons, .. } => add_unique_reasons(state, reasons),
    }
}

/// Adds the libraries of `OPTIONS.libraries`, replacing those of the same name.
fn append_option_libraries(state: &mut AssemblyState, option_libraries: &Fact<Vec<TemplateLibraryFact>>)
    requires
        old(state).wf(),
    ensures
        final(state).wf(),
        final(state)@ == option_libraries_step(old(state)@, *option_libraries),
{
    match option_libraries {
        Fact::Known { value } => push_option_libraries(state, value),
        Fact::Partial { value, reasons } => {
            push_option_libraries(state, value);
            add_unique_reasons(state, reasons);
        },
        Fact::Unknown { reasons } => add_unique_reasons(state, reasons),
        Fact::Ambiguous { reasons, .. } => add_unique_reasons(state, reasons),
    }
}

/// Puts each of `libraries` under its load name, silently replacing.
fn push_option_libraries(state: &mut AssemblyState, libraries: &Vec<TemplateLibraryFact>)
    requires
        old(state).wf(),
    ensures
        final(state).wf(),
        final(state)@ == upserted_all(old(state)@, lib_views(libraries@), false),
{
    upsert_loadable_libraries(state, libraries, false);
}

/// The builtin library of `module`, loaded by the module's last segment.
pub fn builtin_fact(module: PyModuleName, source: TemplateLibrarySource) -> (r: TemplateLibraryFact)
    ensures
        lib_view(r) == builtin_view(module@, source),
        r.module == module,
        r.source == source,
{
    let load_name = LibraryName::parse(module_basename(&module)).unwrap();
    TemplateLibraryFact { load_name, module, source }
}

/// Appends `builtin` unless a builtin of its module is there.
fn push_unique_builtin(state: &mut AssemblyState, builtin: TemplateLibraryFact)
    requires
        old(state).wf(),
    ensures
        final(state).wf(),
        final(state)@ == with_builtin(old(state)@, lib_view(builtin)),
{
    let ghost bs = lib_views(state.builtins@);
    let mut i: usize = 0;
    while i < state.builtins.len()
        invariant
            i <= state.builtins.len(),
            state.wf(),
            bs == lib_views(state.builtins@),
            forall|j: int| 0 <= j < i ==> state.builtins@[j].module@ != builtin.module@,
        decreases state.builtins.len() - i,
    {
        if str_eq(state.builtins[i].module.as_str(), builtin.module.as_str()) {
            assert(bs[i as int].1 == builtin.module@);
            return;
        }
        i = i + 1;
    }
    assert(!exists|j: int| 0 <= j < bs.len() && (#[trigger] bs[j]).1 == builtin.module@) by {
        assert forall|j: int| 0 <= j < bs.len() implies (#[trigger] bs[j]).1 != builtin.module@ by {
            assert(bs[j] == lib_view(state.builtins@[j]));
        }
    }
    let ghost before = state.builtins@;
    state.builtins.push(builtin);
    assert(lib_views(state.builtins@) =~= lib_views(before).push(lib_view(builtin)));
}

/// Adds Django's default builtins.
fn append_default_builtins(state: &mut AssemblyState)
    requires
        old(state).wf(),
    ensures
        final(state).wf(),
        final(state)@ == with_default_builtins(old(state)@),
{
    proof {
        reveal_strlit("django.template.defaulttags");
        reveal_strlit("django.template.defaultfilters");
        reveal_strlit("django.template.loader_tags");
    }
    let a = PyModuleName::parse("django.template.defaulttags").unwrap();
    push_unique_builtin(state, builtin_fact(a, TemplateLibrarySource::DjangoDefaultBuiltin));
    let b = PyModuleName::parse("django.template.defaultfilters").unwrap();
    push_unique_builtin(state, builtin_fact(b, TemplateLibrarySource::DjangoDefaultBuiltin));
    let c = PyModuleName::parse("django.template.loader_tags").unwrap();
    push_unique_builtin(state, builtin_fact(c, TemplateLibrarySource::DjangoDefaultBuiltin));
}

/// Adds the builtin of each of `modules` in turn.
fn push_option_builtins(state: &mut AssemblyState, modules: &Vec<PyModuleName>)
    requires
        old(state).wf(),
    ensures
        final(state).wf(),
        final(state)@ == with_builtins(old(state)@, settings_builtins(modules@)),
{
    let ghost start = state@;
    let mut i: usize = 0;
    while i < modules.len()
        invariant
            i <= modules.len(),
            state.wf(),
            state@ == with_builtins(start, settings_builtins(modules@.take(i as int))),
        decreases modules.len() - i,
    {
        assert(settings_builtins(modules@.take(i + 1)).drop_last() =~= settings_builtins(modules@.take(i as int)));
        push_unique_builtin(state, builtin_fact(modules[i].duplicate(), TemplateLibrarySource::SettingsBuiltins));
        i = i + 1;
    }
    assert(modules@.take(i as int) =~= modules@);
}

/// Adds the builtins of `OPTIONS.builtins`, by what is known of them.
fn append_option_builtins(state: &mut AssemblyState, option_builtins: &Fact<Vec<PyModuleName>>)
    requires
        old(state).wf(),
    ensures
        final(state).wf(),
        final(state)@ == option_builtins_step(old(state)@, *option_builtins),
{
    match option_builtins {
        Fact::Known { value } => push_option_builtins(state, value),
        Fact::Partial { value, reasons } => {
            push_option_builtins(state, value);
            add_unique_reasons(state, reasons);
        },
        Fact::Unknown { reasons } => add_unique_reasons(state, reasons),
        Fact::Ambiguous { reasons, .. } => add_unique_reasons(state, reasons),
    }
}

/// What a template backend is to library assembly.
#[derive(Clone, Copy, Debug, PartialEq, Eq, Structural)]
pub enum BackendKind {
    Django,
    NonDjango,
    Unknown,
}

/// The kind of a backend; one whose `BACKEND` is not known adds a reason.
fn classify_template_backend(backend: &TemplateBackendFact, reasons: &mut Vec<Reason>) -> (r: BackendKind)
    ensures
        r == (if backend.backend is None {
            BackendKind::Unknown
        } else if is_django_backend(*backend) {
            BackendKind::Django
        } else {
            BackendKind::NonDjango
        }),
        reason_views(final(reasons)@) == if backend.backend is None {
            reason_views(old(reasons)@).push(unknown_backend_library_reason())
        } else {
            reason_views(old(reasons)@)
        },
{
    match &backend.backend {
        None => {
            let ghost before = reason_views(reasons@);
            reasons.push(
                Reason::new(
                    Field::TemplateLibraries,
                    ReasonSource::Unknown,
                    "TEMPLATES BACKEND is not known; only statically known template library options were assembled for this backend".to_string(),
                ),
            );
            assert(reason_views(reasons@) =~= before.push(unknown_backend_library_reason()));
            BackendKind::Unknown
        },
        Some(name) => if str_eq(name.as_str(), "django.template.backends.django.DjangoTemplates") {
            BackendKind::Django
        } else {
            BackendKind::NonDjango
        },
    }
}

/// Assembles the libraries of the backends, starting from `reasons`.
fn assemble_template_backend_libraries(
    backends: &Vec<TemplateBackendFact>,
    reasons: Vec<Reason>,
    apps: &Fact<Vec<DiscoveredTemplateTags>>,
) -> (r: Fact<Vec<TemplateLibraryFact>>)
    ensures
        assembly_fact(assembled(backends@, reason_views(reasons@), *apps), r),
{
    let ghost start_reasons = reason_views(reasons@);
    let mut reasons = reasons;
    let mut has_django = false;
    let mut i: usize = 0;
    while i < backends.len()
        invariant
            i <= backends.len(),
            reason_views(reasons@) == classified_reasons(start_reasons, backends@.take(i as int)),
            has_django == has_django_backend(backends@.take(i as int)),
        decreases backends.len() - i,
    {
        let ghost bs = backends@.take(i + 1);
        assert(bs.drop_last() =~= backends@.take(i as int));
        let kind = classify_template_backend(&backends[i], &mut reasons);
        if kind == BackendKind::Django {
            has_django = true;
            assert(is_django_backend(bs[i as int]));
        }
        assert(has_django == has_django_backend(bs)) by {
            if has_django_backend(bs) {
                let j = choose|j: int| 0 <= j < bs.len() && is_django_backend(#[trigger] bs[j]);
                if j < i {
                    assert(backends@.take(i as int)[j] == bs[j]);
                }
            }
            if has_django_backend(backends@.take(i as int)) {
                let j = choose|j: int| 0 <= j < i && is_django_backend(#[trigger] backends@.take(i as int)[j]);
                assert(bs[j] == backends@.take(i as int)[j]);
            }
        }
        i = i + 1;
    }
    assert(backends@.take(i as int) =~= backends@);
    let mut state = AssemblyState { loadable: Vec::new(), builtins: Vec::new(), reasons };
    assert(loadable_view(state.loadable@) =~= Map::<Seq<char>, LibView>::empty());
    assert(lib_views(state.builtins@) =~= Seq::<LibView>::empty());
    if has_django {
        append_default_loadable_libraries(&mut state);
        append_app_template_tag_libraries(&mut state, apps);
        append_default_builtins(&mut state);
    }
    let ghost after_django = state@;
    let mut k: usize = 0;
    while k < backends.len()
        invariant
            k <= backends.len(),
            state.wf(),
            state@ == options_step(after_django, option_backends(backends@.take(k as int))),
        decreases backends.len() - k,
    {
        assert(backends@.take(k + 1).drop_last() =~= backends@.take(k as int));
        let backend = &backends[k];
        let counts = match &backend.backend {
            None => true,
            Some(name) => str_eq(name.as_str(), "django.template.backends.django.DjangoTemplates"),
        };
        if counts {
            let ghost obs = option_backends(backends@.take(k as int));
            assert(option_backends(backends@.take(k + 1)).drop_last() =~= obs);
            append_option_libraries(&mut state, &backend.option_libraries);
            append_option_builtins(&mut state, &backend.option_builtins);
        }
        k = k + 1;
    }
    assert(backends@.take(k as int) =~= backends@);
    let ghost fin = state@;
    let AssemblyState { loadable, builtins, reasons } = state;
    let ghost n = loadable@.len() as int;
    let mut libraries = loadable;
    let mut extra = builtins;
    let ghost bv = extra@;
    libraries.append(&mut extra);
    assert(libraries@.take(n) =~= loadable@);
    assert(libraries@.skip(n) =~= bv);
    assert(lists_assembly(libraries@, fin));
    known_or_partial(libraries, reasons)
}

/// The template libraries of a project, assembled from its template backends
/// and the libraries found in its installed apps: unknown when the backends
/// are; otherwise Django's defaults and the apps' libraries (when a Django
/// backend is there) and each counting backend's options, partial when any
/// reason came up.
pub fn assemble_template_libraries(
    template_backends: &Fact<Vec<TemplateBackendFact>>,
    apps: &Fact<Vec<DiscoveredTemplateTags>>,
) -> (r: Fact<Vec<TemplateLibraryFact>>)
    ensures
        match *template_backends {
            Fact::Known { value } => assembly_fact(assembled(value@, Seq::empty(), *apps), r),
            Fact::Partial { value, reasons } => assembly_fact(assembled(value@, reason_views(reasons@), *apps), r),
            Fact::Unknown { reasons } => r matches Fact::Unknown { reasons: rr } && rr@ == reasons@,
            Fact::Ambiguous { reasons, .. } => r matches Fact::Unknown { reasons: rr } && rr@ == reasons@,
        },
{
    match template_backends {
        Fact::Known { value } => {
            let empty: Vec<Reason> = Vec::new();
            assert(reason_views(empty@) =~= Seq::<ReasonView>::empty());
            assemble_template_backend_libraries(value, empty, apps)
        },
        Fact::Partial { value, reasons } => assemble_template_backend_libraries(
            value,
            crate::facts::duplicate_reasons(reasons),
            apps,
        ),
        Fact::Unknown { reasons } => Fact::Unknown { reasons: crate::facts::duplicate_reasons(reasons) },
        Fact::Ambiguous { reasons, .. } => Fact::Unknown { reasons: crate::facts::duplicate_reasons(reasons) },
    }
}

// ---- discovery in an app's templatetags package ----

/// The module path, relative to the `templatetags` directory, that the file
/// `file` stands for: its directory for an `__init__.py` (none for the
/// package's own), else the file without its extension; none outside the
/// directory.
pub open spec fn tag_module_path(templatetags_dir: Seq<char>, file: Seq<char>) -> Option<Seq<char>> {
    match stripped_prefix(file, templatetags_dir) {
        None => None,
        Some(relative) => if file_name_of(relative) == Some("__init__.py"@) {
            match parent_of(relative) {
                None => None,
                Some(parent) => if parent.len() == 0 {
                    None
                } else {
                    Some(parent)
                },
            }
        } else {
            Some(with_extension(relative, ""@))
        },
    }
}

/// The components of a relative module path joined with dots.
pub open spec fn dotted_path(path: Seq<char>) -> Seq<char> {
    join_with(components_of(path), '.')
}

/// The reason for a template tag module whose path is no valid load name.
pub open spec fn invalid_load_name_reason(file: Seq<char>, dotted: Seq<char>) -> ReasonView {
    ReasonView {
        field: Field::TemplateLibraries,
        source: SourceView::File(file),
        message: "template tag module has an invalid load name: "@ + name_error_message(dotted),
    }
}

/// The load name of the template tag module `file` under `templatetags_dir`:
/// its module path with dots. A path that is no valid load name adds a reason.
pub fn template_tag_load_name(templatetags_dir: &str, file: &str, reasons: &mut Vec<Reason>) -> (r: Option<
    LibraryName,
>)
    ensures
        match tag_module_path(templatetags_dir@, file@) {
            None => r is None && final(reasons)@ == old(reasons)@,
            Some(p) => if is_dotted_name(dotted_path(p)) {
                r matches Some(l) && l@ == dotted_path(p) && final(reasons)@ == old(reasons)@
            } else {
                r is None && reason_views(final(reasons)@) == reason_views(old(reasons)@).push(
                    invalid_load_name_reason(file@, dotted_path(p)),
                )
            },
        },
{
    let relative = match path_strip_prefix(file, templatetags_dir) {
        Some(rel) => rel,
        None => return None,
    };
    proof {
        reveal_strlit("__init__.py");
    }
    let is_init = match path_file_name(relative.as_str()) {
        Some(name) => str_eq(name.as_str(), "__init__.py"),
        None => false,
    };
    let tag_path = if is_init {
        match path_parent(relative.as_str()) {
            Some(parent) => {
                if parent.unicode_len() == 0 {
                    return None;
                }
                parent
            },
            None => return None,
        }
    } else {
        proof {
            reveal_strlit("");
        }
        path_with_extension(relative.as_str(), "")
    };
    let parts = path_components(tag_path.as_str());
    proof {
        reveal_strlit(".");
    }
    let dotted = join_strings(&parts, ".");
    match LibraryName::parse(dotted.as_str()) {
        Ok(load_name) => Some(load_name),
        Err(error) => {
            let message = concat("template tag module has an invalid load name: ", error.message().as_str());
            let ghost before = reason_views(reasons@);
            reasons.push(Reason::new(Field::TemplateLibraries, ReasonSource::File(file.to_string()), message));
            assert(reason_views(reasons@) =~= before.push(invalid_load_name_reason(file@, dotted@)));
            None
        },
    }
}

/// The alias binds the name `register`.
pub open spec fn binds_register(a: Alias) -> bool {
    match a.asname {
        Some(n) => n@ == "register"@,
        None => a.name@ == "register"@,
    }
}

pub open spec fn imports_register(names: Seq<Alias>) -> bool {
    exists|i: int| 0 <= i < names.len() && binds_register(#[trigger] names[i])
}

/// The statement gives its module a top-level `register`: by import, by a
/// function or class of that name, or by assignment.
pub open spec fn defines_register(stmt: &Stmt) -> bool {
    match stmt {
        Stmt::Import { names } => imports_register(names@),
        Stmt::ImportFrom { names, .. } => imports_register(names@),
        Stmt::FunctionDef { name } => name@ == "register"@,
        Stmt::ClassDef { name, .. } => name@ == "register"@,
        _ => assigned_value_spec(stmt, "register"@) is Some,
    }
}

fn alias_binds_register(a: &Alias) -> (r: bool)
    ensures
        r == binds_register(*a),
{
    match &a.asname {
        Some(n) => str_eq(n.as_str(), "register"),
        None => str_eq(a.name.as_str(), "register"),
    }
}

fn imported_as_register(names: &Vec<Alias>) -> (r: bool)
    ensures
        r == imports_register(names@),
{
    let mut i: usize = 0;
    while i < names.len()
        invariant
            i <= names.len(),
            forall|j: int| 0 <= j < i ==> !binds_register(#[trigger] names@[j]),
        decreases names.len() - i,
    {
        if alias_binds_register(&names[i]) {
            return true;
        }
        i = i + 1;
    }
    false
}

/// Whether the statement gives its module a top-level `register`.
pub fn stmt_defines_template_register(stmt: &Stmt) -> (r: bool)
    ensures
        r == defines_register(stmt),
{
    match stmt {
        Stmt::Import { names } => imported_as_register(names),
        Stmt::ImportFrom { names, .. } => imported_as_register(names),
        Stmt::FunctionDef { name } => str_eq(name.as_str(), "register"),
        Stmt::ClassDef { name, .. } => str_eq(name.as_str(), "register"),
        _ => assigned_value(stmt, "register").is_some(),
    }
}

/// Whether a module body defines a top-level `register`, as Django's library
/// discovery asks.
pub fn defines_template_register(body: &Vec<Stmt>) -> (r: bool)
    ensures
        r == exists|i: int| 0 <= i < body@.len() && defines_register(&#[trigger] body@[i]),
{
    let mut i: usize = 0;
    while i < body.len()
        invariant
            i <= body.len(),
            forall|j: int| 0 <= j < i ==> !defines_register(&#[trigger] body@[j]),
        decreases body.len() - i,
    {
        if stmt_defines_template_register(&body[i]) {
            return true;
        }
        i = i + 1;
    }
    false
}

/// The module `{app}.templatetags.{load_name}`.
pub open spec fn tag_module_name(app: Seq<char>, load_name: Seq<char>) -> Seq<char> {
    app + ".templatetags."@ + load_name
}

/// The library that the template tag module `file` of `app` provides: none
/// without a load name, when the module could not be read or parsed (its
/// reason, `module_body`'s error, is added), when it has no top-level
/// `register`, or when its module name is not valid.
pub fn app_template_tag_library(
    app: &PyModuleName,
    templatetags_dir: &str,
    file: &str,
    module_body: Result<&Vec<Stmt>, Reason>,
    reasons: &mut Vec<Reason>,
) -> (r: Option<TemplateLibraryFact>)
    ensures
        match tag_module_path(templatetags_dir@, file@) {
            Some(p) if is_dotted_name(dotted_path(p)) => {
                &&& reason_views(final(reasons)@) == match module_body {
                    Ok(_) => reason_views(old(reasons)@),
                    Err(e) => reason_views(old(reasons)@).push(e@),
                }
                &&& match r {
                    Some(f) => module_body matches Ok(body) && (exists|i: int|
                        0 <= i < body@.len() && defines_register(&#[trigger] body@[i]))
                        && is_dotted_name(tag_module_name(app@, dotted_path(p))) && f.load_name@
                        == dotted_path(p) && f.module@ == tag_module_name(app@, dotted_path(p))
                        && f.source == (TemplateLibrarySource::AppTemplateTags { app: *app }),
                    None => !(module_body matches Ok(body) && (exists|i: int|
                        0 <= i < body@.len() && defines_register(&#[trigger] body@[i]))
                        && is_dotted_name(tag_module_name(app@, dotted_path(p)))),
                }
            },
            Some(p) => r is None && reason_views(final(reasons)@) == reason_views(old(reasons)@).push(
                invalid_load_name_reason(file@, dotted_path(p)),
            ),
            None => r is None && final(reasons)@ == old(reasons)@,
        },
{
    let load_name = match template_tag_load_name(templatetags_dir, file, reasons) {
        Some(l) => l,
        None => return None,
    };
    let defines = match module_body {
        Ok(body) => defines_template_register(body),
        Err(reason) => {
            let ghost before = reason_views(reasons@);
            let ghost rv = reason@;
            reasons.push(reason);
            assert(reason_views(reasons@) =~= before.push(rv));
            false
        },
    };
    if !defines {
        return None;
    }
    let prefix = concat(app.as_str(), ".templatetags.");
    let name = concat(prefix.as_str(), load_name.as_str());
    match PyModuleName::parse(name.as_str()) {
        Ok(module) => Some(
            TemplateLibraryFact {
                load_name,
                module,
                source: TemplateLibrarySource::AppTemplateTags { app: app.duplicate() },
            },
        ),
        Err(_) => None,
    }
}

} // verus!
