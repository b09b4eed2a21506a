//! The template library snapshot of a project: its active loadable libraries,
//! its builtin modules, and the tags and filters that they offer, sorted by
//! load name, module, kind and name.
use vstd::prelude::*;

use crate::facts::{reason_views, Fact, Reason, TemplateLibraryFact, TemplateLibrarySource, TemplateSymbolFact};
use crate::keyed::{find_key, keyed_map, keys, lemma_keyed_at, put_keyed, Keyed};
use crate::names::{LibraryName, PyModuleName};
use crate::registry::{module_views, TemplateSymbolKind};
use crate::template_dirs::{extend_unique_reasons, with_unique};
use crate::text::{compare_str, contains_str, str_eq, str_lt, strictly_sorted, views};

verus! {

broadcast use vstd::seq::Seq::group_seq_extra;

/// Whether a library of this source is a builtin.
pub open spec fn is_builtin_source(source: TemplateLibrarySource) -> bool {
    source is DjangoDefaultBuiltin || source is SettingsBuiltins
}

pub fn is_builtin_library(source: &TemplateLibrarySource) -> (r: bool)
    ensures
        r == is_builtin_source(*source),
{
    match source {
        TemplateLibrarySource::DjangoDefaultBuiltin | TemplateLibrarySource::SettingsBuiltins => true,
        TemplateLibrarySource::AppTemplateTags { .. }
        | TemplateLibrarySource::SettingsLibraries
        | TemplateLibrarySource::DjangoDefaultLibrary
        | TemplateLibrarySource::Discovered
        | TemplateLibrarySource::UserOverride => false,
    }
}

/// The kind of a registration found in a template library module.
#[derive(Clone, Copy, Debug, PartialEq, Eq, Structural)]
pub enum SymbolKind {
    Tag,
    Filter,
}

pub fn template_symbol_kind(kind: SymbolKind) -> (r: TemplateSymbolKind)
    ensures
        kind is Tag ==> r is Tag,
        kind is Filter ==> r is Filter,
{
    match kind {
        SymbolKind::Tag => TemplateSymbolKind::Tag,
        SymbolKind::Filter => TemplateSymbolKind::Filter,
    }
}

/// The order of kinds in a snapshot: tags, filters, then no kind.
pub open spec fn kind_rank_of(kind: Option<TemplateSymbolKind>) -> u8 {
    match kind {
        Some(TemplateSymbolKind::Tag) => 0,
        Some(TemplateSymbolKind::Filter) => 1,
        None => 2,
    }
}

pub fn symbol_snapshot_kind_rank(kind: Option<TemplateSymbolKind>) -> (r: u8)
    ensures
        r == kind_rank_of(kind),
{
    match kind {
        Some(TemplateSymbolKind::Tag) => 0,
        Some(TemplateSymbolKind::Filter) => 1,
        None => 2,
    }
}

/// An active loadable library: its load name and module.
#[derive(Debug)]
pub struct ActiveLibrary {
    pub load_name: LibraryName,
    pub module: PyModuleName,
}

impl Keyed for ActiveLibrary {
    /// Active libraries are found by load name.
    open spec fn key(&self) -> Seq<char> {
        self.load_name@
    }

    fn key_str(&self) -> (r: &str) {
        self.load_name.as_str()
    }
}

/// The module of each active loadable library by load name, after the
/// libraries `libs`: a later library of a name replaces an earlier one.
pub open spec fn active_map(libs: Seq<TemplateLibraryFact>) -> Map<Seq<char>, Seq<char>>
    decreases libs.len(),
{
    if libs.len() == 0 {
        Map::empty()
    } else if is_builtin_source(libs.last().source) {
        active_map(libs.drop_last())
    } else {
        active_map(libs.drop_last()).insert(libs.last().load_name@, libs.last().module@)
    }
}

/// The active entries by load name, each to its module.
pub open spec fn active_view(v: Seq<ActiveLibrary>) -> Map<Seq<char>, Seq<char>> {
    keyed_map(v).map_values(|a: ActiveLibrary| a.module@)
}

/// The active loadable libraries (those not builtin), sorted by load name.
pub fn active_loadable_modules(libraries: &Vec<TemplateLibraryFact>) -> (r: Vec<ActiveLibrary>)
    ensures
        strictly_sorted(keys(r@)),
        active_view(r@) == active_map(libraries@),
{
    let mut active: Vec<ActiveLibrary> = Vec::new();
    assert(active_view(active@) =~= Map::<Seq<char>, Seq<char>>::empty());
    let mut i: usize = 0;
    while i < libraries.len()
        invariant
            i <= libraries.len(),
            strictly_sorted(keys(active@)),
            active_view(active@) == active_map(libraries@.take(i as int)),
        decreases libraries.len() - i,
    {
        assert(libraries@.take(i + 1).drop_last() =~= libraries@.take(i as int));
        let library = &libraries[i];
        if !is_builtin_library(&library.source) {
            let ghost before = active@;
            put_keyed(
                &mut active,
                ActiveLibrary { load_name: library.load_name.duplicate(), module: library.module.duplicate() },
            );
            assert(active_view(active@) =~= active_view(before).insert(library.load_name@, library.module@));
        }
        i = i + 1;
    }
    assert(libraries@.take(i as int) =~= libraries@);
    active
}

/// The modules of the builtin libraries.
pub open spec fn builtin_module_set(libs: Seq<TemplateLibraryFact>) -> Set<Seq<char>> {
    Set::new(|m: Seq<char>| exists|i: int| 0 <= i < libs.len() && is_builtin_source(libs[i].source) && libs[i].module@ == m)
}

/// The modules of the builtin libraries, in order, each once.
pub open spec fn builtin_module_list(libs: Seq<TemplateLibraryFact>) -> Seq<Seq<char>>
    decreases libs.len(),
{
    if libs.len() == 0 {
        Seq::empty()
    } else {
        let rest = builtin_module_list(libs.drop_last());
        if is_builtin_source(libs.last().source) && !rest.contains(libs.last().module@) {
            rest.push(libs.last().module@)
        } else {
            rest
        }
    }
}

/// The names of the builtin modules, in order, each once.
pub fn builtin_module_names(libraries: &Vec<TemplateLibraryFact>) -> (r: Vec<String>)
    ensures
        views(r@) == builtin_module_list(libraries@),
{
    let mut modules: Vec<String> = Vec::new();
    let mut i: usize = 0;
    while i < libraries.len()
        invariant
            i <= libraries.len(),
            views(modules@) == builtin_module_list(libraries@.take(i as int)),
        decreases libraries.len() - i,
    {
        assert(libraries@.take(i + 1).drop_last() =~= libraries@.take(i as int));
        let library = &libraries[i];
        if is_builtin_library(&library.source) && !contains_str(&modules, library.module.as_str()) {
            let ghost before = views(modules@);
            modules.push(library.module.as_str().to_string());
            assert(views(modules@) =~= before.push(library.module@));
        }
        i = i + 1;
    }
    assert(libraries@.take(i as int) =~= libraries@);
    modules
}

proof fn lemma_builtin_module_list(libs: Seq<TemplateLibraryFact>)
    ensures
        builtin_module_list(libs).to_set() == builtin_module_set(libs),
    decreases libs.len(),
{
    if libs.len() == 0 {
        assert(builtin_module_set(libs) =~= Set::empty());
        assert(builtin_module_list(libs).to_set() =~= Set::empty());
    } else {
        let init = libs.drop_last();
        lemma_builtin_module_list(init);
        let rest = builtin_module_list(init);
        rest.lemma_push_to_set_commute(libs.last().module@);
        assert forall|m: Seq<char>| builtin_module_set(libs).contains(m) == (builtin_module_set(init).contains(m) || (
        is_builtin_source(libs.last().source) && libs.last().module@ == m)) by {
            if builtin_module_set(libs).contains(m) {
                let i = choose|i: int| 0 <= i < libs.len() && is_builtin_source(libs[i].source) && libs[i].module@ == m;
                if i < libs.len() - 1 {
                    assert(init[i] == libs[i]);
                }
            }
            if builtin_module_set(init).contains(m) {
                let i = choose|i: int| 0 <= i < init.len() && is_builtin_source(init[i].source) && init[i].module@ == m;
                assert(init[i] == libs[i]);
            }
        }
        if is_builtin_source(libs.last().source) && rest.contains(libs.last().module@) {
            assert(builtin_module_list(libs).to_set() =~= builtin_module_set(libs));
        } else {
            assert(builtin_module_list(libs).to_set() =~= builtin_module_set(libs));
        }
    }
}

/// The modules of the builtin libraries.
pub fn builtin_modules(libraries: &Vec<TemplateLibraryFact>) -> (r: Vec<String>)
    ensures
        views(r@).to_set() == builtin_module_set(libraries@),
{
    proof {
        lemma_builtin_module_list(libraries@);
    }
    builtin_module_names(libraries)
}

/// A tag or filter as a snapshot shows it.
#[derive(Debug)]
pub struct TemplateSymbolSnapshot {
    pub kind: Option<TemplateSymbolKind>,
    pub name: String,
    pub load_name: Option<String>,
    pub library_module: String,
    pub module: String,
    pub doc: Option<String>,
}

/// The content of a symbol snapshot.
pub struct SnapshotView {
    pub kind: Option<TemplateSymbolKind>,
    pub name: Seq<char>,
    pub load_name: Option<Seq<char>>,
    pub library_module: Seq<char>,
    pub module: Seq<char>,
    pub doc: Option<Seq<char>>,
}

impl View for TemplateSymbolSnapshot {
    type V = SnapshotView;

    open spec fn view(&self) -> SnapshotView {
        SnapshotView {
            kind: self.kind,
            name: self.name@,
            load_name: crate::paths::opt_view(self.load_name),
            library_module: self.library_module@,
            module: self.module@,
            doc: crate::paths::opt_view(self.doc),
        }
    }
}

pub open spec fn snapshot_views(v: Seq<TemplateSymbolSnapshot>) -> Seq<SnapshotView> {
    v.map_values(|s: TemplateSymbolSnapshot| s@)
}

/// The snapshot of a symbol: without a load name when its module is a builtin;
/// with its library's load name when that library is active with its module;
/// none otherwise.
pub open spec fn snapshot_of(s: TemplateSymbolFact, active: Map<Seq<char>, Seq<char>>, builtins: Set<Seq<char>>) -> Option<
    SnapshotView,
> {
    if builtins.contains(s.module@) {
        Some(
            SnapshotView {
                kind: Some(s.kind),
                name: s.name@,
                load_name: None,
                library_module: s.module@,
                module: s.module@,
                doc: None,
            },
        )
    } else if active.contains_key(s.library@) && active[s.library@] == s.module@ {
        Some(
            SnapshotView {
                kind: Some(s.kind),
                name: s.name@,
                load_name: Some(s.library@),
                library_module: s.module@,
                module: s.module@,
                doc: None,
            },
        )
    } else {
        None
    }
}

/// The snapshots of the symbols that have one, in order.
pub open spec fn snapshots_of(
    symbols: Seq<TemplateSymbolFact>,
    active: Map<Seq<char>, Seq<char>>,
    builtins: Set<Seq<char>>,
) -> Seq<SnapshotView>
    decreases symbols.len(),
{
    if symbols.len() == 0 {
        Seq::empty()
    } else {
        let rest = snapshots_of(symbols.drop_last(), active, builtins);
        match snapshot_of(symbols.last(), active, builtins) {
            Some(v) => rest.push(v),
            None => rest,
        }
    }
}

/// An optional string before another: none first, then by string order.
pub open spec fn opt_str_lt(a: Option<Seq<char>>, b: Option<Seq<char>>) -> bool {
    match (a, b) {
        (None, Some(_)) => true,
        (Some(x), Some(y)) => str_lt(x, y),
        _ => false,
    }
}

/// The order of snapshots: by load name, library module, kind, then name.
pub open spec fn snapshot_lt(a: SnapshotView, b: SnapshotView) -> bool {
    ||| opt_str_lt(a.load_name, b.load_name)
    ||| (a.load_name == b.load_name && str_lt(a.library_module, b.library_module))
    ||| (a.load_name == b.load_name && a.library_module == b.library_module && kind_rank_of(a.kind) < kind_rank_of(
        b.kind,
    ))
    ||| (a.load_name == b.load_name && a.library_module == b.library_module && kind_rank_of(a.kind) == kind_rank_of(
        b.kind,
    ) && str_lt(a.name, b.name))
}

/// Where `x` goes into `s`: after the last element that does not come after it.
pub open spec fn insertion_point(s: Seq<SnapshotView>, x: SnapshotView) -> int
    decreases s.len(),
{
    if s.len() == 0 {
        0
    } else if snapshot_lt(x, s.last()) {
        insertion_point(s.drop_last(), x)
    } else {
        s.len() as int
    }
}

/// The snapshots sorted by [`snapshot_lt`], equal ones in their first order.
pub open spec fn stable_sorted(s: Seq<SnapshotView>) -> Seq<SnapshotView>
    decreases s.len(),
{
    if s.len() == 0 {
        Seq::empty()
    } else {
        let r = stable_sorted(s.drop_last());
        r.insert(insertion_point(r, s.last()), s.last())
    }
}

fn opt_str_lt_exec(a: &Option<String>, b: &Option<String>) -> (r: bool)
    ensures
        r == opt_str_lt(crate::paths::opt_view(*a), crate::paths::opt_view(*b)),
{
    match (a, b) {
        (None, Some(_)) => true,
        (Some(x), Some(y)) => compare_str(x.as_str(), y.as_str()) < 0,
        _ => false,
    }
}

fn opt_str_eq(a: &Option<String>, b: &Option<String>) -> (r: bool)
    ensures
        r == (crate::paths::opt_view(*a) == crate::paths::opt_view(*b)),
{
    match (a, b) {
        (None, None) => true,
        (Some(x), Some(y)) => str_eq(x.as_str(), y.as_str()),
        _ => false,
    }
}

fn snapshot_lt_exec(a: &TemplateSymbolSnapshot, b: &TemplateSymbolSnapshot) -> (r: bool)
    ensures
        r == snapshot_lt(a@, b@),
{
    if opt_str_lt_exec(&a.load_name, &b.load_name) {
        return true;
    }
    if !opt_str_eq(&a.load_name, &b.load_name) {
        return false;
    }
    let c = compare_str(a.library_module.as_str(), b.library_module.as_str());
    if c != 0 {
        return c < 0;
    }
    let ka = symbol_snapshot_kind_rank(a.kind);
    let kb = symbol_snapshot_kind_rank(b.kind);
    if ka != kb {
        return ka < kb;
    }
    compare_str(a.name.as_str(), b.name.as_str()) < 0
}

/// The snapshot of a symbol, if it has one.
fn snapshot_for(
    symbol: &TemplateSymbolFact,
    active: &Vec<ActiveLibrary>,
    builtins: &Vec<String>,
) -> (r: Option<TemplateSymbolSnapshot>)
    requires
        strictly_sorted(keys(active@)),
    ensures
        match r {
            Some(s) => snapshot_of(*symbol, active_view(active@), views(builtins@).to_set()) == Some(s@),
            None => snapshot_of(*symbol, active_view(active@), views(builtins@).to_set()) is None,
        },
{
    let load_name = if contains_str(builtins, symbol.module.as_str()) {
        None
    } else {
        match find_key(active, symbol.library.as_str()) {
            Some(i) => {
                proof {
                    lemma_keyed_at(active@, i as int);
                }
                if str_eq(active[i].module.as_str(), symbol.module.as_str()) {
                    Some(symbol.library.as_str().to_string())
                } else {
                    return None;
                }
            },
            None => {
                return None;
            },
        }
    };
    let module = symbol.module.as_str().to_string();
    Some(
        TemplateSymbolSnapshot {
            kind: Some(symbol.kind),
            name: symbol.name.as_str().to_string(),
            load_name,
            library_module: module.clone(),
            module,
            doc: None,
        },
    )
}

/// The snapshots of the symbols that belong to an active loadable library or a
/// builtin module, sorted by load name (builtins first), library module, kind
/// and name; equal ones keep their order.
pub fn symbol_snapshots(
    symbols: &Vec<TemplateSymbolFact>,
    active: &Vec<ActiveLibrary>,
    builtins: &Vec<String>,
) -> (r: Vec<TemplateSymbolSnapshot>)
    requires
        strictly_sorted(keys(active@)),
    ensures
        snapshot_views(r@) == stable_sorted(snapshots_of(symbols@, active_view(active@), views(builtins@).to_set())),
{
    let ghost am = active_view(active@);
    let ghost bs = views(builtins@).to_set();
    let mut sorted: Vec<TemplateSymbolSnapshot> = Vec::new();
    let mut i: usize = 0;
    while i < symbols.len()
        invariant
            i <= symbols.len(),
            strictly_sorted(keys(active@)),
            am == active_view(active@),
            bs == views(builtins@).to_set(),
            snapshot_views(sorted@) == stable_sorted(snapshots_of(symbols@.take(i as int), am, bs)),
        decreases symbols.len() - i,
    {
        assert(symbols@.take(i + 1).drop_last() =~= symbols@.take(i as int));
        match snapshot_for(&symbols[i], active, builtins) {
            Some(snap) => {
                let ghost pre = snapshots_of(symbols@.take(i as int), am, bs);
                let ghost sv = snapshot_views(sorted@);
                assert(pre.push(snap@).drop_last() =~= pre);
                let mut p = sorted.len();
                while p > 0 && snapshot_lt_exec(&snap, &sorted[p - 1])
                    invariant
                        p <= sorted.len(),
                        sv == snapshot_views(sorted@),
                        insertion_point(sv, snap@) == insertion_point(sv.take(p as int), snap@),
                    decreases p,
                {
                    assert(sv.take(p as int).drop_last() =~= sv.take(p - 1));
                    p = p - 1;
                }
                assert(insertion_point(sv.take(p as int), snap@) == p) by {
                    if p > 0 {
                        assert(sv.take(p as int).last() == sv[p - 1]);
                    }
                }
                let ghost v = snap@;
                sorted.insert(p, snap);
                assert(snapshot_views(sorted@) =~= sv.insert(p as int, v));
            },
            None => {},
        }
        i = i + 1;
    }
    assert(symbols@.take(i as int) =~= symbols@);
    sorted
}

/// The snapshot of a project's template libraries: the active loadable
/// libraries (load name and module, by load name), the builtin modules, and
/// the symbols' snapshots.
#[derive(Debug)]
pub struct TemplateLibrarySnapshot {
    pub symbols: Vec<TemplateSymbolSnapshot>,
    pub libraries: Vec<(String, String)>,
    pub builtins: Vec<String>,
}

/// The load names of the pairs.
pub open spec fn pair_firsts(v: Seq<(String, String)>) -> Seq<Seq<char>> {
    v.map_values(|p: (String, String)| p.0@)
}

/// The pairs as a map from first to second.
pub open spec fn pairs_map(v: Seq<(String, String)>) -> Map<Seq<char>, Seq<char>> {
    Map::new(
        |k: Seq<char>| pair_firsts(v).contains(k),
        |k: Seq<char>| v[choose|i: int| 0 <= i < v.len() && (#[trigger] v[i]).0@ == k].1@,
    )
}

/// What a snapshot holds, given the libraries `libs` and the snapshots of the
/// symbols `snaps`.
pub open spec fn snapshot_holds(r: TemplateLibrarySnapshot, libs: Seq<TemplateLibraryFact>, snaps: Seq<SnapshotView>) -> bool {
    &&& strictly_sorted(pair_firsts(r.libraries@))
    &&& pairs_map(r.libraries@) == active_map(libs)
    &&& views(r.builtins@) == builtin_module_list(libs)
    &&& snapshot_views(r.symbols@) == snaps
}

/// The symbol snapshots that the symbol fact gives: none when unknown.
pub open spec fn fact_snapshots(libs: Seq<TemplateLibraryFact>, symbols: Fact<Vec<TemplateSymbolFact>>) -> Seq<SnapshotView> {
    match symbols {
        Fact::Known { value } => stable_sorted(snapshots_of(value@, active_map(libs), builtin_module_set(libs))),
        Fact::Partial { value, .. } => stable_sorted(snapshots_of(value@, active_map(libs), builtin_module_set(libs))),
        _ => Seq::empty(),
    }
}

/// The reasons of the snapshot: the libraries' then, each once, the symbols'.
pub open spec fn snapshot_reasons(lib_reasons: Seq<crate::facts::ReasonView>, symbols: Fact<Vec<TemplateSymbolFact>>) -> Seq<
    crate::facts::ReasonView,
> {
    match symbols {
        Fact::Known { .. } => lib_reasons,
        Fact::Partial { reasons, .. } => with_unique(lib_reasons, reason_views(reasons@)),
        Fact::Unknown { reasons } => with_unique(lib_reasons, reason_views(reasons@)),
        Fact::Ambiguous { reasons, .. } => with_unique(lib_reasons, reason_views(reasons@)),
    }
}

/// The snapshot fact: known without reasons, else partial.
pub open spec fn snapshot_fact(
    r: Fact<TemplateLibrarySnapshot>,
    libs: Seq<TemplateLibraryFact>,
    lib_reasons: Seq<crate::facts::ReasonView>,
    symbols: Fact<Vec<TemplateSymbolFact>>,
) -> bool {
    let rs = snapshot_reasons(lib_reasons, symbols);
    match r {
        Fact::Known { value } => rs.len() == 0 && snapshot_holds(value, libs, fact_snapshots(libs, symbols)),
        Fact::Partial { value, reasons } => rs.len() > 0 && reason_views(reasons@) == rs && snapshot_holds(
            value,
            libs,
            fact_snapshots(libs, symbols),
        ),
        _ => false,
    }
}

fn active_pairs(active: &Vec<ActiveLibrary>) -> (r: Vec<(String, String)>)
    requires
        strictly_sorted(keys(active@)),
    ensures
        strictly_sorted(pair_firsts(r@)),
        pairs_map(r@) == active_view(active@),
{
    let mut r: Vec<(String, String)> = Vec::new();
    let mut i: usize = 0;
    while i < active.len()
        invariant
            i <= active.len(),
            r@.len() == i,
            forall|j: int| 0 <= j < i ==> (#[trigger] r@[j]).0@ == active@[j].load_name@ && r@[j].1@
                == active@[j].module@,
        decreases active.len() - i,
    {
        r.push((active[i].load_name.as_str().to_string(), active[i].module.as_str().to_string()));
        i = i + 1;
    }
    assert(pair_firsts(r@) =~= keys(active@));
    assert(pairs_map(r@) =~= active_view(active@)) by {
        assert forall|k: Seq<char>| pairs_map(r@).dom().contains(k) implies pairs_map(r@)[k] == active_view(active@)[k] by {
            let j = choose|j: int| 0 <= j < r@.len() && (#[trigger] r@[j]).0@ == k;
            let a = choose|a: int| 0 <= a < pair_firsts(r@).len() && pair_firsts(r@)[a] == k;
            assert(keys(active@)[j] == k);
            lemma_keyed_at(active@, j);
            crate::sorted::lemma_sorted_no_dups(keys(active@));
        }
    }
    r
}

/// The snapshot of a project's template libraries and symbols: unknown when
/// the libraries are; else the active libraries, the builtin modules and the
/// symbol snapshots (none when the symbols are not known), with the reasons of
/// both.
pub fn assemble_template_library_snapshot(
    template_libraries: &Fact<Vec<TemplateLibraryFact>>,
    template_symbols: &Fact<Vec<TemplateSymbolFact>>,
) -> (r: Fact<TemplateLibrarySnapshot>)
    ensures
        match *template_libraries {
            Fact::Known { value } => snapshot_fact(r, value@, Seq::empty(), *template_symbols),
            Fact::Partial { value, reasons } => snapshot_fact(r, value@, reason_views(reasons@), *template_symbols),
            Fact::Unknown { reasons } => r matches Fact::Unknown { reasons: rr } && rr@ == reasons@,
            Fact::Ambiguous { reasons, .. } => r matches Fact::Unknown { reasons: rr } && rr@ == reasons@,
        },
{
    let (libraries, mut reasons) = match template_libraries {
        Fact::Known { value } => (value, Vec::new()),
        Fact::Partial { value, reasons } => (value, crate::facts::duplicate_reasons(reasons)),
        Fact::Unknown { reasons } => return Fact::Unknown { reasons: crate::facts::duplicate_reasons(reasons) },
        Fact::Ambiguous { reasons, .. } => return Fact::Unknown { reasons: crate::facts::duplicate_reasons(reasons) },
    };
    let ghost lib_reasons = reason_views(reasons@);
    assert(template_libraries matches Fact::Known { .. } ==> lib_reasons =~= Seq::<crate::facts::ReasonView>::empty());
    let active = active_loadable_modules(libraries);
    let builtin_set = builtin_modules(libraries);
    let builtin_names = builtin_module_names(libraries);
    let pairs = active_pairs(&active);
    let symbols = match template_symbols {
        Fact::Known { value } => symbol_snapshots(value, &active, &builtin_set),
        Fact::Partial { value, reasons: symbol_reasons } => {
            let s = symbol_snapshots(value, &active, &builtin_set);
            extend_unique_reasons(&mut reasons, symbol_reasons);
            s
        },
        Fact::Unknown { reasons: symbol_reasons } => {
            extend_unique_reasons(&mut reasons, symbol_reasons);
            Vec::new()
        },
        Fact::Ambiguous { reasons: symbol_reasons, .. } => {
            extend_unique_reasons(&mut reasons, symbol_reasons);
            Vec::new()
        },
    };
    assert(snapshot_views(symbols@) =~= fact_snapshots(libraries@, *template_symbols));
    let snapshot = TemplateLibrarySnapshot { symbols, libraries: pairs, builtins: builtin_names };
    if reasons.len() == 0 {
        Fact::Known { value: snapshot }
    } else {
        Fact::Partial { value: snapshot, reasons }
    }
}

} // verus!
