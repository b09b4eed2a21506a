//! Facts about a Django project, each with how sure the extraction is of it.
use vstd::prelude::*;

use crate::names::{LibraryName, PyModuleName, TemplateSymbolName};
use crate::registry::TemplateSymbolKind;

verus! {

/// How much is known of a fact.
#[derive(Clone, Copy, Debug, PartialEq, Eq, Structural)]
pub enum Confidence {
    Known,
    Partial,
    Unknown,
    Ambiguous,
}

/// Which setting or project aspect a reason is about.
#[derive(Clone, Copy, Debug, PartialEq, Eq, Structural)]
pub enum Field {
    ResolverModuleSearchPaths,
    ResolverModule,
    ResolverRelativeImport,
    DjangoEnvironmentDiscovery,
    SettingsInstalledApps,
    SettingsTemplates,
    SettingsTemplateDirs,
    SettingsTemplateOptions,
    AppsInstalled,
    AppsConfig,
    AppsPath,
    TemplateDirs,
    TemplateLibraries,
    TemplateBuiltins,
    TemplateSymbols,
}

/// Where a reason comes from.
#[derive(Clone, Debug, PartialEq, Eq)]
pub enum ReasonSource {
    File(String),
    Path(String),
    Module(PyModuleName),
    DjangoEnvironmentRoot(String),
    Workspace(String),
    Unknown,
}

/// Why a fact is not fully known.
#[derive(Clone, Debug, PartialEq, Eq)]
pub struct Reason {
    pub field: Field,
    pub source: ReasonSource,
    pub message: String,
}

impl ReasonSource {
    /// A copy of the source.
    pub fn duplicate(&self) -> (r: ReasonSource)
        ensures
            r == *self,
    {
        match self {
            ReasonSource::File(p) => ReasonSource::File(p.clone()),
            ReasonSource::Path(p) => ReasonSource::Path(p.clone()),
            ReasonSource::Module(m) => ReasonSource::Module(m.duplicate()),
            ReasonSource::DjangoEnvironmentRoot(p) => ReasonSource::DjangoEnvironmentRoot(p.clone()),
            ReasonSource::Workspace(p) => ReasonSource::Workspace(p.clone()),
            ReasonSource::Unknown => ReasonSource::Unknown,
        }
    }
}

/// A copy of the reasons.
pub fn duplicate_reasons(v: &Vec<Reason>) -> (r: Vec<Reason>)
    ensures
        r@ == v@,
{
    let mut out: Vec<Reason> = Vec::new();
    let mut i: usize = 0;
    while i < v.len()
        invariant
            i <= v.len(),
            out@ == v@.take(i as int),
        decreases v.len() - i,
    {
        out.push(v[i].duplicate());
        assert(out@ =~= v@.take(i + 1));
        i = i + 1;
    }
    assert(v@.take(v.len() as int) =~= v@);
    out
}

impl Reason {
    /// A copy of the reason.
    pub fn duplicate(&self) -> (r: Reason)
        ensures
            r == *self,
    {
        Reason { field: self.field, source: self.source.duplicate(), message: self.message.clone() }
    }

    pub fn new(field: Field, source: ReasonSource, message: String) -> (r: Reason)
        ensures
            r == (Reason { field, source, message }),
    {
        Reason { field, source, message }
    }

    /// A reason found in the file at `file`.
    pub fn file(field: Field, file: &str, message: &str) -> (r: Reason)
        ensures
            r.field == field,
            r.source matches ReasonSource::File(f) && f@ == file@,
            r.message@ == message@,
    {
        Reason { field, source: ReasonSource::File(file.to_string()), message: message.to_string() }
    }

    /// A reason about the path `path`.
    pub fn path(field: Field, path: &str, message: &str) -> (r: Reason)
        ensures
            r.field == field,
            r.source matches ReasonSource::Path(p) && p@ == path@,
            r.message@ == message@,
    {
        Reason { field, source: ReasonSource::Path(path.to_string()), message: message.to_string() }
    }

    /// A reason about the module `module`.
    pub fn module(field: Field, module: PyModuleName, message: &str) -> (r: Reason)
        ensures
            r.field == field,
            r.source == ReasonSource::Module(module),
            r.message@ == message@,
    {
        Reason { field, source: ReasonSource::Module(module), message: message.to_string() }
    }
}

/// A value with how sure the extraction is of it: known, partly known (with the
/// reasons something was left out), unknown, or one of several candidates.
#[derive(Clone, Debug, PartialEq, Eq)]
pub enum Fact<T> {
    Known { value: T },
    Partial { value: T, reasons: Vec<Reason> },
    Unknown { reasons: Vec<Reason> },
    Ambiguous { candidates: Vec<T>, reasons: Vec<Reason> },
}

impl<T> Fact<T> {
    /// The confidence of the fact.
    pub open spec fn confidence_spec(&self) -> Confidence {
        match self {
            Fact::Known { .. } => Confidence::Known,
            Fact::Partial { .. } => Confidence::Partial,
            Fact::Unknown { .. } => Confidence::Unknown,
            Fact::Ambiguous { .. } => Confidence::Ambiguous,
        }
    }

    /// The value of a known or partial fact.
    pub open spec fn value_spec(&self) -> Option<T> {
        match self {
            Fact::Known { value } => Some(*value),
            Fact::Partial { value, .. } => Some(*value),
            _ => None,
        }
    }

    /// The candidates of an ambiguous fact; none for the others.
    pub open spec fn candidates_spec(&self) -> Seq<T> {
        match self {
            Fact::Ambiguous { candidates, .. } => candidates@,
            _ => Seq::empty(),
        }
    }

    /// The reasons of the fact; none for a known one.
    pub open spec fn reasons_spec(&self) -> Seq<Reason> {
        match self {
            Fact::Known { .. } => Seq::empty(),
            Fact::Partial { reasons, .. } => reasons@,
            Fact::Unknown { reasons } => reasons@,
            Fact::Ambiguous { reasons, .. } => reasons@,
        }
    }

    pub fn known(value: T) -> (r: Fact<T>)
        ensures
            r == (Fact::Known { value }),
    {
        Fact::Known { value }
    }

    pub fn partial(value: T, reasons: Vec<Reason>) -> (r: Fact<T>)
        ensures
            r == (Fact::Partial { value, reasons }),
    {
        Fact::Partial { value, reasons }
    }

    pub fn unknown(reasons: Vec<Reason>) -> (r: Fact<T>)
        ensures
            r == (Fact::<T>::Unknown { reasons }),
    {
        Fact::Unknown { reasons }
    }

    pub fn ambiguous(candidates: Vec<T>, reasons: Vec<Reason>) -> (r: Fact<T>)
        ensures
            r == (Fact::Ambiguous { candidates, reasons }),
    {
        Fact::Ambiguous { candidates, reasons }
    }

    pub fn confidence(&self) -> (r: Confidence)
        ensures
            r == self.confidence_spec(),
    {
        match self {
            Fact::Known { .. } => Confidence::Known,
            Fact::Partial { .. } => Confidence::Partial,
            Fact::Unknown { .. } => Confidence::Unknown,
            Fact::Ambiguous { .. } => Confidence::Ambiguous,
        }
    }

    pub fn value(&self) -> (r: Option<&T>)
        ensures
            match r {
                Some(v) => self.value_spec() == Some(*v),
                None => self.value_spec() is None,
            },
    {
        match self {
            Fact::Known { value } => Some(value),
            Fact::Partial { value, .. } => Some(value),
            _ => None,
        }
    }

    pub fn candidates(&self) -> (r: &[T])
        ensures
            r@ == self.candidates_spec(),
    {
        match self {
            Fact::Ambiguous { candidates, .. } => candidates.as_slice(),
            _ => &[],
        }
    }

    pub fn reasons(&self) -> (r: &[Reason])
        ensures
            r@ == self.reasons_spec(),
    {
        match self {
            Fact::Known { .. } => &[],
            Fact::Partial { reasons, .. } => reasons.as_slice(),
            Fact::Unknown { reasons } => reasons.as_slice(),
            Fact::Ambiguous { reasons, .. } => reasons.as_slice(),
        }
    }

    /// The fact with one more reason; a known fact becomes partial.
    pub fn with_reason(self, reason: Reason) -> (r: Fact<T>)
        ensures
            r.value_spec() == self.value_spec(),
            r.candidates_spec() == self.candidates_spec(),
            r.reasons_spec() == self.reasons_spec().push(reason),
            r.confidence_spec() == (if self is Known {
                Confidence::Partial
            } else {
                self.confidence_spec()
            }),
    {
        match self {
            Fact::Known { value } => Fact::Partial { value, reasons: vec![reason] },
            Fact::Partial { value, mut reasons } => {
                reasons.push(reason);
                Fact::Partial { value, reasons }
            },
            Fact::Unknown { mut reasons } => {
                reasons.push(reason);
                Fact::Unknown { reasons }
            },
            Fact::Ambiguous { candidates, mut reasons } => {
                reasons.push(reason);
                Fact::Ambiguous { candidates, reasons }
            },
        }
    }

    /// The fact with `map_value` applied to its value or to each candidate.
    pub fn map<U, F: Fn(T) -> U>(self, map_value: F) -> (r: Fact<U>)
        requires
            forall|x: T| #[trigger] map_value.requires((x,)),
        ensures
            r.confidence_spec() == self.confidence_spec(),
            r.reasons_spec() == self.reasons_spec(),
            r.candidates_spec().len() == self.candidates_spec().len(),
            forall|i: int|
                0 <= i < self.candidates_spec().len() ==> map_value.ensures(
                    (self.candidates_spec()[i],),
                    #[trigger] r.candidates_spec()[i],
                ),
            match (self.value_spec(), r.value_spec()) {
                (Some(v), Some(w)) => map_value.ensures((v,), w),
                (None, None) => true,
                _ => false,
            },
    {
        match self {
            Fact::Known { value } => Fact::Known { value: map_value(value) },
            Fact::Partial { value, reasons } => Fact::Partial { value: map_value(value), reasons },
            Fact::Unknown { reasons } => Fact::Unknown { reasons },
            Fact::Ambiguous { candidates, reasons } => {
                let ghost old_candidates = candidates@;
                let mut rest = candidates;
                let mut mapped: Vec<U> = Vec::new();
                while rest.len() > 0
                    invariant
                        forall|x: T| #[trigger] map_value.requires((x,)),
                        mapped@.len() + rest@.len() == old_candidates.len(),
                        rest@ == old_candidates.skip(mapped@.len() as int),
                        forall|k: int|
                            0 <= k < mapped@.len() ==> map_value.ensures(
                                (old_candidates[k],),
                                #[trigger] mapped@[k],
                            ),
                    decreases rest@.len(),
                {
                    let ghost k = mapped@.len();
                    let c = rest.remove(0);
                    assert(c == old_candidates[k as int]);
                    let m = map_value(c);
                    mapped.push(m);
                    assert(rest@ =~= old_candidates.skip(mapped@.len() as int));
                }
                Fact::Ambiguous { candidates: mapped, reasons }
            },
        }
    }
}

/// The fact `values`, partial when there are reasons.
pub fn known_or_partial<T>(values: Vec<T>, reasons: Vec<Reason>) -> (r: Fact<Vec<T>>)
    ensures
        r == (if reasons@.len() == 0 {
            Fact::Known { value: values }
        } else {
            Fact::Partial { value: values, reasons }
        }),
{
    if reasons.len() == 0 {
        Fact::Known { value: values }
    } else {
        Fact::Partial { value: values, reasons }
    }
}

/// The fact with each of `reasons` added in turn.
pub fn add_reasons<T>(fact: Fact<T>, reasons: Vec<Reason>) -> (r: Fact<T>)
    ensures
        r.value_spec() == fact.value_spec(),
        r.candidates_spec() == fact.candidates_spec(),
        r.reasons_spec() == fact.reasons_spec() + reasons@,
        r.confidence_spec() == (if fact is Known && reasons@.len() > 0 {
            Confidence::Partial
        } else {
            fact.confidence_spec()
        }),
{
    let ghost all = reasons@;
    let mut fact = fact;
    let ghost start = fact;
    let mut rest = reasons;
    while rest.len() > 0
        invariant
            rest@ == all.skip(all.len() - rest@.len()),
            rest@.len() <= all.len(),
            fact.value_spec() == start.value_spec(),
            fact.candidates_spec() == start.candidates_spec(),
            fact.reasons_spec() == start.reasons_spec() + all.take(all.len() - rest@.len()),
            fact.confidence_spec() == (if start is Known && rest@.len() < all.len() {
                Confidence::Partial
            } else {
                start.confidence_spec()
            }),
        decreases rest@.len(),
    {
        let ghost i = all.len() - rest@.len();
        let reason = rest.remove(0);
        assert(reason == all[i]);
        assert(all.take(i + 1) =~= all.take(i).push(reason));
        fact = fact.with_reason(reason);
        assert(rest@ =~= all.skip(all.len() - rest@.len()));
    }
    assert(all.take(all.len() as int) =~= all);
    fact
}

/// `r` is `fact` with `items` appended: a known fact stays known when there are no
/// `item_reasons` and becomes partial with them; a partial one gathers them too.
/// An unknown or ambiguous fact cannot take items and gets `unavailable` instead.
pub open spec fn extended<T>(
    fact: Fact<Vec<T>>,
    items: Seq<T>,
    item_reasons: Seq<Reason>,
    unavailable: Reason,
    r: Fact<Vec<T>>,
) -> bool {
    match fact {
        Fact::Known { value } => if item_reasons.len() == 0 {
            r matches Fact::Known { value: v } && v@ == value@ + items
        } else {
            r matches Fact::Partial { value: v, reasons: rs } && v@ == value@ + items && rs@
                == item_reasons
        },
        Fact::Partial { value, reasons } => r matches Fact::Partial { value: v, reasons: rs }
            && v@ == value@ + items && rs@ == reasons@ + item_reasons,
        Fact::Unknown { reasons } => r matches Fact::Unknown { reasons: rs } && rs@ == reasons@.push(
            unavailable,
        ),
        Fact::Ambiguous { candidates, reasons } => r matches Fact::Ambiguous {
            candidates: cs,
            reasons: rs,
        } && cs == candidates && rs@ == reasons@.push(unavailable),
    }
}

/// The vector fact with `items` appended; items of a partial list add their
/// `item_reasons`. An unknown or ambiguous fact cannot take items: it gets
/// `unavailable_reason` instead.
pub fn extend_vec_items<T>(
    fact: Fact<Vec<T>>,
    items: Vec<T>,
    item_reasons: Vec<Reason>,
    unavailable_reason: Reason,
) -> (r: Fact<Vec<T>>)
    ensures
        extended(fact, items@, item_reasons@, unavailable_reason, r),
{
    let mut items = items;
    let mut item_reasons = item_reasons;
    match fact {
        Fact::Known { mut value } => {
            value.append(&mut items);
            known_or_partial(value, item_reasons)
        },
        Fact::Partial { mut value, mut reasons } => {
            value.append(&mut items);
            reasons.append(&mut item_reasons);
            Fact::Partial { value, reasons }
        },
        Fact::Unknown { mut reasons } => {
            reasons.push(unavailable_reason);
            Fact::Unknown { reasons }
        },
        Fact::Ambiguous { candidates, mut reasons } => {
            reasons.push(unavailable_reason);
            Fact::Ambiguous { candidates, reasons }
        },
    }
}

/// The vector fact with `item` appended.
pub fn append_vec_fact<T>(
    fact: Fact<Vec<T>>,
    item: T,
    reasons: Vec<Reason>,
    unavailable_reason: Reason,
) -> (r: Fact<Vec<T>>)
    ensures
        extended(fact, seq![item], reasons@, unavailable_reason, r),
{
    let items = vec![item];
    proof {
        assert(items@ =~= seq![item]);
    }
    extend_vec_items(fact, items, reasons, unavailable_reason)
}

/// The vector fact with the list fact `items` appended: the items of a known or
/// partial list, with the reasons of a partial one; an unknown or ambiguous list
/// of items only adds its reasons.
pub fn extend_vec_fact<T>(fact: Fact<Vec<T>>, items: Fact<Vec<T>>, unavailable_reason: Reason) -> (r:
    Fact<Vec<T>>)
    ensures
        match items {
            Fact::Known { value } => extended(fact, value@, Seq::empty(), unavailable_reason, r),
            Fact::Partial { value, reasons } => extended(fact, value@, reasons@, unavailable_reason, r),
            _ => r.value_spec() == fact.value_spec() && r.candidates_spec()
                == fact.candidates_spec() && r.reasons_spec() == fact.reasons_spec()
                + items.reasons_spec() && r.confidence_spec() == (if fact is Known
                && items.reasons_spec().len() > 0 {
                Confidence::Partial
            } else {
                fact.confidence_spec()
            }),
        },
{
    match items {
        Fact::Known { value } => extend_vec_items(fact, value, Vec::new(), unavailable_reason),
        Fact::Partial { value, reasons } => extend_vec_items(fact, value, reasons, unavailable_reason),
        Fact::Unknown { reasons } => add_reasons(fact, reasons),
        Fact::Ambiguous { reasons, .. } => add_reasons(fact, reasons),
    }
}

/// The index an insertion at `index` lands on in a list of `len` items: Python
/// clamps it to the end of the list.
pub open spec fn clamped(index: usize, len: nat) -> int {
    if index <= len {
        index as int
    } else {
        len as int
    }
}

/// `r` is `fact` with `item` inserted at `index` (clamped to the length), and
/// `item_reasons` gathered as for [`extended`].
pub open spec fn inserted<T>(
    fact: Fact<Vec<T>>,
    index: usize,
    item: T,
    item_reasons: Seq<Reason>,
    unavailable: Reason,
    r: Fact<Vec<T>>,
) -> bool {
    match fact {
        Fact::Known { value } => if item_reasons.len() == 0 {
            r matches Fact::Known { value: v } && v@ == value@.insert(
                clamped(index, value@.len()),
                item,
            )
        } else {
            r matches Fact::Partial { value: v, reasons: rs } && v@ == value@.insert(
                clamped(index, value@.len()),
                item,
            ) && rs@ == item_reasons
        },
        Fact::Partial { value, reasons } => r matches Fact::Partial { value: v, reasons: rs }
            && v@ == value@.insert(clamped(index, value@.len()), item) && rs@ == reasons@
            + item_reasons,
        Fact::Unknown { reasons } => r matches Fact::Unknown { reasons: rs } && rs@ == reasons@.push(
            unavailable,
        ),
        Fact::Ambiguous { candidates, reasons } => r matches Fact::Ambiguous {
            candidates: cs,
            reasons: rs,
        } && cs == candidates && rs@ == reasons@.push(unavailable),
    }
}

/// The vector fact with `item` inserted at `index`, clamped to its length.
pub fn insert_vec_fact<T>(
    fact: Fact<Vec<T>>,
    index: usize,
    item: T,
    reasons: Vec<Reason>,
    unavailable_reason: Reason,
) -> (r: Fact<Vec<T>>)
    ensures
        inserted(fact, index, item, reasons@, unavailable_reason, r),
{
    let mut reasons = reasons;
    match fact {
        Fact::Known { mut value } => {
            let at = if index <= value.len() {
                index
            } else {
                value.len()
            };
            value.insert(at, item);
            known_or_partial(value, reasons)
        },
        Fact::Partial { mut value, reasons: mut existing } => {
            let at = if index <= value.len() {
                index
            } else {
                value.len()
            };
            value.insert(at, item);
            existing.append(&mut reasons);
            Fact::Partial { value, reasons: existing }
        },
        Fact::Unknown { reasons: mut existing } => {
            existing.push(unavailable_reason);
            Fact::Unknown { reasons: existing }
        },
        Fact::Ambiguous { candidates, reasons: mut existing } => {
            existing.push(unavailable_reason);
            Fact::Ambiguous { candidates, reasons: existing }
        },
    }
}

/// The vector fact with the item fact `item` inserted at `index`: the value of a
/// known or partial item, with the reasons of a partial one; an unknown or
/// ambiguous item only adds its reasons.
pub fn insert_vec_fact_from_fact<T>(
    fact: Fact<Vec<T>>,
    index: usize,
    item: Fact<T>,
    unavailable_reason: Reason,
) -> (r: Fact<Vec<T>>)
    ensures
        match item {
            Fact::Known { value } => inserted(fact, index, value, Seq::empty(), unavailable_reason, r),
            Fact::Partial { value, reasons } => inserted(
                fact,
                index,
                value,
                reasons@,
                unavailable_reason,
                r,
            ),
            _ => r.value_spec() == fact.value_spec() && r.candidates_spec()
                == fact.candidates_spec() && r.reasons_spec() == fact.reasons_spec()
                + item.reasons_spec() && r.confidence_spec() == (if fact is Known
                && item.reasons_spec().len() > 0 {
                Confidence::Partial
            } else {
                fact.confidence_spec()
            }),
        },
{
    match item {
        Fact::Known { value } => insert_vec_fact(fact, index, value, Vec::new(), unavailable_reason),
        Fact::Partial { value, reasons } => insert_vec_fact(
            fact,
            index,
            value,
            reasons,
            unavailable_reason,
        ),
        Fact::Unknown { reasons } => add_reasons(fact, reasons),
        Fact::Ambiguous { reasons, .. } => add_reasons(fact, reasons),
    }
}

/// The final fact of a setting: the assigned fact with the reasons gathered from
/// imports, or, when it was never assigned, unknown with those reasons and `missing`.
pub fn finalize_setting_fact<T>(fact: Option<Fact<T>>, reasons: Vec<Reason>, missing: Reason) -> (r:
    Fact<T>)
    ensures
        match fact {
            Some(f) => r.value_spec() == f.value_spec() && r.candidates_spec()
                == f.candidates_spec() && r.reasons_spec() == f.reasons_spec() + reasons@
                && r.confidence_spec() == (if f is Known && reasons@.len() > 0 {
                Confidence::Partial
            } else {
                f.confidence_spec()
            }),
            None => r matches Fact::Unknown { reasons: rs } && rs@ == reasons@.push(missing),
        },
{
    match fact {
        Some(f) => add_reasons(f, reasons),
        None => {
            let mut reasons = reasons;
            reasons.push(missing);
            Fact::Unknown { reasons }
        },
    }
}

/// A path where Python modules are looked up.
#[derive(Clone, Debug, PartialEq, Eq)]
pub struct ModuleSearchPathEntry {
    pub kind: ModuleSearchPathKind,
    pub path: String,
}

/// How a module search path was found.
#[derive(Clone, Copy, Debug, PartialEq, Eq, Structural)]
pub enum ModuleSearchPathKind {
    Workspace,
    AutoSrc,
    ExplicitPythonPath,
    SitePackages,
    PthFile,
}

/// The outcome of looking up a module.
#[derive(Clone, Debug, PartialEq, Eq)]
pub struct ModuleResolution {
    pub requested: PyModuleName,
    pub resolved: Fact<ResolvedModule>,
}

/// A module found in a search path.
#[derive(Clone, Debug, PartialEq, Eq)]
pub struct ResolvedModule {
    pub module: PyModuleName,
    pub file: String,
    pub search_path: String,
    pub location: ModuleLocation,
}

/// Whether a module lies in the workspace or outside it.
#[derive(Clone, Copy, Debug, PartialEq, Eq, Structural)]
pub enum ModuleLocation {
    Workspace,
    External,
}

/// What a settings file says about the installed apps and template backends.
#[derive(Clone, Debug, PartialEq, Eq)]
pub struct SettingsFacts {
    pub file: String,
    pub files_read: Vec<String>,
    pub installed_apps: Fact<Vec<String>>,
    pub template_backends: Fact<Vec<TemplateBackendFact>>,
}

/// An entry of `INSTALLED_APPS` and what it resolves to.
#[derive(Clone, Debug, PartialEq, Eq)]
pub struct InstalledAppFact {
    pub entry: String,
    pub module: Fact<PyModuleName>,
    pub path: Fact<String>,
    pub config: Option<AppConfigFact>,
}

/// An `AppConfig` subclass of an app.
#[derive(Clone, Debug, PartialEq, Eq)]
pub struct AppConfigFact {
    pub module: PyModuleName,
    pub file: String,
    pub class_name: String,
    pub name: Fact<PyModuleName>,
    pub label: Fact<String>,
    pub path: Fact<String>,
}

/// An installed app whose module and directory are known.
#[derive(Clone, Debug, PartialEq, Eq)]
pub struct AppFact {
    pub entry: String,
    pub module: PyModuleName,
    pub path: String,
    pub config: Option<AppConfigFact>,
}

/// One entry of `TEMPLATES`.
#[derive(Clone, Debug, PartialEq, Eq)]
pub struct TemplateBackendFact {
    pub backend: Option<String>,
    pub dirs: Fact<Vec<TemplateDirFact>>,
    pub app_dirs: Fact<bool>,
    pub option_libraries: Fact<Vec<TemplateLibraryFact>>,
    pub option_builtins: Fact<Vec<PyModuleName>>,
}

/// A template directory and where it comes from.
#[derive(Clone, Debug, PartialEq, Eq)]
pub struct TemplateDirFact {
    pub path: String,
    pub source: TemplateDirSource,
}

/// Where a template directory comes from.
#[derive(Clone, Debug, PartialEq, Eq)]
pub enum TemplateDirSource {
    SettingsDir,
    AppDir { app: PyModuleName },
    UserOverride,
}

/// A template library and where it comes from.
#[derive(Clone, Debug, PartialEq, Eq)]
pub struct TemplateLibraryFact {
    pub load_name: LibraryName,
    pub module: PyModuleName,
    pub source: TemplateLibrarySource,
}

/// Where a template library comes from.
#[derive(Clone, Debug, PartialEq, Eq)]
pub enum TemplateLibrarySource {
    AppTemplateTags { app: PyModuleName },
    SettingsLibraries,
    SettingsBuiltins,
    DjangoDefaultLibrary,
    DjangoDefaultBuiltin,
    Discovered,
    UserOverride,
}

/// A tag or filter that a library defines.
#[derive(Clone, Debug, PartialEq, Eq)]
pub struct TemplateSymbolFact {
    pub library: LibraryName,
    pub module: PyModuleName,
    pub kind: TemplateSymbolKind,
    pub name: TemplateSymbolName,
}

/// The mathematical content of a [`ReasonSource`].
pub enum SourceView {
    File(Seq<char>),
    Path(Seq<char>),
    Module(Seq<char>),
    DjangoEnvironmentRoot(Seq<char>),
    Workspace(Seq<char>),
    Unknown,
}

impl View for ReasonSource {
    type V = SourceView;

    open spec fn view(&self) -> SourceView {
        match self {
            ReasonSource::File(p) => SourceView::File(p@),
            ReasonSource::Path(p) => SourceView::Path(p@),
            ReasonSource::Module(m) => SourceView::Module(m@),
            ReasonSource::DjangoEnvironmentRoot(p) => SourceView::DjangoEnvironmentRoot(p@),
            ReasonSource::Workspace(p) => SourceView::Workspace(p@),
            ReasonSource::Unknown => SourceView::Unknown,
        }
    }
}

/// The mathematical content of a [`Reason`].
pub struct ReasonView {
    pub field: Field,
    pub source: SourceView,
    pub message: Seq<char>,
}

impl View for Reason {
    type V = ReasonView;

    open spec fn view(&self) -> ReasonView {
        ReasonView { field: self.field, source: self.source@, message: self.message@ }
    }
}

pub open spec fn reason_views(v: Seq<Reason>) -> Seq<ReasonView> {
    v.map_values(|r: Reason| r@)
}

fn same_field(a: Field, b: Field) -> (r: bool)
    ensures
        r == (a == b),
{
    a == b
}

/// Whether two reasons say the same.
pub fn same_reason(a: &Reason, b: &Reason) -> (r: bool)
    ensures
        r == (a@ == b@),
{
    if !same_field(a.field, b.field) || !crate::text::str_eq(a.message.as_str(), b.message.as_str()) {
        return false;
    }
    match (&a.source, &b.source) {
        (ReasonSource::File(x), ReasonSource::File(y)) => crate::text::str_eq(x.as_str(), y.as_str()),
        (ReasonSource::Path(x), ReasonSource::Path(y)) => crate::text::str_eq(x.as_str(), y.as_str()),
        (ReasonSource::Module(x), ReasonSource::Module(y)) => crate::text::str_eq(x.as_str(), y.as_str()),
        (ReasonSource::DjangoEnvironmentRoot(x), ReasonSource::DjangoEnvironmentRoot(y)) => {
            crate::text::str_eq(x.as_str(), y.as_str())
        },
        (ReasonSource::Workspace(x), ReasonSource::Workspace(y)) => crate::text::str_eq(
            x.as_str(),
            y.as_str(),
        ),
        (ReasonSource::Unknown, ReasonSource::Unknown) => true,
        _ => false,
    }
}

/// The mathematical content of a [`TemplateDirSource`].
pub enum DirSourceView {
    SettingsDir,
    AppDir(Seq<char>),
    UserOverride,
}

impl View for TemplateDirSource {
    type V = DirSourceView;

    open spec fn view(&self) -> DirSourceView {
        match self {
            TemplateDirSource::SettingsDir => DirSourceView::SettingsDir,
            TemplateDirSource::AppDir { app } => DirSourceView::AppDir(app@),
            TemplateDirSource::UserOverride => DirSourceView::UserOverride,
        }
    }
}

impl View for TemplateDirFact {
    type V = (Seq<char>, DirSourceView);

    open spec fn view(&self) -> (Seq<char>, DirSourceView) {
        (self.path@, self.source@)
    }
}

pub open spec fn dir_views(v: Seq<TemplateDirFact>) -> Seq<(Seq<char>, DirSourceView)> {
    v.map_values(|d: TemplateDirFact| d@)
}

impl TemplateDirSource {
    pub fn duplicate(&self) -> (r: TemplateDirSource)
        ensures
            r == *self,
    {
        match self {
            TemplateDirSource::SettingsDir => TemplateDirSource::SettingsDir,
            TemplateDirSource::AppDir { app } => TemplateDirSource::AppDir { app: app.duplicate() },
            TemplateDirSource::UserOverride => TemplateDirSource::UserOverride,
        }
    }
}

impl TemplateDirFact {
    pub fn duplicate(&self) -> (r: TemplateDirFact)
        ensures
            r == *self,
    {
        TemplateDirFact { path: self.path.clone(), source: self.source.duplicate() }
    }
}

/// Whether two template directories are the same path from the same source.
pub fn same_dir(a: &TemplateDirFact, b: &TemplateDirFact) -> (r: bool)
    ensures
        r == (a@ == b@),
{
    if !crate::text::str_eq(a.path.as_str(), b.path.as_str()) {
        return false;
    }
    match (&a.source, &b.source) {
        (TemplateDirSource::SettingsDir, TemplateDirSource::SettingsDir) => true,
        (TemplateDirSource::AppDir { app: x }, TemplateDirSource::AppDir { app: y }) => crate::text::str_eq(
            x.as_str(),
            y.as_str(),
        ),
        (TemplateDirSource::UserOverride, TemplateDirSource::UserOverride) => true,
        _ => false,
    }
}

} // verus!
