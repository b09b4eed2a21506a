//! Scoping diagnostics for a parsed template: tags and filters that are not
//! available where they are used, and `{% load %}` tags naming unknown libraries.
use vstd::prelude::*;

use crate::inventory::{entries, TemplateTags};
use crate::load::{
    load_bits_meaning, parse_load_bits, state_at, statement_views, LoadKind, LoadKindView,
    LoadStatement, LoadStatementView, LoadedLibraries,
};
use crate::opaque::{search_finds, OpaqueRegions};
use crate::span::{sat_add, sat_sub, Span};
use crate::symbols::{
    available_names, status_in, unavailable_candidates, AvailableSymbols, FilterAvailability,
    Status, TagAvailability,
};
use crate::text::{contains_str, str_eq, views};

verus! {

broadcast use vstd::seq::Seq::group_seq_extra;

/// The width of a tag delimiter (`{%` or `%}`).
pub const TAG_DELIMITER_LENGTH: u32 = 2;

/// A filter applied in a variable node: `{{ value|name:arg }}`.
#[derive(Clone, Debug, PartialEq, Eq)]
pub struct Filter {
    pub name: String,
    pub arg: Option<String>,
    pub span: Span,
}

/// A node of a parsed template.
#[derive(Clone, Debug, PartialEq, Eq)]
pub enum Node {
    /// `{% name bits... %}`; `bits` holds the tag name first.
    Tag { name: String, bits: Vec<String>, span: Span },
    /// `{# content #}`.
    Comment { content: String, span: Span },
    /// Literal text.
    Text { span: Span },
    /// `{{ var|filter... }}`.
    Variable { var: String, filters: Vec<Filter>, span: Span },
}

/// The block structure of one tag: its closing tag and intermediate tags.
#[derive(Clone, Debug, PartialEq, Eq)]
pub struct TagSpec {
    pub name: String,
    pub end_tag: Option<String>,
    pub intermediate_tags: Vec<String>,
}

/// The tag specifications of a project.
#[derive(Clone, Debug, Default, PartialEq, Eq)]
pub struct TagSpecs {
    pub specs: Vec<TagSpec>,
}

/// `spec` closes with `name`.
pub open spec fn closes_with(spec: TagSpec, name: Seq<char>) -> bool {
    match spec.end_tag {
        Some(e) => e@ == name,
        None => false,
    }
}

/// Some spec closes with `name`.
pub open spec fn is_closer(specs: Seq<TagSpec>, name: Seq<char>) -> bool {
    exists|i: int| 0 <= i < specs.len() && closes_with(#[trigger] specs[i], name)
}

/// Some spec has `name` as an intermediate tag.
pub open spec fn is_intermediate(specs: Seq<TagSpec>, name: Seq<char>) -> bool {
    exists|i: int| 0 <= i < specs.len() && views((#[trigger] specs[i]).intermediate_tags@).contains(name)
}

/// `specs[i]` is the first spec that closes with `name`.
pub open spec fn first_closer_at(specs: Seq<TagSpec>, name: Seq<char>, i: int) -> bool {
    &&& 0 <= i < specs.len()
    &&& closes_with(specs[i], name)
    &&& forall|j: int| 0 <= j < i ==> !closes_with(#[trigger] specs[j], name)
}

/// `specs[i]` is the first spec that has `name` as an intermediate tag.
pub open spec fn first_intermediate_at(specs: Seq<TagSpec>, name: Seq<char>, i: int) -> bool {
    &&& 0 <= i < specs.len()
    &&& views(specs[i].intermediate_tags@).contains(name)
    &&& forall|j: int| 0 <= j < i ==> !views((#[trigger] specs[j]).intermediate_tags@).contains(name)
}

impl TagSpecs {
    pub fn new(specs: Vec<TagSpec>) -> (r: TagSpecs)
        ensures
            r.specs == specs,
    {
        TagSpecs { specs }
    }

    /// The first spec whose closing tag is `closer`.
    pub fn get_end_spec_for_closer(&self, closer: &str) -> (r: Option<&TagSpec>)
        ensures
            r is Some <==> is_closer(self.specs@, closer@),
            r matches Some(s) ==> closes_with(*s, closer@),
            r matches Some(s) ==> exists|i: int| #[trigger] first_closer_at(self.specs@, closer@, i) && self.specs@[i] == *s,
    {
        let mut i: usize = 0;
        while i < self.specs.len()
            invariant
                i <= self.specs.len(),
                forall|j: int| 0 <= j < i ==> !closes_with(self.specs@[j], closer@),
            decreases self.specs.len() - i,
        {
            let spec = &self.specs[i];
            match &spec.end_tag {
                Some(end) => {
                    if str_eq(end.as_str(), closer) {
                        assert(first_closer_at(self.specs@, closer@, i as int));
                        return Some(spec);
                    }
                },
                None => {},
            }
            i = i + 1;
        }
        None
    }

    /// The first spec that has `name` as an intermediate tag.
    pub fn get_intermediate_spec(&self, name: &str) -> (r: Option<&TagSpec>)
        ensures
            r is Some <==> is_intermediate(self.specs@, name@),
            r matches Some(s) ==> views(s.intermediate_tags@).contains(name@),
            r matches Some(s) ==> exists|i: int| #[trigger] first_intermediate_at(self.specs@, name@, i) && self.specs@[i] == *s,
    {
        let mut i: usize = 0;
        while i < self.specs.len()
            invariant
                i <= self.specs.len(),
                forall|j: int| 0 <= j < i ==> !views(self.specs@[j].intermediate_tags@).contains(name@),
            decreases self.specs.len() - i,
        {
            let spec = &self.specs[i];
            if contains_str(&spec.intermediate_tags, name) {
                assert(first_intermediate_at(self.specs@, name@, i as int));
                return Some(spec);
            }
            i = i + 1;
        }
        None
    }
}

/// Whether `name` closes a block or is an intermediate tag of one. Such tags
/// are available wherever their opening tag is, so load scoping skips them.
pub fn is_closer_or_intermediate(name: &str, tag_specs: &TagSpecs) -> (r: bool)
    ensures
        r == (is_closer(tag_specs.specs@, name@) || is_intermediate(tag_specs.specs@, name@)),
{
    tag_specs.get_end_spec_for_closer(name).is_some() || tag_specs.get_intermediate_spec(
        name,
    ).is_some()
}

/// The `{% load %}` statements of `nodes`, in order: each `load` tag whose bits
/// parse.
pub open spec fn load_statements(nodes: Seq<Node>) -> Seq<LoadStatementView>
    decreases nodes.len(),
{
    if nodes.len() == 0 {
        Seq::empty()
    } else {
        let rest = load_statements(nodes.drop_last());
        match nodes.last() {
            Node::Tag { name, bits, span } => if name@ == "load"@ {
                match load_bits_meaning(views(bits@)) {
                    Some(kind) => rest.push(LoadStatementView { span, kind }),
                    None => rest,
                }
            } else {
                rest
            },
            _ => rest,
        }
    }
}

/// The load statements of a template's nodes.
pub fn compute_loaded_libraries(nodes: &Vec<Node>) -> (r: LoadedLibraries)
    ensures
        r@ == load_statements(nodes@),
{
    let mut statements: Vec<LoadStatement> = Vec::new();
    let mut i: usize = 0;
    while i < nodes.len()
        invariant
            i <= nodes.len(),
            statement_views(statements@) == load_statements(nodes@.take(i as int)),
        decreases nodes.len() - i,
    {
        assert(nodes@.take(i + 1).drop_last() =~= nodes@.take(i as int));
        assert(nodes@.take(i + 1).last() == nodes@[i as int]);
        match &nodes[i] {
            Node::Tag { name, bits, span } => {
                if str_eq(name.as_str(), "load") {
                    let parsed = parse_load_bits(bits.as_slice());
                    match parsed {
                        Some(kind) => {
                            let stmt = LoadStatement::new(*span, kind);
                            let ghost before = statements@;
                            statements.push(stmt);
                            assert(statement_views(statements@) =~= statement_views(before).push(
                                stmt@,
                            ));
                        },
                        None => {},
                    }
                }
            },
            _ => {},
        }
        i = i + 1;
    }
    assert(nodes@.take(nodes.len() as int) =~= nodes@);
    LoadedLibraries::new(statements)
}

/// A diagnostic about load scoping.
#[derive(Clone, Debug, PartialEq, Eq)]
pub enum ValidationError {
    /// The tag is not known at all.
    UnknownTag { tag: String, span: Span },
    /// The tag is known, but its library is not loaded here.
    UnloadedTag { tag: String, library: String, span: Span },
    /// The tag is known in several libraries, none loaded here.
    AmbiguousUnloadedTag { tag: String, libraries: Vec<String>, span: Span },
    /// The tag exists in the environment, in an app that is not installed.
    TagNotInInstalledApps { tag: String, app: String, load_name: String, span: Span },
    /// The filter is not known at all.
    UnknownFilter { filter: String, span: Span },
    /// The filter is known, but its library is not loaded here.
    UnloadedFilter { filter: String, library: String, span: Span },
    /// The filter is known in several libraries, none loaded here.
    AmbiguousUnloadedFilter { filter: String, libraries: Vec<String>, span: Span },
    /// The filter exists in the environment, in an app that is not installed.
    FilterNotInInstalledApps { filter: String, app: String, load_name: String, span: Span },
    /// `{% load %}` names a library that is known nowhere.
    UnknownLibrary { name: String, span: Span },
    /// `{% load %}` names a library of the environment whose app is not installed.
    LibraryNotInInstalledApps { name: String, app: String, candidates: Vec<String>, span: Span },
}

/// The mathematical content of a [`ValidationError`].
pub enum ErrorView {
    UnknownTag { tag: Seq<char>, span: Span },
    UnloadedTag { tag: Seq<char>, library: Seq<char>, span: Span },
    AmbiguousUnloadedTag { tag: Seq<char>, libraries: Seq<Seq<char>>, span: Span },
    TagNotInInstalledApps { tag: Seq<char>, app: Seq<char>, load_name: Seq<char>, span: Span },
    UnknownFilter { filter: Seq<char>, span: Span },
    UnloadedFilter { filter: Seq<char>, library: Seq<char>, span: Span },
    AmbiguousUnloadedFilter { filter: Seq<char>, libraries: Seq<Seq<char>>, span: Span },
    FilterNotInInstalledApps {
        filter: Seq<char>,
        app: Seq<char>,
        load_name: Seq<char>,
        span: Span,
    },
    UnknownLibrary { name: Seq<char>, span: Span },
    LibraryNotInInstalledApps {
        name: Seq<char>,
        app: Seq<char>,
        candidates: Seq<Seq<char>>,
        span: Span,
    },
}

impl View for ValidationError {
    type V = ErrorView;

    open spec fn view(&self) -> ErrorView {
        match self {
            ValidationError::UnknownTag { tag, span } => ErrorView::UnknownTag { tag: tag@, span: *span },
            ValidationError::UnloadedTag { tag, library, span } => ErrorView::UnloadedTag {
                tag: tag@,
                library: library@,
                span: *span,
            },
            ValidationError::AmbiguousUnloadedTag { tag, libraries, span } => {
                ErrorView::AmbiguousUnloadedTag { tag: tag@, libraries: views(libraries@), span: *span }
            },
            ValidationError::TagNotInInstalledApps { tag, app, load_name, span } => {
                ErrorView::TagNotInInstalledApps {
                    tag: tag@,
                    app: app@,
                    load_name: load_name@,
                    span: *span,
                }
            },
            ValidationError::UnknownFilter { filter, span } => ErrorView::UnknownFilter {
                filter: filter@,
                span: *span,
            },
            ValidationError::UnloadedFilter { filter, library, span } => ErrorView::UnloadedFilter {
                filter: filter@,
                library: library@,
                span: *span,
            },
            ValidationError::AmbiguousUnloadedFilter { filter, libraries, span } => {
                ErrorView::AmbiguousUnloadedFilter {
                    filter: filter@,
                    libraries: views(libraries@),
                    span: *span,
                }
            },
            ValidationError::FilterNotInInstalledApps { filter, app, load_name, span } => {
                ErrorView::FilterNotInInstalledApps {
                    filter: filter@,
                    app: app@,
                    load_name: load_name@,
                    span: *span,
                }
            },
            ValidationError::UnknownLibrary { name, span } => ErrorView::UnknownLibrary {
                name: name@,
                span: *span,
            },
            ValidationError::LibraryNotInInstalledApps { name, app, candidates, span } => {
                ErrorView::LibraryNotInInstalledApps {
                    name: name@,
                    app: app@,
                    candidates: views(candidates@),
                    span: *span,
                }
            },
        }
    }
}

pub open spec fn error_views(v: Seq<ValidationError>) -> Seq<ErrorView> {
    v.map_values(|e: ValidationError| e@)
}

/// A tag or filter that an installed package defines, whether or not its app
/// is in `INSTALLED_APPS`.
#[derive(Clone, Debug, PartialEq, Eq)]
pub struct EnvironmentSymbol {
    pub name: String,
    pub library_load_name: String,
    pub app_module: String,
}

/// A template library that an installed package defines.
#[derive(Clone, Debug, PartialEq, Eq)]
pub struct EnvironmentLibrary {
    pub load_name: String,
    pub app_module: String,
}

/// Everything the Python environment offers to templates, installed app or not.
#[derive(Clone, Debug, Default, PartialEq, Eq)]
pub struct EnvironmentInventory {
    pub tags: Vec<EnvironmentSymbol>,
    pub filters: Vec<EnvironmentSymbol>,
    pub libraries: Vec<EnvironmentLibrary>,
}

/// `i` is the first index of `s` whose symbol is called `name`.
pub open spec fn first_named_at(s: Seq<EnvironmentSymbol>, name: Seq<char>, i: int) -> bool {
    &&& 0 <= i < s.len()
    &&& s[i].name@ == name
    &&& forall|j: int| 0 <= j < i ==> s[j].name@ != name
}

/// The first symbol of `s` called `name`.
pub open spec fn first_named(s: Seq<EnvironmentSymbol>, name: Seq<char>) -> Option<EnvironmentSymbol> {
    if exists|i: int| first_named_at(s, name, i) {
        Some(s[choose|i: int| first_named_at(s, name, i)])
    } else {
        None
    }
}

/// The apps of the libraries of `libs` whose load name is `name`, in order.
pub open spec fn apps_for_library(libs: Seq<EnvironmentLibrary>, name: Seq<char>) -> Seq<Seq<char>>
    decreases libs.len(),
{
    if libs.len() == 0 {
        Seq::empty()
    } else {
        let rest = apps_for_library(libs.drop_last(), name);
        if libs.last().load_name@ == name {
            rest.push(libs.last().app_module@)
        } else {
            rest
        }
    }
}

/// The first symbol of `symbols` called `name`.
fn first_symbol_named<'a>(symbols: &'a Vec<EnvironmentSymbol>, name: &str) -> (r: Option<
    &'a EnvironmentSymbol,
>)
    ensures
        match r {
            Some(sym) => first_named(symbols@, name@) == Some(*sym),
            None => first_named(symbols@, name@) is None,
        },
{
    let mut i: usize = 0;
    while i < symbols.len()
        invariant
            i <= symbols.len(),
            forall|j: int| 0 <= j < i ==> symbols@[j].name@ != name@,
        decreases symbols.len() - i,
    {
        if str_eq(symbols[i].name.as_str(), name) {
            proof {
                assert(first_named_at(symbols@, name@, i as int));
                let k = choose|k: int| first_named_at(symbols@, name@, k);
                assert(k == i as int) by {
                    if k < i {
                    } else if k > i {
                        assert(symbols@[i as int].name@ == name@);
                    }
                }
            }
            return Some(&symbols[i]);
        }
        i = i + 1;
    }
    None
}

impl EnvironmentInventory {
    /// Whether some installed package defines a library loaded as `name`.
    pub fn has_library(&self, name: &str) -> (r: bool)
        ensures
            r == (apps_for_library(self.libraries@, name@).len() > 0),
    {
        self.libraries_for_name(name).len() > 0
    }

    /// The apps whose packages define a library loaded as `name`, in order.
    pub fn libraries_for_name(&self, name: &str) -> (r: Vec<String>)
        ensures
            views(r@) == apps_for_library(self.libraries@, name@),
    {
        let mut out: Vec<String> = Vec::new();
        let mut i: usize = 0;
        while i < self.libraries.len()
            invariant
                i <= self.libraries.len(),
                views(out@) == apps_for_library(self.libraries@.take(i as int), name@),
            decreases self.libraries.len() - i,
        {
            assert(self.libraries@.take(i + 1).drop_last() =~= self.libraries@.take(i as int));
            let lib = &self.libraries[i];
            if str_eq(lib.load_name.as_str(), name) {
                let ghost before = out@;
                let app = lib.app_module.clone();
                out.push(app);
                assert(views(out@) =~= views(before).push(app@));
            }
            i = i + 1;
        }
        assert(self.libraries@.take(self.libraries.len() as int) =~= self.libraries@);
        out
    }
}

/// The span a tag's diagnostics point at: the tag with its delimiters.
pub open spec fn marker_span(span: Span) -> Span {
    Span {
        start: sat_sub(span.start, TAG_DELIMITER_LENGTH),
        length: sat_add(sat_add(span.length, TAG_DELIMITER_LENGTH), TAG_DELIMITER_LENGTH),
    }
}

/// The diagnostic for a tag with availability `status`, if any: an unknown tag
/// that the environment defines points at its first definition there.
pub open spec fn tag_error(
    status: Status,
    env: Option<&EnvironmentInventory>,
    tag: Seq<char>,
    span: Span,
) -> Seq<ErrorView> {
    match status {
        Status::Available => Seq::empty(),
        Status::Unloaded(library) => seq![ErrorView::UnloadedTag { tag, library, span }],
        Status::AmbiguousUnloaded(libraries) => seq![
            ErrorView::AmbiguousUnloadedTag { tag, libraries, span },
        ],
        Status::Unknown => match env {
            Some(e) => match first_named(e.tags@, tag) {
                Some(sym) => seq![
                    ErrorView::TagNotInInstalledApps {
                        tag,
                        app: sym.app_module@,
                        load_name: sym.library_load_name@,
                        span,
                    },
                ],
                None => seq![ErrorView::UnknownTag { tag, span }],
            },
            None => seq![ErrorView::UnknownTag { tag, span }],
        },
    }
}

/// The diagnostics of one node for tag scoping.
pub open spec fn node_tag_errors(
    inventory: TemplateTags,
    env: Option<&EnvironmentInventory>,
    tag_specs: TagSpecs,
    loaded: Seq<LoadStatementView>,
    opaque: Seq<Span>,
    node: Node,
) -> Seq<ErrorView> {
    match node {
        Node::Tag { name, span, .. } => {
            if search_finds(opaque, span.start) || name@ == "load"@ || is_closer(tag_specs.specs@, name@)
                || is_intermediate(tag_specs.specs@, name@) {
                Seq::empty()
            } else {
                let st = state_at(loaded, span.start);
                let e = entries(inventory.tags@);
                tag_error(
                    status_in(available_names(e, st), unavailable_candidates(e, st), name@),
                    env,
                    name@,
                    marker_span(span),
                )
            }
        },
        _ => Seq::empty(),
    }
}

/// The tag scoping diagnostics of `nodes`, in order.
pub open spec fn tag_errors(
    inventory: TemplateTags,
    env: Option<&EnvironmentInventory>,
    tag_specs: TagSpecs,
    loaded: Seq<LoadStatementView>,
    opaque: Seq<Span>,
    nodes: Seq<Node>,
) -> Seq<ErrorView>
    decreases nodes.len(),
{
    if nodes.len() == 0 {
        Seq::empty()
    } else {
        tag_errors(inventory, env, tag_specs, loaded, opaque, nodes.drop_last()) + node_tag_errors(
            inventory,
            env,
            tag_specs,
            loaded,
            opaque,
            nodes.last(),
        )
    }
}

/// Checks every tag of `nodes` against the tags available where it stands:
/// builtins, and the libraries loaded before it.
///
/// Gives `UnknownTag`, `UnloadedTag`, `AmbiguousUnloadedTag`, or
/// `TagNotInInstalledApps` for an unknown tag that the environment defines.
/// Without an inventory there are no diagnostics. Tags in opaque regions, the
/// `load` tag, and closing and intermediate tags are skipped.
pub fn validate_tag_scoping(
    nodes: &Vec<Node>,
    inventory: Option<&TemplateTags>,
    env: Option<&EnvironmentInventory>,
    tag_specs: &TagSpecs,
    opaque_regions: &OpaqueRegions,
) -> (r: Vec<ValidationError>)
    ensures
        match inventory {
            None => r@.len() == 0,
            Some(inv) => error_views(r@) == tag_errors(
                *inv,
                env,
                *tag_specs,
                load_statements(nodes@),
                opaque_regions@,
                nodes@,
            ),
        },
{
    let inventory = match inventory {
        Some(inv) => inv,
        None => return Vec::new(),
    };
    let loaded = compute_loaded_libraries(nodes);
    let mut errors: Vec<ValidationError> = Vec::new();
    let mut i: usize = 0;
    while i < nodes.len()
        invariant
            i <= nodes.len(),
            loaded@ == load_statements(nodes@),
            error_views(errors@) == tag_errors(
                *inventory,
                env,
                *tag_specs,
                loaded@,
                opaque_regions@,
                nodes@.take(i as int),
            ),
        decreases nodes.len() - i,
    {
        assert(nodes@.take(i + 1).drop_last() =~= nodes@.take(i as int));
        let ghost before = errors@;
        let ghost node = nodes@[i as int];
        match &nodes[i] {
            Node::Tag { name, span, .. } => {
                if !opaque_regions.is_opaque(span.start) && !str_eq(name.as_str(), "load")
                    && !is_closer_or_intermediate(name.as_str(), tag_specs) {
                    let marker = span.expand(TAG_DELIMITER_LENGTH, TAG_DELIMITER_LENGTH);
                    let symbols = AvailableSymbols::at_position(&loaded, inventory, span.start);
                    match symbols.check(name.as_str()) {
                        TagAvailability::Available => {},
                        TagAvailability::Unknown => {
                            let found = match env {
                                Some(e) => first_symbol_named(&e.tags, name.as_str()),
                                None => None,
                            };
                            match found {
                                Some(sym) => {
                                    errors.push(
                                        ValidationError::TagNotInInstalledApps {
                                            tag: name.clone(),
                                            app: sym.app_module.clone(),
                                            load_name: sym.library_load_name.clone(),
                                            span: marker,
                                        },
                                    );
                                },
                                None => {
                                    errors.push(
                                        ValidationError::UnknownTag { tag: name.clone(), span: marker },
                                    );
                                },
                            }
                        },
                        TagAvailability::Unloaded { library } => {
                            errors.push(
                                ValidationError::UnloadedTag { tag: name.clone(), library, span: marker },
                            );
                        },
                        TagAvailability::AmbiguousUnloaded { libraries } => {
                            errors.push(
                                ValidationError::AmbiguousUnloadedTag {
                                    tag: name.clone(),
                                    libraries,
                                    span: marker,
                                },
                            );
                        },
                    }
                }
            },
            _ => {},
        }
        assert(error_views(errors@) =~= error_views(before) + node_tag_errors(
            *inventory,
            env,
            *tag_specs,
            loaded@,
            opaque_regions@,
            node,
        ));
        i = i + 1;
    }
    assert(nodes@.take(nodes.len() as int) =~= nodes@);
    errors
}

/// The diagnostic for a filter with availability `status`, if any.
pub open spec fn filter_error(
    status: Status,
    env: Option<&EnvironmentInventory>,
    filter: Seq<char>,
    span: Span,
) -> Seq<ErrorView> {
    match status {
        Status::Available => Seq::empty(),
        Status::Unloaded(library) => seq![ErrorView::UnloadedFilter { filter, library, span }],
        Status::AmbiguousUnloaded(libraries) => seq![
            ErrorView::AmbiguousUnloadedFilter { filter, libraries, span },
        ],
        Status::Unknown => match env {
            Some(e) => match first_named(e.filters@, filter) {
                Some(sym) => seq![
                    ErrorView::FilterNotInInstalledApps {
                        filter,
                        app: sym.app_module@,
                        load_name: sym.library_load_name@,
                        span,
                    },
                ],
                None => seq![ErrorView::UnknownFilter { filter, span }],
            },
            None => seq![ErrorView::UnknownFilter { filter, span }],
        },
    }
}

/// The diagnostics of the filters `fs` of one variable node, in load state `st`.
pub open spec fn filter_list_errors(
    inventory: TemplateTags,
    env: Option<&EnvironmentInventory>,
    st: crate::load::LoadStateView,
    fs: Seq<Filter>,
) -> Seq<ErrorView>
    decreases fs.len(),
{
    if fs.len() == 0 {
        Seq::empty()
    } else {
        let f = fs.last();
        let e = entries(inventory.filters@);
        filter_list_errors(inventory, env, st, fs.drop_last()) + filter_error(
            status_in(available_names(e, st), unavailable_candidates(e, st), f.name@),
            env,
            f.name@,
            f.span,
        )
    }
}

/// The diagnostics of one node for filter scoping.
pub open spec fn node_filter_errors(
    inventory: TemplateTags,
    env: Option<&EnvironmentInventory>,
    loaded: Seq<LoadStatementView>,
    opaque: Seq<Span>,
    node: Node,
) -> Seq<ErrorView> {
    match node {
        Node::Variable { filters, span, .. } => {
            if search_finds(opaque, span.start) {
                Seq::empty()
            } else {
                filter_list_errors(inventory, env, state_at(loaded, span.start), filters@)
            }
        },
        _ => Seq::empty(),
    }
}

/// The filter scoping diagnostics of `nodes`, in order.
pub open spec fn filter_errors(
    inventory: TemplateTags,
    env: Option<&EnvironmentInventory>,
    loaded: Seq<LoadStatementView>,
    opaque: Seq<Span>,
    nodes: Seq<Node>,
) -> Seq<ErrorView>
    decreases nodes.len(),
{
    if nodes.len() == 0 {
        Seq::empty()
    } else {
        filter_errors(inventory, env, loaded, opaque, nodes.drop_last()) + node_filter_errors(
            inventory,
            env,
            loaded,
            opaque,
            nodes.last(),
        )
    }
}

/// Checks every filter of every variable node against the filters available
/// where the node stands.
///
/// Gives `UnknownFilter`, `UnloadedFilter`, `AmbiguousUnloadedFilter`, or
/// `FilterNotInInstalledApps` for an unknown filter that the environment
/// defines, each at the filter's span. Without an inventory there are no
/// diagnostics; variable nodes in opaque regions are skipped.
pub fn validate_filter_scoping(
    nodes: &Vec<Node>,
    inventory: Option<&TemplateTags>,
    env: Option<&EnvironmentInventory>,
    opaque_regions: &OpaqueRegions,
) -> (r: Vec<ValidationError>)
    ensures
        match inventory {
            None => r@.len() == 0,
            Some(inv) => error_views(r@) == filter_errors(
                *inv,
                env,
                load_statements(nodes@),
                opaque_regions@,
                nodes@,
            ),
        },
{
    let inventory = match inventory {
        Some(inv) => inv,
        None => return Vec::new(),
    };
    let loaded = compute_loaded_libraries(nodes);
    let mut errors: Vec<ValidationError> = Vec::new();
    let mut i: usize = 0;
    while i < nodes.len()
        invariant
            i <= nodes.len(),
            loaded@ == load_statements(nodes@),
            error_views(errors@) == filter_errors(
                *inventory,
                env,
                loaded@,
                opaque_regions@,
                nodes@.take(i as int),
            ),
        decreases nodes.len() - i,
    {
        assert(nodes@.take(i + 1).drop_last() =~= nodes@.take(i as int));
        let ghost before = errors@;
        let ghost node = nodes@[i as int];
        match &nodes[i] {
            Node::Variable { filters, span, .. } => {
                if !opaque_regions.is_opaque(span.start) {
                    let symbols = AvailableSymbols::at_position(&loaded, inventory, span.start);
                    let ghost st = state_at(loaded@, span.start);
                    let mut k: usize = 0;
                    while k < filters.len()
                        invariant
                            k <= filters.len(),
                            symbols.wf(),
                            symbols@ == crate::symbols::symbols_for(*inventory, st),
                            error_views(errors@) == error_views(before) + filter_list_errors(
                                *inventory,
                                env,
                                st,
                                filters@.take(k as int),
                            ),
                        decreases filters.len() - k,
                    {
                        assert(filters@.take(k + 1).drop_last() =~= filters@.take(k as int));
                        let ghost mid = errors@;
                        let filter = &filters[k];
                        match symbols.check_filter(filter.name.as_str()) {
                            FilterAvailability::Available => {},
                            FilterAvailability::Unknown => {
                                let found = match env {
                                    Some(e) => first_symbol_named(&e.filters, filter.name.as_str()),
                                    None => None,
                                };
                                match found {
                                    Some(sym) => {
                                        errors.push(
                                            ValidationError::FilterNotInInstalledApps {
                                                filter: filter.name.clone(),
                                                app: sym.app_module.clone(),
                                                load_name: sym.library_load_name.clone(),
                                                span: filter.span,
                                            },
                                        );
                                    },
                                    None => {
                                        errors.push(
                                            ValidationError::UnknownFilter {
                                                filter: filter.name.clone(),
                                                span: filter.span,
                                            },
                                        );
                                    },
                                }
                            },
                            FilterAvailability::Unloaded { library } => {
                                errors.push(
                                    ValidationError::UnloadedFilter {
                                        filter: filter.name.clone(),
                                        library,
                                        span: filter.span,
                                    },
                                );
                            },
                            FilterAvailability::AmbiguousUnloaded { libraries } => {
                                errors.push(
                                    ValidationError::AmbiguousUnloadedFilter {
                                        filter: filter.name.clone(),
                                        libraries,
                                        span: filter.span,
                                    },
                                );
                            },
                        }
                        assert(error_views(errors@) =~= error_views(mid) + filter_list_errors(
                            *inventory,
                            env,
                            st,
                            filters@.take(k + 1),
                        ).subrange(
                            filter_list_errors(*inventory, env, st, filters@.take(k as int)).len() as int,
                            filter_list_errors(*inventory, env, st, filters@.take(k + 1)).len() as int,
                        ));
                        k = k + 1;
                    }
                    assert(filters@.take(filters.len() as int) =~= filters@);
                }
            },
            _ => {},
        }
        assert(error_views(errors@) =~= error_views(before) + node_filter_errors(
            *inventory,
            env,
            loaded@,
            opaque_regions@,
            node,
        ));
        i = i + 1;
    }
    assert(nodes@.take(nodes.len() as int) =~= nodes@);
    errors
}

/// The libraries a `{% load %}` statement names.
pub open spec fn named_libraries(kind: LoadKindView) -> Seq<Seq<char>> {
    match kind {
        LoadKindView::FullLoad { libraries } => libraries,
        LoadKindView::SelectiveImport { library, .. } => seq![library],
    }
}

/// The diagnostic for loading `library`, if any: none for a library of the
/// inventory; one naming the apps when the environment defines it; else unknown.
pub open spec fn library_error(
    inventory: TemplateTags,
    env: Option<&EnvironmentInventory>,
    library: Seq<char>,
    span: Span,
) -> Seq<ErrorView> {
    if inventory.library_names().contains(library) {
        Seq::empty()
    } else {
        match env {
            Some(e) => {
                let apps = apps_for_library(e.libraries@, library);
                if apps.len() > 0 {
                    seq![
                        ErrorView::LibraryNotInInstalledApps {
                            name: library,
                            app: apps[0],
                            candidates: apps,
                            span,
                        },
                    ]
                } else {
                    seq![ErrorView::UnknownLibrary { name: library, span }]
                }
            },
            None => seq![ErrorView::UnknownLibrary { name: library, span }],
        }
    }
}

/// The diagnostics for loading each of `libraries`, in order.
pub open spec fn library_list_errors(
    inventory: TemplateTags,
    env: Option<&EnvironmentInventory>,
    libraries: Seq<Seq<char>>,
    span: Span,
) -> Seq<ErrorView>
    decreases libraries.len(),
{
    if libraries.len() == 0 {
        Seq::empty()
    } else {
        library_list_errors(inventory, env, libraries.drop_last(), span) + library_error(
            inventory,
            env,
            libraries.last(),
            span,
        )
    }
}

/// The diagnostics of one node for `{% load %}` libraries.
pub open spec fn node_library_errors(
    inventory: TemplateTags,
    env: Option<&EnvironmentInventory>,
    opaque: Seq<Span>,
    node: Node,
) -> Seq<ErrorView> {
    match node {
        Node::Tag { name, bits, span } => {
            if name@ != "load"@ || search_finds(opaque, span.start) {
                Seq::empty()
            } else {
                match load_bits_meaning(views(bits@)) {
                    Some(kind) => library_list_errors(
                        inventory,
                        env,
                        named_libraries(kind),
                        marker_span(span),
                    ),
                    None => Seq::empty(),
                }
            }
        },
        _ => Seq::empty(),
    }
}

/// The `{% load %}` library diagnostics of `nodes`, in order.
pub open spec fn library_errors(
    inventory: TemplateTags,
    env: Option<&EnvironmentInventory>,
    opaque: Seq<Span>,
    nodes: Seq<Node>,
) -> Seq<ErrorView>
    decreases nodes.len(),
{
    if nodes.len() == 0 {
        Seq::empty()
    } else {
        library_errors(inventory, env, opaque, nodes.drop_last()) + node_library_errors(
            inventory,
            env,
            opaque,
            nodes.last(),
        )
    }
}

/// Appends the diagnostics for loading each of `libraries`.
fn check_libraries(
    inventory: &TemplateTags,
    env: Option<&EnvironmentInventory>,
    libraries: &Vec<String>,
    span: Span,
    errors: &mut Vec<ValidationError>,
)
    ensures
        error_views(final(errors)@) == error_views(old(errors)@) + library_list_errors(
            *inventory,
            env,
            views(libraries@),
            span,
        ),
{
    let ghost start = errors@;
    let mut k: usize = 0;
    while k < libraries.len()
        invariant
            k <= libraries.len(),
            error_views(errors@) == error_views(start) + library_list_errors(
                *inventory,
                env,
                views(libraries@).take(k as int),
                span,
            ),
        decreases libraries.len() - k,
    {
        assert(views(libraries@).take(k + 1).drop_last() =~= views(libraries@).take(k as int));
        assert(views(libraries@).take(k + 1).last() == libraries@[k as int]@);
        let ghost mid = errors@;
        let lib_name = libraries[k].as_str();
        if !inventory.has_library(lib_name) {
            let candidates = match env {
                Some(e) => e.libraries_for_name(lib_name),
                None => Vec::new(),
            };
            if candidates.len() > 0 {
                let app = candidates[0].clone();
                errors.push(
                    ValidationError::LibraryNotInInstalledApps {
                        name: lib_name.to_string(),
                        app,
                        candidates,
                        span,
                    },
                );
            } else {
                errors.push(ValidationError::UnknownLibrary { name: lib_name.to_string(), span });
            }
        }
        assert(error_views(errors@) =~= error_views(mid) + library_error(
            *inventory,
            env,
            libraries@[k as int]@,
            span,
        ));
        k = k + 1;
    }
    assert(views(libraries@).take(libraries.len() as int) =~= views(libraries@));
}

/// Checks the library names of every `{% load %}` tag: each must be a library
/// of the inventory.
///
/// Gives `LibraryNotInInstalledApps` with the defining apps when the
/// environment defines the library, else `UnknownLibrary`; both point at the
/// tag. Full loads check every library; selective imports the one after `from`.
/// Without an inventory there are no diagnostics; tags in opaque regions and
/// malformed loads are skipped.
pub fn validate_load_libraries(
    nodes: &Vec<Node>,
    inventory: Option<&TemplateTags>,
    env: Option<&EnvironmentInventory>,
    opaque_regions: &OpaqueRegions,
) -> (r: Vec<ValidationError>)
    ensures
        match inventory {
            None => r@.len() == 0,
            Some(inv) => error_views(r@) == library_errors(*inv, env, opaque_regions@, nodes@),
        },
{
    let inventory = match inventory {
        Some(inv) => inv,
        None => return Vec::new(),
    };
    let mut errors: Vec<ValidationError> = Vec::new();
    let mut i: usize = 0;
    while i < nodes.len()
        invariant
            i <= nodes.len(),
            error_views(errors@) == library_errors(
                *inventory,
                env,
                opaque_regions@,
                nodes@.take(i as int),
            ),
        decreases nodes.len() - i,
    {
        assert(nodes@.take(i + 1).drop_last() =~= nodes@.take(i as int));
        let ghost before = errors@;
        let ghost node = nodes@[i as int];
        match &nodes[i] {
            Node::Tag { name, bits, span } => {
                if str_eq(name.as_str(), "load") && !opaque_regions.is_opaque(span.start) {
                    let parsed = parse_load_bits(bits.as_slice());
                    match parsed {
                        Some(kind) => {
                            let marker = span.expand(TAG_DELIMITER_LENGTH, TAG_DELIMITER_LENGTH);
                            match kind {
                                LoadKind::FullLoad { libraries } => {
                                    check_libraries(inventory, env, &libraries, marker, &mut errors);
                                },
                                LoadKind::SelectiveImport { library, .. } => {
                                    let one = vec![library];
                                    assert(views(one@) =~= seq![library@]);
                                    check_libraries(inventory, env, &one, marker, &mut errors);
                                },
                            }
                        },
                        None => {},
                    }
                }
            },
            _ => {},
        }
        assert(error_views(errors@) =~= error_views(before) + node_library_errors(
            *inventory,
            env,
            opaque_regions@,
            node,
        ));
        i = i + 1;
    }
    assert(nodes@.take(nodes.len() as int) =~= nodes@);
    errors
}

} // verus!
