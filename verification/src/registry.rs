//! The registry of template libraries of a project: which libraries exist,
//! which are active or builtin, and the tags and filters each defines.
use vstd::prelude::*;

use crate::names::{is_dotted_name, LibraryName, PyModuleName, TemplateSymbolName};
use crate::keyed::{Keyed, keyed_map, keys, put_keyed};
use crate::text::{views, compare_str, lemma_str_lt_asym, lemma_str_lt_irreflexive, lemma_str_lt_trans, str_eq, str_lt};

verus! {

broadcast use vstd::seq::Seq::group_seq_extra;

/// Whether a template symbol is a tag or a filter.
#[derive(Clone, Copy, Debug, PartialEq, Eq, PartialOrd, Ord, Structural)]
pub enum TemplateSymbolKind {
    Tag,
    Filter,
}

/// The order of kinds: tags before filters.
pub open spec fn kind_rank(k: TemplateSymbolKind) -> int {
    match k {
        TemplateSymbolKind::Tag => 0,
        TemplateSymbolKind::Filter => 1,
    }
}

fn kind_rank_exec(k: TemplateSymbolKind) -> (r: u8)
    ensures
        r == kind_rank(k),
{
    match k {
        TemplateSymbolKind::Tag => 0,
        TemplateSymbolKind::Filter => 1,
    }
}

/// How well the definition of a symbol is known.
#[derive(Clone, Debug, PartialEq, Eq)]
pub enum SymbolDefinition {
    Exact { file: String },
    Module(PyModuleName),
    LibraryFile(String),
    Unknown,
}

impl SymbolDefinition {
    /// How precise a definition is: exact over module over library file over unknown.
    pub open spec fn rank_spec(&self) -> u8 {
        match self {
            SymbolDefinition::Exact { .. } => 3,
            SymbolDefinition::Module(_) => 2,
            SymbolDefinition::LibraryFile(_) => 1,
            SymbolDefinition::Unknown => 0,
        }
    }

    pub fn rank(&self) -> (r: u8)
        ensures
            r == self.rank_spec(),
    {
        match self {
            SymbolDefinition::Exact { .. } => 3,
            SymbolDefinition::Module(_) => 2,
            SymbolDefinition::LibraryFile(_) => 1,
            SymbolDefinition::Unknown => 0,
        }
    }
}

/// A tag or filter of a library.
#[derive(Clone, Debug, PartialEq, Eq)]
pub struct TemplateSymbol {
    pub kind: TemplateSymbolKind,
    pub name: TemplateSymbolName,
    pub definition: SymbolDefinition,
    pub doc: Option<String>,
}

impl TemplateSymbol {
    pub fn name(&self) -> (r: &str)
        ensures
            r@ == self.name@,
    {
        self.name.as_str()
    }

    pub fn doc(&self) -> (r: Option<&str>)
        ensures
            match r {
                Some(d) => self.doc matches Some(s) && d@ == s@,
                None => self.doc is None,
            },
    {
        match &self.doc {
            Some(d) => Some(d.as_str()),
            None => None,
        }
    }
}

/// What identifies a symbol in a library: its kind and name.
pub open spec fn symbol_key(s: TemplateSymbol) -> (int, Seq<char>) {
    (kind_rank(s.kind), s.name@)
}

/// The order of symbol keys: by kind, then by name.
pub open spec fn key_lt(a: (int, Seq<char>), b: (int, Seq<char>)) -> bool {
    a.0 < b.0 || (a.0 == b.0 && str_lt(a.1, b.1))
}

/// The symbols are strictly increasing by key: sorted, each key once.
pub open spec fn symbols_sorted(s: Seq<TemplateSymbol>) -> bool {
    forall|i: int, j: int| 0 <= i < j < s.len() ==> key_lt(symbol_key(#[trigger] s[i]), symbol_key(#[trigger] s[j]))
}

proof fn lemma_key_lt_trans(a: (int, Seq<char>), b: (int, Seq<char>), c: (int, Seq<char>))
    requires
        key_lt(a, b),
        key_lt(b, c),
    ensures
        key_lt(a, c),
{
    if a.0 == b.0 && b.0 == c.0 {
        lemma_str_lt_trans(a.1, b.1, c.1);
    }
}

proof fn lemma_key_lt_irreflexive(a: (int, Seq<char>))
    ensures
        !key_lt(a, a),
{
    lemma_str_lt_irreflexive(a.1);
}

proof fn lemma_key_lt_asym(a: (int, Seq<char>), b: (int, Seq<char>))
    requires
        key_lt(a, b),
    ensures
        !key_lt(b, a),
{
    if a.0 == b.0 {
        lemma_str_lt_asym(a.1, b.1);
    }
}

/// Compares the keys of two symbols: -1, 0 or 1.
fn compare_keys(a: &TemplateSymbol, b: &TemplateSymbol) -> (r: i8)
    ensures
        r == 0 <==> symbol_key(*a) == symbol_key(*b),
        r < 0 <==> key_lt(symbol_key(*a), symbol_key(*b)),
        r > 0 <==> key_lt(symbol_key(*b), symbol_key(*a)),
{
    let ka = kind_rank_exec(a.kind);
    let kb = kind_rank_exec(b.kind);
    if ka < kb {
        -1
    } else if ka > kb {
        1
    } else {
        let c = compare_str(a.name.as_str(), b.name.as_str());
        proof {
            if c == 0 {
                lemma_str_lt_irreflexive(a.name@);
            }
        }
        c
    }
}

/// `existing` with what `new` adds: its doc when `existing` has none, its
/// definition when that is more precise.
pub open spec fn merged(existing: TemplateSymbol, new: TemplateSymbol) -> TemplateSymbol {
    TemplateSymbol {
        kind: existing.kind,
        name: existing.name,
        definition: if new.definition.rank_spec() > existing.definition.rank_spec() {
            new.definition
        } else {
            existing.definition
        },
        doc: if existing.doc is None {
            new.doc
        } else {
            existing.doc
        },
    }
}

/// Where an active library comes from.
#[derive(Clone, Debug, PartialEq, Eq)]
pub struct LibraryOrigin {
    pub app: PyModuleName,
    pub module: PyModuleName,
    pub path: String,
}

/// Whether a library is loadable (active) or builtin.
#[derive(Clone, Debug, PartialEq, Eq)]
pub enum LibraryStatus {
    Active { module: PyModuleName, origin: Option<LibraryOrigin> },
    Builtin { module: PyModuleName },
}

/// The module a library with status `s` is defined in.
pub open spec fn status_module(s: LibraryStatus) -> PyModuleName {
    match s {
        LibraryStatus::Active { module, .. } => module,
        LibraryStatus::Builtin { module } => module,
    }
}

/// The name, the status and the symbols of a library.
pub type LibraryView = (LibraryName, LibraryStatus, Seq<TemplateSymbol>);

/// A template library and its symbols, sorted by kind and name.
#[derive(Clone, Debug, PartialEq, Eq)]
pub struct TemplateLibrary {
    name: LibraryName,
    status: LibraryStatus,
    symbols: Vec<TemplateSymbol>,
}

impl View for TemplateLibrary {
    type V = (LibraryName, LibraryStatus, Seq<TemplateSymbol>);

    /// The name, the status and the symbols.
    closed spec fn view(&self) -> (LibraryName, LibraryStatus, Seq<TemplateSymbol>) {
        (self.name, self.status, self.symbols@)
    }
}

impl TemplateLibrary {
    pub closed spec fn wf(&self) -> bool {
        symbols_sorted(self.symbols@)
    }

    /// The symbols, sorted by kind and name.
    pub closed spec fn symbols_spec(&self) -> Seq<TemplateSymbol> {
        self.symbols@
    }

    pub closed spec fn name_spec(&self) -> LibraryName {
        self.name
    }

    pub closed spec fn status_spec(&self) -> LibraryStatus {
        self.status
    }

    pub fn name(&self) -> (r: &LibraryName)
        ensures
            *r == self.name_spec(),
    {
        &self.name
    }

    pub fn status(&self) -> (r: &LibraryStatus)
        ensures
            *r == self.status_spec(),
    {
        &self.status
    }

    pub closed spec fn module_spec(&self) -> PyModuleName {
        status_module(self.status)
    }

    pub fn new_active(name: LibraryName, module: PyModuleName, origin: Option<LibraryOrigin>) -> (r:
        TemplateLibrary)
        ensures
            r.wf(),
            r.name_spec() == name,
            r.status_spec() == (LibraryStatus::Active { module, origin }),
            r.symbols_spec().len() == 0,
    {
        TemplateLibrary { name, status: LibraryStatus::Active { module, origin }, symbols: Vec::new() }
    }

    pub fn new_builtin(name: LibraryName, module: PyModuleName) -> (r: TemplateLibrary)
        ensures
            r.wf(),
            r.name_spec() == name,
            r.status_spec() == (LibraryStatus::Builtin { module }),
            r.symbols_spec().len() == 0,
    {
        TemplateLibrary { name, status: LibraryStatus::Builtin { module }, symbols: Vec::new() }
    }

    pub fn symbols(&self) -> (r: &Vec<TemplateSymbol>)
        ensures
            r@ == self.symbols_spec(),
    {
        &self.symbols
    }

    pub fn module(&self) -> (r: &PyModuleName)
        ensures
            *r == self.module_spec(),
    {
        match &self.status {
            LibraryStatus::Active { module, .. } => module,
            LibraryStatus::Builtin { module } => module,
        }
    }

    pub fn origin(&self) -> (r: Option<&LibraryOrigin>)
        ensures
            match r {
                Some(o) => self.status_spec() matches LibraryStatus::Active { origin, .. } && origin
                    == Some(*o),
                None => !(self.status_spec() matches LibraryStatus::Active { origin, .. } && origin is Some),
            },
    {
        match &self.status {
            LibraryStatus::Active { origin, .. } => match origin {
                Some(o) => Some(o),
                None => None,
            },
            LibraryStatus::Builtin { .. } => None,
        }
    }

    /// Every library is active: loadable libraries and builtins alike.
    pub fn is_active(&self) -> (r: bool)
        ensures
            r,
    {
        match &self.status {
            LibraryStatus::Active { .. } => true,
            LibraryStatus::Builtin { .. } => true,
        }
    }

    /// Adds `new_symbol`: when a symbol of that kind and name is there, it
    /// takes the new doc if it had none and the new definition if that is more
    /// precise; otherwise the symbol is added in its sorted place.
    pub fn merge_symbol(&mut self, new_symbol: TemplateSymbol)
        requires
            old(self).wf(),
        ensures
            final(self).wf(),
            final(self).name_spec() == old(self).name_spec(),
            final(self).status_spec() == old(self).status_spec(),
            match find_key(old(self).symbols_spec(), symbol_key(new_symbol)) {
                Some(i) => final(self).symbols_spec() == old(self).symbols_spec().update(
                    i,
                    merged(old(self).symbols_spec()[i], new_symbol),
                ),
                None => final(self).symbols_spec() == old(self).symbols_spec().insert(
                    insertion_index(old(self).symbols_spec(), symbol_key(new_symbol)),
                    new_symbol,
                ),
            },
    {
        let ghost s = self.symbols@;
        let ghost key = symbol_key(new_symbol);
        let mut i: usize = 0;
        while i < self.symbols.len()
            invariant
                i <= self.symbols.len(),
                *self == *old(self),
                self.symbols@ == s,
                s == old(self).symbols@,
                key == symbol_key(new_symbol),
                symbols_sorted(s),
                forall|j: int| 0 <= j < i ==> key_lt(symbol_key(#[trigger] s[j]), key),
            ensures
                i <= s.len(),
                *self == *old(self),
                self.symbols@ == s,
                forall|j: int| 0 <= j < i ==> key_lt(symbol_key(#[trigger] s[j]), key),
                i < s.len() ==> key_lt(key, symbol_key(s[i as int])),
            decreases self.symbols.len() - i,
        {
            let c = compare_keys(&self.symbols[i], &new_symbol);
            if c == 0 {
                proof {
                    lemma_find_key_at(s, key, i as int);
                }
                let existing = self.symbols.remove(i);
                let definition = if new_symbol.definition.rank() > existing.definition.rank() {
                    new_symbol.definition
                } else {
                    existing.definition
                };
                let doc = if existing.doc.is_none() {
                    new_symbol.doc
                } else {
                    existing.doc
                };
                let m = TemplateSymbol { kind: existing.kind, name: existing.name, definition, doc };
                self.symbols.insert(i, m);
                assert(self.symbols@ =~= s.update(i as int, merged(s[i as int], new_symbol)));
                assert forall|a: int, b: int| 0 <= a < b < self.symbols@.len() implies key_lt(
                    symbol_key(#[trigger] self.symbols@[a]),
                    symbol_key(#[trigger] self.symbols@[b]),
                ) by {
                    assert(symbol_key(self.symbols@[a]) == symbol_key(s[a]));
                    assert(symbol_key(self.symbols@[b]) == symbol_key(s[b]));
                }
                return ;
            }
            if c > 0 {
                break ;
            }
            i = i + 1;
        }
        proof {
            lemma_insertion_point(s, key, i as int);
        }
        self.symbols.insert(i, new_symbol);
        assert(self.symbols@ =~= s.insert(i as int, new_symbol));
        assert forall|a: int, b: int| 0 <= a < b < self.symbols@.len() implies key_lt(
            symbol_key(#[trigger] self.symbols@[a]),
            symbol_key(#[trigger] self.symbols@[b]),
        ) by {
            let sa = symbol_key(self.symbols@[a]);
            let sb = symbol_key(self.symbols@[b]);
            if b < i {
                assert(sa == symbol_key(s[a]) && sb == symbol_key(s[b]));
            } else if b == i {
                assert(sa == symbol_key(s[a]));
            } else if a < i {
                assert(sa == symbol_key(s[a]) && sb == symbol_key(s[b - 1]));
                lemma_key_lt_trans(sa, key, sb);
            } else if a == i {
                assert(sb == symbol_key(s[b - 1]));
            } else {
                assert(sa == symbol_key(s[a - 1]) && sb == symbol_key(s[b - 1]));
            }
        }
    }

    /// Adds each of `symbols` in turn, as [`TemplateLibrary::merge_symbol`]
    /// does (see [`merged_all`]).
    pub fn merge_symbols(&mut self, symbols: Vec<TemplateSymbol>)
        requires
            old(self).wf(),
        ensures
            final(self).wf(),
            final(self).name_spec() == old(self).name_spec(),
            final(self).status_spec() == old(self).status_spec(),
            final(self).symbols_spec() == merged_all(old(self).symbols_spec(), symbols@),
    {
        let mut rest = symbols;
        while rest.len() > 0
            invariant
                self.wf(),
                self.name_spec() == old(self).name_spec(),
                self.status_spec() == old(self).status_spec(),
                merged_all(self.symbols_spec(), rest@) == merged_all(old(self).symbols_spec(), symbols@),
            decreases rest@.len(),
        {
            let ghost before = rest@;
            let s = rest.remove(0);
            assert(rest@ =~= before.drop_first());
            self.merge_symbol(s);
        }
    }
}

/// The symbols after one [`TemplateLibrary::merge_symbol`] of `new_symbol`:
/// the one with its key merged with it, else it inserted in its sorted place.
pub open spec fn merge_step(s: Seq<TemplateSymbol>, new_symbol: TemplateSymbol) -> Seq<TemplateSymbol> {
    match find_key(s, symbol_key(new_symbol)) {
        Some(i) => s.update(i, merged(s[i], new_symbol)),
        None => s.insert(insertion_index(s, symbol_key(new_symbol)), new_symbol),
    }
}

/// The symbols after merging each of `symbols` in turn.
pub open spec fn merged_all(s: Seq<TemplateSymbol>, symbols: Seq<TemplateSymbol>) -> Seq<TemplateSymbol>
    decreases symbols.len(),
{
    if symbols.len() == 0 {
        s
    } else {
        merged_all(merge_step(s, symbols[0]), symbols.drop_first())
    }
}

/// The index of the symbol with key `key`, if any.
pub open spec fn find_key(s: Seq<TemplateSymbol>, key: (int, Seq<char>)) -> Option<int> {
    if exists|i: int| 0 <= i < s.len() && symbol_key(#[trigger] s[i]) == key {
        Some(choose|i: int| 0 <= i < s.len() && symbol_key(#[trigger] s[i]) == key)
    } else {
        None
    }
}

/// The number of symbols whose key is below `key`: where a symbol with that key goes.
pub open spec fn insertion_index(s: Seq<TemplateSymbol>, key: (int, Seq<char>)) -> int {
    s.filter(|t: TemplateSymbol| key_lt(symbol_key(t), key)).len() as int
}

proof fn lemma_find_key_at(s: Seq<TemplateSymbol>, key: (int, Seq<char>), i: int)
    requires
        symbols_sorted(s),
        0 <= i < s.len(),
        symbol_key(s[i]) == key,
    ensures
        find_key(s, key) == Some(i),
{
    let j = choose|j: int| 0 <= j < s.len() && symbol_key(#[trigger] s[j]) == key;
    if j < i {
        assert(key_lt(symbol_key(s[j]), symbol_key(s[i])));
        lemma_key_lt_irreflexive(key);
    } else if j > i {
        assert(key_lt(symbol_key(s[i]), symbol_key(s[j])));
        lemma_key_lt_irreflexive(key);
    }
}

proof fn lemma_filter_prefix(s: Seq<TemplateSymbol>, key: (int, Seq<char>), i: int)
    requires
        0 <= i <= s.len(),
        forall|j: int| 0 <= j < i ==> key_lt(symbol_key(#[trigger] s[j]), key),
        forall|j: int| i <= j < s.len() ==> !key_lt(symbol_key(#[trigger] s[j]), key),
    ensures
        s.filter(|t: TemplateSymbol| key_lt(symbol_key(t), key)).len() == i,
    decreases s.len(),
{
    let f = |t: TemplateSymbol| key_lt(symbol_key(t), key);
    if s.len() == 0 {
    } else {
        let last = s.len() - 1;
        assert(s.drop_last() =~= s.subrange(0, last));
        if i == s.len() {
            lemma_filter_prefix(s.drop_last(), key, i - 1);
            assert(f(s.last()));
        } else {
            lemma_filter_prefix(s.drop_last(), key, i);
            assert(!f(s.last()));
        }
        s.filter_lemma(f);
        assert(s.filter(f) == s.drop_last().filter(f) + if f(s.last()) {
            seq![s.last()]
        } else {
            Seq::empty()
        }) by {
            reveal(Seq::filter);
        }
    }
}

proof fn lemma_insertion_point(s: Seq<TemplateSymbol>, key: (int, Seq<char>), i: int)
    requires
        symbols_sorted(s),
        0 <= i <= s.len(),
        forall|j: int| 0 <= j < i ==> key_lt(symbol_key(#[trigger] s[j]), key),
        i < s.len() ==> key_lt(key, symbol_key(s[i])),
    ensures
        find_key(s, key) is None,
        insertion_index(s, key) == i,
        forall|j: int| i <= j < s.len() ==> key_lt(key, symbol_key(#[trigger] s[j])),
{
    assert forall|j: int| i <= j < s.len() implies key_lt(key, symbol_key(#[trigger] s[j])) by {
        if j > i {
            assert(key_lt(symbol_key(s[i]), symbol_key(s[j])));
            lemma_key_lt_trans(key, symbol_key(s[i]), symbol_key(s[j]));
        }
    }
    assert forall|j: int| 0 <= j < s.len() implies symbol_key(#[trigger] s[j]) != key by {
        if j < i {
            lemma_key_lt_irreflexive(key);
        } else {
            lemma_key_lt_irreflexive(key);
        }
    }
    assert forall|j: int| i <= j < s.len() implies !key_lt(symbol_key(#[trigger] s[j]), key) by {
        lemma_key_lt_asym(key, symbol_key(s[j]));
    }
    lemma_filter_prefix(s, key, i);
}

impl SymbolDefinition {
    pub fn duplicate(&self) -> (r: SymbolDefinition)
        ensures
            r == *self,
    {
        match self {
            SymbolDefinition::Exact { file } => SymbolDefinition::Exact { file: file.clone() },
            SymbolDefinition::Module(m) => SymbolDefinition::Module(m.duplicate()),
            SymbolDefinition::LibraryFile(f) => SymbolDefinition::LibraryFile(f.clone()),
            SymbolDefinition::Unknown => SymbolDefinition::Unknown,
        }
    }
}

impl TemplateSymbol {
    pub fn duplicate(&self) -> (r: TemplateSymbol)
        ensures
            r == *self,
    {
        TemplateSymbol {
            kind: self.kind,
            name: self.name.duplicate(),
            definition: self.definition.duplicate(),
            doc: match &self.doc {
                Some(d) => Some(d.clone()),
                None => None,
            },
        }
    }
}

/// How much of a project's template libraries is known.
#[derive(Clone, Copy, Debug, PartialEq, Eq, Structural)]
pub enum StaticKnowledge {
    Known,
    Partial,
    Unknown,
}

/// Where an installed tag or filter comes from.
#[derive(Clone, Debug, PartialEq, Eq)]
pub enum InstalledSymbolOrigin {
    Builtin { module: PyModuleName },
    Loadable { load_name: LibraryName },
}

/// A tag or filter that an installed library offers.
#[derive(Clone, Debug, PartialEq, Eq)]
pub struct InstalledSymbolCandidate {
    pub symbol: TemplateSymbol,
    pub origin: InstalledSymbolOrigin,
}

/// The template libraries of a project: loadable libraries by load name (in
/// name order, several per name possible), builtin libraries by module, and the
/// order in which builtins apply.
#[derive(Clone, Debug, PartialEq, Eq)]
pub struct TemplateLibraries {
    knowledge: StaticKnowledge,
    loadable: Vec<(LibraryName, Vec<TemplateLibrary>)>,
    builtins: Vec<(PyModuleName, TemplateLibrary)>,
    builtin_order: Vec<PyModuleName>,
}

pub open spec fn loadable_names(v: Seq<(LibraryName, Vec<TemplateLibrary>)>) -> Seq<Seq<char>> {
    v.map_values(|e: (LibraryName, Vec<TemplateLibrary>)| e.0@)
}

pub open spec fn builtin_keys(v: Seq<(PyModuleName, TemplateLibrary)>) -> Seq<Seq<char>> {
    v.map_values(|e: (PyModuleName, TemplateLibrary)| e.0@)
}

pub open spec fn module_views(v: Seq<PyModuleName>) -> Seq<Seq<char>> {
    v.map_values(|m: PyModuleName| m@)
}

impl TemplateLibraries {
    pub closed spec fn wf(&self) -> bool {
        &&& crate::text::strictly_sorted(loadable_names(self.loadable@))
        &&& crate::text::no_dups(builtin_keys(self.builtins@))
    }

    pub closed spec fn knowledge_spec(&self) -> StaticKnowledge {
        self.knowledge
    }

    /// The loadable libraries by load name, in name order.
    pub closed spec fn loadable_spec(&self) -> Seq<(LibraryName, Vec<TemplateLibrary>)> {
        self.loadable@
    }

    /// The builtin libraries by module, in module order.
    pub closed spec fn builtins_spec(&self) -> Seq<(PyModuleName, TemplateLibrary)> {
        self.builtins@
    }

    pub closed spec fn builtin_order_spec(&self) -> Seq<PyModuleName> {
        self.builtin_order@
    }

    /// No libraries, with `knowledge`.
    pub fn new(knowledge: StaticKnowledge) -> (r: TemplateLibraries)
        ensures
            r.wf(),
            r.knowledge_spec() == knowledge,
            r.loadable_spec().len() == 0,
            r.builtins_spec().len() == 0,
            r.builtin_order_spec().len() == 0,
    {
        TemplateLibraries {
            knowledge,
            loadable: Vec::new(),
            builtins: Vec::new(),
            builtin_order: Vec::new(),
        }
    }

    pub fn knowledge(&self) -> (r: StaticKnowledge)
        ensures
            r == self.knowledge_spec(),
    {
        self.knowledge
    }

    /// The index of the loadable entry for `name`.
    fn find_loadable(&self, name: &str) -> (r: Option<usize>)
        ensures
            match r {
                Some(i) => i < self.loadable@.len() && self.loadable@[i as int].0@ == name@,
                None => !loadable_names(self.loadable@).contains(name@),
            },
    {
        let mut i: usize = 0;
        while i < self.loadable.len()
            invariant
                i <= self.loadable.len(),
                forall|j: int| 0 <= j < i ==> self.loadable@[j].0@ != name@,
            decreases self.loadable.len() - i,
        {
            if str_eq(self.loadable[i].0.as_str(), name) {
                return Some(i);
            }
            i = i + 1;
        }
        assert forall|j: int| 0 <= j < loadable_names(self.loadable@).len() implies loadable_names(
            self.loadable@,
        )[j] != name@ by {
            assert(loadable_names(self.loadable@)[j] == self.loadable@[j].0@);
        }
        None
    }

    /// The index of the builtin entry for `module`.
    fn find_builtin(&self, module: &str) -> (r: Option<usize>)
        ensures
            match r {
                Some(i) => i < self.builtins@.len() && self.builtins@[i as int].0@ == module@,
                None => !builtin_keys(self.builtins@).contains(module@),
            },
    {
        let mut i: usize = 0;
        while i < self.builtins.len()
            invariant
                i <= self.builtins.len(),
                forall|j: int| 0 <= j < i ==> self.builtins@[j].0@ != module@,
            decreases self.builtins.len() - i,
        {
            if str_eq(self.builtins[i].0.as_str(), module) {
                return Some(i);
            }
            i = i + 1;
        }
        assert forall|j: int| 0 <= j < builtin_keys(self.builtins@).len() implies builtin_keys(
            self.builtins@,
        )[j] != module@ by {
            assert(builtin_keys(self.builtins@)[j] == self.builtins@[j].0@);
        }
        None
    }

    /// Adds a loadable library under `name`, after those already there.
    pub fn add_loadable(&mut self, name: LibraryName, library: TemplateLibrary)
        requires
            old(self).wf(),
        ensures
            final(self).wf(),
            final(self).knowledge_spec() == old(self).knowledge_spec(),
            final(self).builtins_spec() == old(self).builtins_spec(),
            final(self).builtin_order_spec() == old(self).builtin_order_spec(),
            loadable_added(old(self).loadable_spec(), final(self).loadable_spec(), name@, library),
    {
        match self.find_loadable(name.as_str()) {
            Some(i) => {
                let ghost before = self.loadable@;
                let (n, mut libs) = self.loadable.remove(i);
                libs.push(library);
                self.loadable.insert(i, (n, libs));
                proof {
                    assert(self.loadable@ =~= before.update(i as int, (n, libs)));
                    lemma_libraries_named(before, i as int);
                    lemma_loadable_update(before, i as int, (n, libs));
                    assert(loadable_names(before)[i as int] == name@);
                    assert(loadable_names(before).to_set().insert(name@) =~= loadable_names(
                        before,
                    ).to_set());
                }
            },
            None => {
                let ghost before = self.loadable@;
                let pos = self.loadable_insert_position(name.as_str());
                let libs = vec![library];
                self.loadable.insert(pos, (name, libs));
                proof {
                    lemma_insert_sorted_names(before, pos as int, self.loadable@);
                    lemma_libraries_named_missing(before, name@);
                    assert(libs@ =~= Seq::<TemplateLibrary>::empty().push(library));
                    lemma_loadable_insert(before, pos as int, self.loadable@);
                }
            },
        }
    }

    /// Where an entry for `name` goes among the loadable entries.
    fn loadable_insert_position(&self, name: &str) -> (r: usize)
        requires
            self.wf(),
            !loadable_names(self.loadable@).contains(name@),
        ensures
            r <= self.loadable@.len(),
            forall|j: int| 0 <= j < r ==> str_lt(#[trigger] self.loadable@[j].0@, name@),
            forall|j: int| r <= j < self.loadable@.len() ==> str_lt(name@, #[trigger] self.loadable@[j].0@),
    {
        let mut i: usize = 0;
        while i < self.loadable.len()
            invariant
                i <= self.loadable.len(),
                self.wf(),
                !loadable_names(self.loadable@).contains(name@),
                forall|j: int| 0 <= j < i ==> str_lt(#[trigger] self.loadable@[j].0@, name@),
            ensures
                i <= self.loadable.len(),
                forall|j: int| 0 <= j < i ==> str_lt(#[trigger] self.loadable@[j].0@, name@),
                i < self.loadable.len() ==> str_lt(name@, self.loadable@[i as int].0@),
            decreases self.loadable.len() - i,
        {
            let c = compare_str(self.loadable[i].0.as_str(), name);
            if c > 0 {
                break ;
            }
            assert(loadable_names(self.loadable@)[i as int] == self.loadable@[i as int].0@);
            i = i + 1;
        }
        assert forall|j: int| i <= j < self.loadable@.len() implies str_lt(name@, #[trigger] self.loadable@[j].0@) by {
            if j > i {
                assert(str_lt(loadable_names(self.loadable@)[i as int], loadable_names(self.loadable@)[j]));
                crate::text::lemma_str_lt_trans(name@, self.loadable@[i as int].0@, self.loadable@[j].0@);
            }
        }
        i
    }
}

/// The libraries listed under `name`, if any.
pub open spec fn libraries_named(v: Seq<(LibraryName, Vec<TemplateLibrary>)>, name: Seq<char>) -> Seq<TemplateLibrary> {
    if exists|i: int| 0 <= i < v.len() && (#[trigger] v[i]).0@ == name {
        v[choose|i: int| 0 <= i < v.len() && (#[trigger] v[i]).0@ == name].1@
    } else {
        Seq::empty()
    }
}

proof fn lemma_libraries_named(v: Seq<(LibraryName, Vec<TemplateLibrary>)>, i: int)
    requires
        crate::text::strictly_sorted(loadable_names(v)),
        0 <= i < v.len(),
    ensures
        libraries_named(v, v[i].0@) == v[i].1@,
{
    let k = choose|k: int| 0 <= k < v.len() && (#[trigger] v[k]).0@ == v[i].0@;
    assert(loadable_names(v)[i] == v[i].0@);
    if k != i {
        assert(loadable_names(v)[k] == v[k].0@);
        crate::sorted::lemma_sorted_no_dups(loadable_names(v));
    }
}

proof fn lemma_libraries_named_missing(v: Seq<(LibraryName, Vec<TemplateLibrary>)>, name: Seq<char>)
    requires
        !loadable_names(v).contains(name),
    ensures
        libraries_named(v, name) == Seq::<TemplateLibrary>::empty(),
{
    assert forall|i: int| 0 <= i < v.len() implies (#[trigger] v[i]).0@ != name by {
        assert(loadable_names(v)[i] == v[i].0@);
    }
}

proof fn lemma_insert_sorted_names(
    before: Seq<(LibraryName, Vec<TemplateLibrary>)>,
    pos: int,
    after: Seq<(LibraryName, Vec<TemplateLibrary>)>,
)
    requires
        crate::text::strictly_sorted(loadable_names(before)),
        0 <= pos <= before.len(),
        after.len() == before.len() + 1,
        forall|j: int| 0 <= j < pos ==> after[j] == before[j],
        forall|j: int| pos < j < after.len() ==> after[j] == before[j - 1],
        forall|j: int| 0 <= j < pos ==> str_lt(#[trigger] before[j].0@, after[pos].0@),
        forall|j: int| pos <= j < before.len() ==> str_lt(after[pos].0@, #[trigger] before[j].0@),
    ensures
        crate::text::strictly_sorted(loadable_names(after)),
        loadable_names(after).to_set() == loadable_names(before).to_set().insert(after[pos].0@),
{
    let b = loadable_names(before);
    let a = loadable_names(after);
    assert(a =~= b.insert(pos, after[pos].0@));
    assert forall|i: int, j: int| 0 <= i < j < a.len() implies str_lt(#[trigger] a[i], #[trigger] a[j]) by {
        if j < pos {
            assert(str_lt(b[i], b[j]));
        } else if j == pos {
            assert(a[i] == before[i].0@);
        } else if i < pos {
            assert(a[i] == before[i].0@ && a[j] == before[j - 1].0@);
            crate::text::lemma_str_lt_trans(a[i], after[pos].0@, a[j]);
        } else if i == pos {
            assert(a[j] == before[j - 1].0@);
        } else {
            assert(str_lt(b[i - 1], b[j - 1]));
        }
    }
    crate::sorted::lemma_insert_to_set(b, pos, after[pos].0@);
}

/// `after` is `before` with `library` added under `name`, after the libraries
/// already listed there.
pub open spec fn loadable_added(
    before: Seq<(LibraryName, Vec<TemplateLibrary>)>,
    after: Seq<(LibraryName, Vec<TemplateLibrary>)>,
    name: Seq<char>,
    library: TemplateLibrary,
) -> bool {
    &&& loadable_names(after).to_set() == loadable_names(before).to_set().insert(name)
    &&& forall|n: Seq<char>|
        #[trigger] libraries_named(after, n) == if n == name {
            libraries_named(before, name).push(library)
        } else {
            libraries_named(before, n)
        }
}

proof fn lemma_loadable_update(
    before: Seq<(LibraryName, Vec<TemplateLibrary>)>,
    i: int,
    entry: (LibraryName, Vec<TemplateLibrary>),
)
    requires
        crate::text::strictly_sorted(loadable_names(before)),
        0 <= i < before.len(),
        entry.0@ == before[i].0@,
    ensures
        loadable_names(before.update(i, entry)) == loadable_names(before),
        forall|n: Seq<char>|
            #[trigger] libraries_named(before.update(i, entry), n) == if n == entry.0@ {
                entry.1@
            } else {
                libraries_named(before, n)
            },
{
    let after = before.update(i, entry);
    assert(loadable_names(after) =~= loadable_names(before));
    assert forall|n: Seq<char>| #[trigger] libraries_named(after, n) == if n == entry.0@ {
        entry.1@
    } else {
        libraries_named(before, n)
    } by {
        if n == entry.0@ {
            lemma_libraries_named(after, i);
        } else if exists|j: int| 0 <= j < before.len() && (#[trigger] before[j]).0@ == n {
            let j = choose|j: int| 0 <= j < before.len() && (#[trigger] before[j]).0@ == n;
            assert(j != i);
            assert(after[j] == before[j]);
            lemma_libraries_named(after, j);
            lemma_libraries_named(before, j);
        } else {
            assert forall|j: int| 0 <= j < after.len() implies (#[trigger] after[j]).0@ != n by {
                if j != i {
                    assert(after[j] == before[j]);
                }
            }
        }
    }
}

proof fn lemma_loadable_insert(
    before: Seq<(LibraryName, Vec<TemplateLibrary>)>,
    pos: int,
    after: Seq<(LibraryName, Vec<TemplateLibrary>)>,
)
    requires
        crate::text::strictly_sorted(loadable_names(after)),
        0 <= pos <= before.len(),
        after.len() == before.len() + 1,
        forall|j: int| 0 <= j < pos ==> after[j] == before[j],
        forall|j: int| pos < j < after.len() ==> after[j] == before[j - 1],
    ensures
        forall|n: Seq<char>|
            #[trigger] libraries_named(after, n) == if n == after[pos].0@ {
                after[pos].1@
            } else {
                libraries_named(before, n)
            },
{
    assert forall|n: Seq<char>| #[trigger] libraries_named(after, n) == if n == after[pos].0@ {
        after[pos].1@
    } else {
        libraries_named(before, n)
    } by {
        if n == after[pos].0@ {
            lemma_libraries_named(after, pos);
        } else if exists|j: int| 0 <= j < before.len() && (#[trigger] before[j]).0@ == n {
            let j = choose|j: int| 0 <= j < before.len() && (#[trigger] before[j]).0@ == n;
            let k = if j < pos { j } else { j + 1 };
            assert(after[k] == before[j]);
            lemma_libraries_named(after, k);
            let c = choose|c: int| 0 <= c < before.len() && (#[trigger] before[c]).0@ == n;
            let ck = if c < pos { c } else { c + 1 };
            assert(after[ck] == before[c]);
            assert(loadable_names(after)[k] == n && loadable_names(after)[ck] == n);
            crate::sorted::lemma_sorted_no_dups(loadable_names(after));
        } else {
            assert forall|j: int| 0 <= j < after.len() implies (#[trigger] after[j]).0@ != n by {
                if j < pos {
                    assert(after[j] == before[j]);
                } else if j > pos {
                    assert(after[j] == before[j - 1]);
                }
            }
        }
    }
}

impl LibraryOrigin {
    pub fn duplicate(&self) -> (r: LibraryOrigin)
        ensures
            r == *self,
    {
        LibraryOrigin { app: self.app.duplicate(), module: self.module.duplicate(), path: self.path.clone() }
    }
}

impl LibraryStatus {
    pub fn duplicate(&self) -> (r: LibraryStatus)
        ensures
            r == *self,
    {
        match self {
            LibraryStatus::Active { module, origin } => LibraryStatus::Active {
                module: module.duplicate(),
                origin: match origin {
                    Some(o) => Some(o.duplicate()),
                    None => None,
                },
            },
            LibraryStatus::Builtin { module } => LibraryStatus::Builtin { module: module.duplicate() },
        }
    }
}

impl TemplateLibrary {
    pub fn duplicate(&self) -> (r: TemplateLibrary)
        ensures
            r@ == self@,
    {
        let mut symbols: Vec<TemplateSymbol> = Vec::new();
        let mut i: usize = 0;
        while i < self.symbols.len()
            invariant
                i <= self.symbols.len(),
                symbols@ == self.symbols@.take(i as int),
            decreases self.symbols.len() - i,
        {
            symbols.push(self.symbols[i].duplicate());
            assert(self.symbols@.take(i + 1) =~= self.symbols@.take(i as int).push(self.symbols@[i as int]));
            i = i + 1;
        }
        assert(self.symbols@.take(i as int) =~= self.symbols@);
        proof {
            assert(symbols@ == self.symbols@);
        }
        TemplateLibrary { name: self.name.duplicate(), status: self.status.duplicate(), symbols }
    }
}

/// The builtin library registered for `module`, if any.
pub open spec fn builtin_lookup(v: Seq<(PyModuleName, TemplateLibrary)>, module: Seq<char>) -> Option<TemplateLibrary> {
    if exists|i: int| 0 <= i < v.len() && (#[trigger] v[i]).0@ == module {
        Some(v[choose|i: int| 0 <= i < v.len() && (#[trigger] v[i]).0@ == module].1)
    } else {
        None
    }
}

proof fn lemma_builtin_lookup(v: Seq<(PyModuleName, TemplateLibrary)>, i: int)
    requires
        crate::text::no_dups(builtin_keys(v)),
        0 <= i < v.len(),
    ensures
        builtin_lookup(v, v[i].0@) == Some(v[i].1),
{
    let k = choose|k: int| 0 <= k < v.len() && (#[trigger] v[k]).0@ == v[i].0@;
    assert(builtin_keys(v)[i] == v[i].0@);
    assert(builtin_keys(v)[k] == v[k].0@);
}

proof fn lemma_builtin_lookup_missing(v: Seq<(PyModuleName, TemplateLibrary)>, module: Seq<char>)
    requires
        !builtin_keys(v).contains(module),
    ensures
        builtin_lookup(v, module) is None,
{
    assert forall|i: int| 0 <= i < v.len() implies (#[trigger] v[i]).0@ != module by {
        assert(builtin_keys(v)[i] == v[i].0@);
    }
}

/// The modules of `order` that have a builtin library, each with that library, in order.
pub open spec fn builtin_entries(order: Seq<PyModuleName>, builtins: Seq<(PyModuleName, TemplateLibrary)>) -> Seq<
    (PyModuleName, TemplateLibrary),
>
    decreases order.len(),
{
    if order.len() == 0 {
        Seq::empty()
    } else {
        let rest = builtin_entries(order.drop_last(), builtins);
        match builtin_lookup(builtins, order.last()@) {
            Some(library) => rest.push((order.last(), library)),
            None => rest,
        }
    }
}

/// The libraries by their views.
pub open spec fn library_views(s: Seq<TemplateLibrary>) -> Seq<(LibraryName, LibraryStatus, Seq<TemplateSymbol>)> {
    s.map_values(|l: TemplateLibrary| l@)
}

/// The entries by their views.
pub open spec fn entry_views(s: Seq<(PyModuleName, TemplateLibrary)>) -> Seq<
    (Seq<char>, (LibraryName, LibraryStatus, Seq<TemplateSymbol>)),
> {
    s.map_values(|e: (PyModuleName, TemplateLibrary)| (e.0@, e.1@))
}

/// `v` with `m` appended unless a module of the same name is already there.
pub open spec fn with_module(v: Seq<Seq<char>>, m: Seq<char>) -> Seq<Seq<char>> {
    if v.contains(m) {
        v
    } else {
        v.push(m)
    }
}

/// The modules of `s` in order, each name once, where it first occurs.
pub open spec fn first_occurrences(s: Seq<Seq<char>>) -> Seq<Seq<char>>
    decreases s.len(),
{
    if s.len() == 0 {
        Seq::empty()
    } else {
        with_module(first_occurrences(s.drop_last()), s.last())
    }
}

/// Appends `module` unless a module of that name is already there.
fn push_unique_module(modules: &mut Vec<PyModuleName>, module: PyModuleName)
    ensures
        module_views(final(modules)@) == with_module(module_views(old(modules)@), module@),
        forall|i: int| 0 <= i < old(modules)@.len() ==> final(modules)@[i] == old(modules)@[i],
        final(modules)@.len() == old(modules)@.len() || final(modules)@ == old(modules)@.push(module),
{
    let mut i: usize = 0;
    while i < modules.len()
        invariant
            i <= modules.len(),
            forall|j: int| 0 <= j < i ==> modules@[j]@ != module@,
        decreases modules.len() - i,
    {
        if str_eq(modules[i].as_str(), module.as_str()) {
            assert(module_views(modules@)[i as int] == module@);
            return;
        }
        i = i + 1;
    }
    assert forall|j: int| 0 <= j < module_views(modules@).len() implies module_views(modules@)[j] != module@ by {
        assert(module_views(modules@)[j] == modules@[j]@);
    }
    let ghost before = modules@;
    modules.push(module);
    assert(module_views(modules@) =~= module_views(before).push(module@));
}

impl TemplateLibraries {
    /// Registers `library` as the builtin library of `module`, in place of any
    /// registered before.
    pub fn insert_builtin(&mut self, module: PyModuleName, library: TemplateLibrary)
        requires
            old(self).wf(),
        ensures
            final(self).wf(),
            final(self).knowledge_spec() == old(self).knowledge_spec(),
            final(self).loadable_spec() == old(self).loadable_spec(),
            final(self).builtin_order_spec() == old(self).builtin_order_spec(),
            forall|m: Seq<char>|
                #[trigger] builtin_lookup(final(self).builtins_spec(), m) == if m == module@ {
                    Some(library)
                } else {
                    builtin_lookup(old(self).builtins_spec(), m)
                },
    {
        let ghost before = self.builtins@;
        let ghost key = module@;
        match self.find_builtin(module.as_str()) {
            Some(i) => {
                self.builtins.set(i, (module, library));
                proof {
                    assert(builtin_keys(self.builtins@) =~= builtin_keys(before));
                    assert forall|m: Seq<char>| #[trigger] builtin_lookup(self.builtins@, m) == if m == key {
                        Some(library)
                    } else {
                        builtin_lookup(before, m)
                    } by {
                        if m == key {
                            lemma_builtin_lookup(self.builtins@, i as int);
                        } else if exists|j: int| 0 <= j < before.len() && (#[trigger] before[j]).0@ == m {
                            let j = choose|j: int| 0 <= j < before.len() && (#[trigger] before[j]).0@ == m;
                            assert(self.builtins@[j] == before[j]);
                            lemma_builtin_lookup(self.builtins@, j);
                            lemma_builtin_lookup(before, j);
                        } else {
                            assert forall|j: int| 0 <= j < self.builtins@.len() implies (#[trigger] self.builtins@[j]).0@
                                != m by {
                                if j != i {
                                    assert(self.builtins@[j] == before[j]);
                                }
                            }
                        }
                    }
                }
            },
            None => {
                self.builtins.push((module, library));
                proof {
                    assert(builtin_keys(self.builtins@) =~= builtin_keys(before).push(key));
                    assert forall|a: int, b: int| 0 <= a < b < builtin_keys(self.builtins@).len() implies builtin_keys(
                        self.builtins@,
                    )[a] != builtin_keys(self.builtins@)[b] by {
                        if b == before.len() {
                            assert(builtin_keys(before)[a] == builtin_keys(self.builtins@)[a]);
                        }
                    }
                    assert forall|m: Seq<char>| #[trigger] builtin_lookup(self.builtins@, m) == if m == key {
                        Some(library)
                    } else {
                        builtin_lookup(before, m)
                    } by {
                        if m == key {
                            lemma_builtin_lookup(self.builtins@, before.len() as int);
                        } else if exists|j: int| 0 <= j < before.len() && (#[trigger] before[j]).0@ == m {
                            let j = choose|j: int| 0 <= j < before.len() && (#[trigger] before[j]).0@ == m;
                            assert(self.builtins@[j] == before[j]);
                            lemma_builtin_lookup(self.builtins@, j);
                            lemma_builtin_lookup(before, j);
                        } else {
                            assert forall|j: int| 0 <= j < self.builtins@.len() implies (#[trigger] self.builtins@[j]).0@
                                != m by {
                                if j < before.len() {
                                    assert(self.builtins@[j] == before[j]);
                                }
                            }
                        }
                    }
                }
            },
        }
    }

    /// Appends `module` to the order in which builtins apply, unless it is there.
    pub fn push_builtin_order(&mut self, module: PyModuleName)
        requires
            old(self).wf(),
        ensures
            final(self).wf(),
            final(self).knowledge_spec() == old(self).knowledge_spec(),
            final(self).loadable_spec() == old(self).loadable_spec(),
            final(self).builtins_spec() == old(self).builtins_spec(),
            module_views(final(self).builtin_order_spec()) == with_module(
                module_views(old(self).builtin_order_spec()),
                module@,
            ),
            final(self).builtin_order_spec().len() == old(self).builtin_order_spec().len()
                || final(self).builtin_order_spec() == old(self).builtin_order_spec().push(module),
    {
        push_unique_module(&mut self.builtin_order, module);
    }

    /// The modules in builtin order that have a builtin library, each with it.
    pub fn builtin_libraries_by_module(&self) -> (r: Vec<(PyModuleName, TemplateLibrary)>)
        requires
            self.wf(),
        ensures
            entry_views(r@) == entry_views(builtin_entries(self.builtin_order_spec(), self.builtins_spec())),
    {
        let mut r: Vec<(PyModuleName, TemplateLibrary)> = Vec::new();
        let mut i: usize = 0;
        while i < self.builtin_order.len()
            invariant
                i <= self.builtin_order.len(),
                self.wf(),
                entry_views(r@) == entry_views(builtin_entries(self.builtin_order@.take(i as int), self.builtins@)),
            decreases self.builtin_order.len() - i,
        {
            let ghost order = self.builtin_order@;
            assert(order.take(i + 1).drop_last() =~= order.take(i as int));
            let module = &self.builtin_order[i];
            match self.find_builtin(module.as_str()) {
                Some(j) => {
                    proof {
                        lemma_builtin_lookup(self.builtins@, j as int);
                    }
                    let ghost before = r@;
                    r.push((module.duplicate(), self.builtins[j].1.duplicate()));
                    assert(entry_views(r@) =~= entry_views(before).push((module@, self.builtins@[j as int].1@)));
                },
                None => {
                    proof {
                        lemma_builtin_lookup_missing(self.builtins@, module@);
                    }
                },
            }
            i = i + 1;
        }
        assert(self.builtin_order@.take(i as int) =~= self.builtin_order@);
        r
    }

    /// The modules in builtin order that have a builtin library.
    pub fn builtin_modules(&self) -> (r: Vec<PyModuleName>)
        requires
            self.wf(),
        ensures
            module_views(r@) == entry_views(builtin_entries(self.builtin_order_spec(), self.builtins_spec())).map_values(
                |e: (Seq<char>, (LibraryName, LibraryStatus, Seq<TemplateSymbol>))| e.0,
            ),
    {
        let entries = self.builtin_libraries_by_module();
        let mut r: Vec<PyModuleName> = Vec::new();
        let mut i: usize = 0;
        while i < entries.len()
            invariant
                i <= entries.len(),
                module_views(r@) == entry_views(entries@.take(i as int)).map_values(
                    |e: (Seq<char>, (LibraryName, LibraryStatus, Seq<TemplateSymbol>))| e.0,
                ),
            decreases entries.len() - i,
        {
            let ghost before = r@;
            r.push(entries[i].0.duplicate());
            assert(entries@.take(i + 1) =~= entries@.take(i as int).push(entries@[i as int]));
            assert(module_views(r@) =~= module_views(before).push(entries@[i as int].0@));
            i = i + 1;
        }
        assert(entries@.take(i as int) =~= entries@);
        r
    }

    /// The builtin libraries in builtin order.
    pub fn builtin_libraries(&self) -> (r: Vec<TemplateLibrary>)
        requires
            self.wf(),
        ensures
            library_views(r@) == entry_views(builtin_entries(self.builtin_order_spec(), self.builtins_spec())).map_values(
                |e: (Seq<char>, (LibraryName, LibraryStatus, Seq<TemplateSymbol>))| e.1,
            ),
    {
        let entries = self.builtin_libraries_by_module();
        let mut r: Vec<TemplateLibrary> = Vec::new();
        let mut i: usize = 0;
        while i < entries.len()
            invariant
                i <= entries.len(),
                library_views(r@) == entry_views(entries@.take(i as int)).map_values(
                    |e: (Seq<char>, (LibraryName, LibraryStatus, Seq<TemplateSymbol>))| e.1,
                ),
            decreases entries.len() - i,
        {
            let ghost before = r@;
            r.push(entries[i].1.duplicate());
            assert(entries@.take(i + 1) =~= entries@.take(i as int).push(entries@[i as int]));
            assert(library_views(r@) =~= library_views(before).push(entries@[i as int].1@));
            i = i + 1;
        }
        assert(entries@.take(i as int) =~= entries@);
        r
    }
}

/// Each loadable library with the name it is loaded by, in name order.
pub open spec fn flat_loadable(v: Seq<(LibraryName, Vec<TemplateLibrary>)>) -> Seq<(Seq<char>, LibraryView)>
    decreases v.len(),
{
    if v.len() == 0 {
        Seq::empty()
    } else {
        flat_loadable(v.drop_last()) + v.last().1@.map_values(|l: TemplateLibrary| (v.last().0@, l@))
    }
}

/// The pairs by their views.
pub open spec fn pair_views(s: Seq<(LibraryName, TemplateLibrary)>) -> Seq<(Seq<char>, LibraryView)> {
    s.map_values(|e: (LibraryName, TemplateLibrary)| (e.0@, e.1@))
}

/// The names that have at least one library, in name order.
pub open spec fn names_with_libraries(v: Seq<(LibraryName, Vec<TemplateLibrary>)>) -> Seq<Seq<char>>
    decreases v.len(),
{
    if v.len() == 0 {
        Seq::empty()
    } else if v.last().1@.len() > 0 {
        names_with_libraries(v.drop_last()).push(v.last().0@)
    } else {
        names_with_libraries(v.drop_last())
    }
}

/// The library chosen for a load name: the first active one, else the first
/// with an origin, else the first. Every library is active, so it is the first.
pub open spec fn best_library(libs: Seq<TemplateLibrary>) -> Option<TemplateLibrary> {
    if libs.len() > 0 {
        Some(libs[0])
    } else {
        None
    }
}

/// The modules whose tags and filters a project registers, before removing
/// repeats: those of the loadable libraries in name order, then the builtin
/// modules in builtin order.
pub open spec fn registration_sequence(
    loadable: Seq<(LibraryName, Vec<TemplateLibrary>)>,
    order: Seq<PyModuleName>,
    builtins: Seq<(PyModuleName, TemplateLibrary)>,
) -> Seq<Seq<char>> {
    flat_loadable(loadable).map_values(|e: (Seq<char>, LibraryView)| status_module(e.1.1)@) + entry_views(
        builtin_entries(order, builtins),
    ).map_values(|e: (Seq<char>, LibraryView)| e.0)
}

proof fn lemma_first_occurrences(s: Seq<Seq<char>>)
    ensures
        crate::text::no_dups(first_occurrences(s)),
        first_occurrences(s).to_set() == s.to_set(),
    decreases s.len(),
{
    if s.len() > 0 {
        lemma_first_occurrences(s.drop_last());
        let rest = first_occurrences(s.drop_last());
        assert(s =~= s.drop_last().push(s.last()));
        s.drop_last().lemma_push_to_set_commute(s.last());
        if !rest.contains(s.last()) {
            rest.lemma_push_to_set_commute(s.last());
            assert forall|a: int, b: int| 0 <= a < b < rest.push(s.last()).len() implies rest.push(s.last())[a]
                != rest.push(s.last())[b] by {
                if b == rest.len() {
                    assert(rest.contains(rest[a]));
                }
            }
        } else {
            assert(rest.to_set().insert(s.last()) =~= rest.to_set());
        }
    } else {
        assert(s.to_set() =~= Set::<Seq<char>>::empty());
        assert(first_occurrences(s).to_set() =~= Set::<Seq<char>>::empty());
    }
}

impl TemplateLibraries {
    /// The load names, in name order.
    pub fn loadable_library_names(&self) -> (r: Vec<LibraryName>)
        ensures
            r@.map_values(|n: LibraryName| n@) == loadable_names(self.loadable_spec()),
    {
        let mut r: Vec<LibraryName> = Vec::new();
        let mut i: usize = 0;
        while i < self.loadable.len()
            invariant
                i <= self.loadable.len(),
                r@.map_values(|n: LibraryName| n@) == loadable_names(self.loadable@.take(i as int)),
            decreases self.loadable.len() - i,
        {
            let ghost before = r@;
            r.push(self.loadable[i].0.duplicate());
            assert(self.loadable@.take(i + 1) =~= self.loadable@.take(i as int).push(self.loadable@[i as int]));
            assert(r@.map_values(|n: LibraryName| n@) =~= before.map_values(|n: LibraryName| n@).push(
                self.loadable@[i as int].0@,
            ));
            assert(loadable_names(self.loadable@.take(i + 1)) =~= loadable_names(self.loadable@.take(i as int)).push(
                self.loadable@[i as int].0@,
            ));
            i = i + 1;
        }
        assert(self.loadable@.take(i as int) =~= self.loadable@);
        r
    }

    /// Each loadable library with its load name, in name order.
    pub fn loadable_libraries(&self) -> (r: Vec<(LibraryName, TemplateLibrary)>)
        ensures
            pair_views(r@) == flat_loadable(self.loadable_spec()),
    {
        let mut r: Vec<(LibraryName, TemplateLibrary)> = Vec::new();
        let mut i: usize = 0;
        while i < self.loadable.len()
            invariant
                i <= self.loadable.len(),
                pair_views(r@) == flat_loadable(self.loadable@.take(i as int)),
            decreases self.loadable.len() - i,
        {
            let name = &self.loadable[i].0;
            let libs = &self.loadable[i].1;
            let ghost start = r@;
            let ghost f = |l: TemplateLibrary| (name@, l@);
            let mut k: usize = 0;
            while k < libs.len()
                invariant
                    k <= libs.len(),
                    pair_views(r@) == pair_views(start) + libs@.take(k as int).map_values(f),
                    f == (|l: TemplateLibrary| (name@, l@)),
                decreases libs.len() - k,
            {
                let ghost before = r@;
                r.push((name.duplicate(), libs[k].duplicate()));
                assert(libs@.take(k + 1) =~= libs@.take(k as int).push(libs@[k as int]));
                assert(pair_views(r@) =~= pair_views(before).push((name@, libs@[k as int]@)));
                assert(libs@.take(k + 1).map_values(f) =~= libs@.take(k as int).map_values(f).push(f(libs@[k as int])));
                k = k + 1;
            }
            assert(libs@.take(k as int) =~= libs@);
            assert(self.loadable@.take(i + 1).drop_last() =~= self.loadable@.take(i as int));
            i = i + 1;
        }
        assert(self.loadable@.take(i as int) =~= self.loadable@);
        r
    }

    /// The loadable libraries that are active, with their load names: every
    /// library is active, so all of them.
    pub fn enabled_loadable_libraries(&self) -> (r: Vec<(LibraryName, TemplateLibrary)>)
        ensures
            pair_views(r@) == flat_loadable(self.loadable_spec()),
    {
        let all = self.loadable_libraries();
        let mut r: Vec<(LibraryName, TemplateLibrary)> = Vec::new();
        let mut i: usize = 0;
        while i < all.len()
            invariant
                i <= all.len(),
                pair_views(r@) == pair_views(all@.take(i as int)),
            decreases all.len() - i,
        {
            if all[i].1.is_active() {
                let ghost before = r@;
                r.push((all[i].0.duplicate(), all[i].1.duplicate()));
                assert(all@.take(i + 1) =~= all@.take(i as int).push(all@[i as int]));
                assert(pair_views(r@) =~= pair_views(before).push((all@[i as int].0@, all@[i as int].1@)));
                assert(pair_views(all@.take(i + 1)) =~= pair_views(all@.take(i as int)).push(
                    (all@[i as int].0@, all@[i as int].1@),
                ));
            }
            i = i + 1;
        }
        assert(all@.take(i as int) =~= all@);
        r
    }

    /// Whether some library loaded by `name` is active: whether there is one.
    pub fn is_enabled_library(&self, name: &LibraryName) -> (r: bool)
        requires
            self.wf(),
        ensures
            r == (libraries_named(self.loadable_spec(), name@).len() > 0),
    {
        match self.find_loadable(name.as_str()) {
            Some(i) => {
                proof {
                    lemma_libraries_named(self.loadable@, i as int);
                }
                let libs = &self.loadable[i].1;
                let mut k: usize = 0;
                while k < libs.len()
                    invariant
                        k == 0,
                        libs@ == libraries_named(self.loadable_spec(), name@),
                    decreases libs.len() - k,
                {
                    if libs[k].is_active() {
                        return true;
                    }
                    k = k + 1;
                }
                false
            },
            None => {
                proof {
                    lemma_libraries_named_missing(self.loadable@, name@);
                }
                false
            },
        }
    }

    /// Whether `name` is a valid load name with a library.
    pub fn is_enabled_library_str(&self, name: &str) -> (r: bool)
        requires
            self.wf(),
        ensures
            r == (is_dotted_name(name@) && libraries_named(self.loadable_spec(), name@).len() > 0),
    {
        match LibraryName::parse(name) {
            Ok(n) => self.is_enabled_library(&n),
            Err(_) => false,
        }
    }

    /// The load names offered for completion: those with an active library,
    /// sorted, each once.
    pub fn completion_library_names(&self) -> (r: Vec<LibraryName>)
        requires
            self.wf(),
        ensures
            r@.map_values(|n: LibraryName| n@) == names_with_libraries(self.loadable_spec()),
            crate::text::strictly_sorted(r@.map_values(|n: LibraryName| n@)),
    {
        let mut r: Vec<LibraryName> = Vec::new();
        let mut i: usize = 0;
        while i < self.loadable.len()
            invariant
                i <= self.loadable.len(),
                self.wf(),
                r@.map_values(|n: LibraryName| n@) == names_with_libraries(self.loadable@.take(i as int)),
                crate::text::strictly_sorted(r@.map_values(|n: LibraryName| n@)),
                forall|a: int, j: int|
                    0 <= a < r@.len() && i <= j < self.loadable@.len() ==> str_lt(
                        #[trigger] r@[a]@,
                        #[trigger] self.loadable@[j].0@,
                    ),
            decreases self.loadable.len() - i,
        {
            let ghost v = self.loadable@;
            assert(v.take(i + 1).drop_last() =~= v.take(i as int));
            assert(v.take(i + 1).last() == v[i as int]);
            proof {
                lemma_libraries_named(v, i as int);
            }
            if self.is_enabled_library(&self.loadable[i].0) {
                let ghost before = r@;
                r.push(self.loadable[i].0.duplicate());
                assert(r@.map_values(|n: LibraryName| n@) =~= before.map_values(|n: LibraryName| n@).push(v[i as int].0@));
                assert forall|a: int, j: int| 0 <= a < r@.len() && i + 1 <= j < v.len() implies str_lt(
                    #[trigger] r@[a]@,
                    #[trigger] v[j].0@,
                ) by {
                    assert(loadable_names(v)[i as int] == v[i as int].0@);
                    assert(loadable_names(v)[j] == v[j].0@);
                    if a < before.len() {
                        assert(r@[a] == before[a]);
                    }
                }
            }
            i = i + 1;
        }
        assert(self.loadable@.take(i as int) =~= self.loadable@);
        r
    }

    /// The library chosen for the load name `name`, if it has any.
    pub fn best_loadable_library(&self, name: &LibraryName) -> (r: Option<&TemplateLibrary>)
        requires
            self.wf(),
        ensures
            match r {
                Some(l) => best_library(libraries_named(self.loadable_spec(), name@)) == Some(*l),
                None => best_library(libraries_named(self.loadable_spec(), name@)) is None,
            },
    {
        match self.find_loadable(name.as_str()) {
            Some(i) => {
                proof {
                    lemma_libraries_named(self.loadable@, i as int);
                }
                let libs = &self.loadable[i].1;
                let mut k: usize = 0;
                while k < libs.len()
                    invariant
                        k == 0,
                        libs@ == libraries_named(self.loadable_spec(), name@),
                    decreases libs.len() - k,
                {
                    if libs[k].is_active() {
                        return Some(&libs[k]);
                    }
                    k = k + 1;
                }
                let mut k: usize = 0;
                while k < libs.len()
                    invariant
                        k <= libs.len(),
                        libs.len() == 0,
                        libs@ == libraries_named(self.loadable_spec(), name@),
                    decreases libs.len() - k,
                {
                    if libs[k].origin().is_some() {
                        return Some(&libs[k]);
                    }
                    k = k + 1;
                }
                if libs.len() > 0 {
                    Some(&libs[0])
                } else {
                    None
                }
            },
            None => {
                proof {
                    lemma_libraries_named_missing(self.loadable@, name@);
                }
                None
            },
        }
    }

    /// The library chosen for `name`, if it is a valid load name that has one.
    pub fn best_loadable_library_str(&self, name: &str) -> (r: Option<&TemplateLibrary>)
        requires
            self.wf(),
        ensures
            match r {
                Some(l) => is_dotted_name(name@) && best_library(libraries_named(self.loadable_spec(), name@))
                    == Some(*l),
                None => !is_dotted_name(name@) || best_library(libraries_named(self.loadable_spec(), name@)) is None,
            },
    {
        match LibraryName::parse(name) {
            Ok(n) => self.best_loadable_library(&n),
            Err(_) => None,
        }
    }

    /// The module of the library chosen for `name`.
    pub fn loadable_library_module(&self, name: &LibraryName) -> (r: Option<&PyModuleName>)
        requires
            self.wf(),
        ensures
            match r {
                Some(m) => best_library(libraries_named(self.loadable_spec(), name@)) matches Some(l) && *m
                    == l.module_spec(),
                None => best_library(libraries_named(self.loadable_spec(), name@)) is None,
            },
    {
        match self.best_loadable_library(name) {
            Some(l) => Some(l.module()),
            None => None,
        }
    }

    /// The module of the library chosen for `name`, if it is a valid load name.
    pub fn loadable_library_module_str(&self, name: &str) -> (r: Option<&PyModuleName>)
        requires
            self.wf(),
        ensures
            match r {
                Some(m) => is_dotted_name(name@) && (best_library(libraries_named(self.loadable_spec(), name@))
                    matches Some(l) && *m == l.module_spec()),
                None => !is_dotted_name(name@) || best_library(libraries_named(self.loadable_spec(), name@)) is None,
            },
    {
        match LibraryName::parse(name) {
            Ok(n) => self.loadable_library_module(&n),
            Err(_) => None,
        }
    }

    /// The modules whose tags and filters the project registers: none when
    /// nothing is known; else those of the active loadable libraries, then the
    /// builtin modules, each once, where it first occurs.
    pub fn registration_modules(&self) -> (r: Vec<PyModuleName>)
        requires
            self.wf(),
        ensures
            module_views(r@) == if self.knowledge_spec() == StaticKnowledge::Unknown {
                Seq::empty()
            } else {
                first_occurrences(
                    registration_sequence(self.loadable_spec(), self.builtin_order_spec(), self.builtins_spec()),
                )
            },
            crate::text::no_dups(module_views(r@)),
    {
        if self.knowledge == StaticKnowledge::Unknown {
            let r: Vec<PyModuleName> = Vec::new();
            assert(module_views(r@) =~= Seq::<Seq<char>>::empty());
            return r;
        }
        let ghost seq = registration_sequence(self.loadable@, self.builtin_order@, self.builtins@);
        let mut all: Vec<PyModuleName> = Vec::new();
        let enabled = self.enabled_loadable_libraries();
        let ghost fa = |e: (Seq<char>, LibraryView)| status_module(e.1.1)@;
        let mut i: usize = 0;
        while i < enabled.len()
            invariant
                i <= enabled.len(),
                module_views(all@) == pair_views(enabled@).take(i as int).map_values(fa),
                fa == (|e: (Seq<char>, LibraryView)| status_module(e.1.1)@),
            decreases enabled.len() - i,
        {
            let ghost before = all@;
            let m = enabled[i].1.module().duplicate();
            all.push(m);
            assert(pair_views(enabled@).take(i + 1) =~= pair_views(enabled@).take(i as int).push(pair_views(enabled@)[i as int]));
            assert(module_views(all@) =~= module_views(before).push(m@));
            i = i + 1;
        }
        assert(pair_views(enabled@).take(i as int) =~= pair_views(enabled@));
        let builtins = self.builtin_modules();
        let ghost first = module_views(all@);
        let mut j: usize = 0;
        while j < builtins.len()
            invariant
                j <= builtins.len(),
                module_views(all@) == first + module_views(builtins@).take(j as int),
            decreases builtins.len() - j,
        {
            let ghost before = all@;
            all.push(builtins[j].duplicate());
            assert(module_views(builtins@).take(j + 1) =~= module_views(builtins@).take(j as int).push(builtins@[j as int]@));
            assert(module_views(all@) =~= module_views(before).push(builtins@[j as int]@));
            j = j + 1;
        }
        assert(module_views(builtins@).take(j as int) =~= module_views(builtins@));
        assert(module_views(all@) =~= seq);
        let mut modules: Vec<PyModuleName> = Vec::new();
        let mut k: usize = 0;
        while k < all.len()
            invariant
                k <= all.len(),
                module_views(modules@) == first_occurrences(module_views(all@).take(k as int)),
            decreases all.len() - k,
        {
            assert(module_views(all@).take(k + 1).drop_last() =~= module_views(all@).take(k as int));
            push_unique_module(&mut modules, all[k].duplicate());
            k = k + 1;
        }
        assert(module_views(all@).take(k as int) =~= module_views(all@));
        proof {
            lemma_first_occurrences(seq);
        }
        modules
    }
}

impl Default for TemplateLibraries {
    /// No libraries, and nothing known.
    fn default() -> (r: TemplateLibraries)
        ensures
            r.wf(),
            r.knowledge_spec() == StaticKnowledge::Unknown,
            r.loadable_spec().len() == 0,
            r.builtins_spec().len() == 0,
            r.builtin_order_spec().len() == 0,
    {
        TemplateLibraries::new(StaticKnowledge::Unknown)
    }
}

/// The builtin candidates of `kind` by name once the symbols `syms` of the
/// builtin library of `module` are added to `acc`: a later symbol replaces an
/// earlier one of the same name.
pub open spec fn candidates_after_symbols(
    acc: Map<Seq<char>, InstalledSymbolCandidate>,
    syms: Seq<TemplateSymbol>,
    kind: TemplateSymbolKind,
    module: PyModuleName,
) -> Map<Seq<char>, InstalledSymbolCandidate>
    decreases syms.len(),
{
    if syms.len() == 0 {
        acc
    } else {
        let prev = candidates_after_symbols(acc, syms.drop_last(), kind, module);
        let sym = syms.last();
        if sym.kind == kind {
            prev.insert(
                sym.name@,
                InstalledSymbolCandidate { symbol: sym, origin: InstalledSymbolOrigin::Builtin { module } },
            )
        } else {
            prev
        }
    }
}

/// The builtin candidates of `kind` by name: each symbol from the last builtin
/// library, in builtin order, that defines it.
pub open spec fn builtin_candidates(entries: Seq<(PyModuleName, TemplateLibrary)>, kind: TemplateSymbolKind) -> Map<
    Seq<char>,
    InstalledSymbolCandidate,
>
    decreases entries.len(),
{
    if entries.len() == 0 {
        Map::empty()
    } else {
        candidates_after_symbols(
            builtin_candidates(entries.drop_last(), kind),
            entries.last().1.symbols_spec(),
            kind,
            entries.last().0,
        )
    }
}

/// The symbols of `kind` among `syms`, in order, each with `origin`.
pub open spec fn symbol_candidates(
    syms: Seq<TemplateSymbol>,
    kind: TemplateSymbolKind,
    origin: InstalledSymbolOrigin,
) -> Seq<InstalledSymbolCandidate>
    decreases syms.len(),
{
    if syms.len() == 0 {
        Seq::empty()
    } else {
        let rest = symbol_candidates(syms.drop_last(), kind, origin);
        if syms.last().kind == kind {
            rest.push(InstalledSymbolCandidate { symbol: syms.last(), origin })
        } else {
            rest
        }
    }
}

/// The candidates of `kind` of the libraries `libs` loaded by `name`.
pub open spec fn libraries_candidates(libs: Seq<TemplateLibrary>, kind: TemplateSymbolKind, name: LibraryName) -> Seq<
    InstalledSymbolCandidate,
>
    decreases libs.len(),
{
    if libs.len() == 0 {
        Seq::empty()
    } else {
        libraries_candidates(libs.drop_last(), kind, name) + symbol_candidates(
            libs.last().symbols_spec(),
            kind,
            InstalledSymbolOrigin::Loadable { load_name: name },
        )
    }
}

/// The candidates of `kind` of the loadable libraries, in name order.
pub open spec fn loadable_candidates(v: Seq<(LibraryName, Vec<TemplateLibrary>)>, kind: TemplateSymbolKind) -> Seq<
    InstalledSymbolCandidate,
>
    decreases v.len(),
{
    if v.len() == 0 {
        Seq::empty()
    } else {
        loadable_candidates(v.drop_last(), kind) + libraries_candidates(v.last().1@, kind, v.last().0)
    }
}

impl Keyed for InstalledSymbolCandidate {
    /// A candidate is found by the name of its symbol.
    open spec fn key(&self) -> Seq<char> {
        self.symbol.name@
    }

    fn key_str(&self) -> (r: &str) {
        self.symbol.name.as_str()
    }
}

impl TemplateLibraries {
    /// The tags or filters (by `kind`) that the installed libraries offer:
    /// first the builtins, one per name, each from the last builtin library in
    /// builtin order that defines it, sorted by name; then those of the active
    /// loadable libraries, in load-name order.
    pub fn installed_symbol_candidates(&self, kind: TemplateSymbolKind) -> (r: Vec<InstalledSymbolCandidate>)
        requires
            self.wf(),
        ensures
            exists|n: int|
                #![trigger r@.take(n)]
                0 <= n <= r@.len() && crate::text::strictly_sorted(keys(r@.take(n))) && keyed_map(
                    r@.take(n),
                ) == builtin_candidates(builtin_entries(self.builtin_order_spec(), self.builtins_spec()), kind)
                    && r@.skip(n) == loadable_candidates(self.loadable_spec(), kind),
    {
        let mut candidates: Vec<InstalledSymbolCandidate> = Vec::new();
        assert(keyed_map(candidates@) =~= Map::<Seq<char>, InstalledSymbolCandidate>::empty());
        let mut i: usize = 0;
        while i < self.builtin_order.len()
            invariant
                i <= self.builtin_order.len(),
                self.wf(),
                crate::text::strictly_sorted(keys(candidates@)),
                keyed_map(candidates@) == builtin_candidates(
                    builtin_entries(self.builtin_order@.take(i as int), self.builtins@),
                    kind,
                ),
            decreases self.builtin_order.len() - i,
        {
            let ghost order = self.builtin_order@;
            assert(order.take(i + 1).drop_last() =~= order.take(i as int));
            let module = &self.builtin_order[i];
            match self.find_builtin(module.as_str()) {
                Some(j) => {
                    proof {
                        lemma_builtin_lookup(self.builtins@, j as int);
                    }
                    let ghost entries = builtin_entries(order.take(i as int), self.builtins@);
                    let ghost start = builtin_candidates(entries, kind);
                    assert(entries.push((*module, self.builtins@[j as int].1)).drop_last() =~= entries);
                    let library = &self.builtins[j].1;
                    let symbols = library.symbols();
                    let mut k: usize = 0;
                    while k < symbols.len()
                        invariant
                            k <= symbols.len(),
                            crate::text::strictly_sorted(keys(candidates@)),
                            keyed_map(candidates@) == candidates_after_symbols(
                                start,
                                symbols@.take(k as int),
                                kind,
                                *module,
                            ),
                        decreases symbols.len() - k,
                    {
                        assert(symbols@.take(k + 1).drop_last() =~= symbols@.take(k as int));
                        if symbols[k].kind == kind {
                            let c = InstalledSymbolCandidate {
                                symbol: symbols[k].duplicate(),
                                origin: InstalledSymbolOrigin::Builtin { module: module.duplicate() },
                            };
                            put_keyed(&mut candidates, c);
                        }
                        k = k + 1;
                    }
                    assert(symbols@.take(k as int) =~= symbols@);
                },
                None => {
                    proof {
                        lemma_builtin_lookup_missing(self.builtins@, module@);
                    }
                },
            }
            i = i + 1;
        }
        assert(self.builtin_order@.take(i as int) =~= self.builtin_order@);
        let ghost builtin_part = candidates@;
        let mut a: usize = 0;
        while a < self.loadable.len()
            invariant
                a <= self.loadable.len(),
                candidates@ == builtin_part + loadable_candidates(self.loadable@.take(a as int), kind),
            decreases self.loadable.len() - a,
        {
            let ghost v = self.loadable@;
            assert(v.take(a + 1).drop_last() =~= v.take(a as int));
            let name = &self.loadable[a].0;
            let libs = &self.loadable[a].1;
            let ghost before_libs = candidates@;
            let mut b: usize = 0;
            while b < libs.len()
                invariant
                    b <= libs.len(),
                    candidates@ == before_libs + libraries_candidates(libs@.take(b as int), kind, *name),
                decreases libs.len() - b,
            {
                assert(libs@.take(b + 1).drop_last() =~= libs@.take(b as int));
                if libs[b].is_active() {
                    let symbols = libs[b].symbols();
                    let ghost before_syms = candidates@;
                    let ghost origin = InstalledSymbolOrigin::Loadable { load_name: *name };
                    let mut k: usize = 0;
                    while k < symbols.len()
                        invariant
                            k <= symbols.len(),
                            candidates@ == before_syms + symbol_candidates(symbols@.take(k as int), kind, origin),
                            origin == (InstalledSymbolOrigin::Loadable { load_name: *name }),
                        decreases symbols.len() - k,
                    {
                        assert(symbols@.take(k + 1).drop_last() =~= symbols@.take(k as int));
                        if symbols[k].kind == kind {
                            let c = InstalledSymbolCandidate {
                                symbol: symbols[k].duplicate(),
                                origin: InstalledSymbolOrigin::Loadable { load_name: name.duplicate() },
                            };
                            candidates.push(c);
                        }
                        k = k + 1;
                    }
                    assert(symbols@.take(k as int) =~= symbols@);
                }
                b = b + 1;
            }
            assert(libs@.take(b as int) =~= libs@);
            a = a + 1;
        }
        assert(self.loadable@.take(a as int) =~= self.loadable@);
        assert(candidates@.take(builtin_part.len() as int) =~= builtin_part);
        assert(candidates@.skip(builtin_part.len() as int) =~= loadable_candidates(self.loadable@, kind));
        candidates
    }
}

/// Merging the same symbol twice is merging it once.
pub proof fn law_merge_idempotent(existing: TemplateSymbol, new: TemplateSymbol)
    ensures
        merged(merged(existing, new), new) == merged(existing, new),
{
}

} // verus!
