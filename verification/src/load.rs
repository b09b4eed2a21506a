//! `{% load %}` statements and the load state they produce at a position.
use vstd::prelude::*;

use crate::span::Span;
use crate::text::{clone_strings, contains_str, no_dups, str_eq, views};

verus! {

broadcast use vstd::seq::Seq::group_seq_extra;

/// The kind of a `{% load %}` statement.
#[derive(Clone, Debug, PartialEq, Eq)]
pub enum LoadKind {
    /// `{% load i18n %}` or `{% load i18n static %}`: loads entire libraries.
    FullLoad { libraries: Vec<String> },
    /// `{% load trans blocktrans from i18n %}`: selectively imports named symbols.
    SelectiveImport { symbols: Vec<String>, library: String },
}

/// The mathematical content of a [`LoadKind`].
pub enum LoadKindView {
    FullLoad { libraries: Seq<Seq<char>> },
    SelectiveImport { symbols: Seq<Seq<char>>, library: Seq<char> },
}

impl View for LoadKind {
    type V = LoadKindView;

    open spec fn view(&self) -> LoadKindView {
        match self {
            LoadKind::FullLoad { libraries } => LoadKindView::FullLoad {
                libraries: views(libraries@),
            },
            LoadKind::SelectiveImport { symbols, library } => LoadKindView::SelectiveImport {
                symbols: views(symbols@),
                library: library@,
            },
        }
    }
}

/// A parsed `{% load %}` tag with its source span and load kind.
#[derive(Clone, Debug, PartialEq, Eq)]
pub struct LoadStatement {
    span: Span,
    kind: LoadKind,
}

pub struct LoadStatementView {
    pub span: Span,
    pub kind: LoadKindView,
}

impl View for LoadStatement {
    type V = LoadStatementView;

    closed spec fn view(&self) -> LoadStatementView {
        LoadStatementView { span: self.span, kind: self.kind@ }
    }
}

impl LoadStatement {
    pub fn new(span: Span, kind: LoadKind) -> (s: LoadStatement)
        ensures
            s@.span == span,
            s@.kind == kind@,
    {
        LoadStatement { span, kind }
    }

    pub fn span(&self) -> (s: Span)
        ensures
            s == self@.span,
    {
        self.span
    }

    pub fn kind(&self) -> (k: &LoadKind)
        ensures
            k@ == self@.kind,
    {
        &self.kind
    }
}

/// `i` is the first position of `x` in `s`.
pub open spec fn is_first_index(s: Seq<Seq<char>>, x: Seq<char>, i: int) -> bool {
    &&& 0 <= i < s.len()
    &&& s[i] == x
    &&& forall|j: int| 0 <= j < i ==> s[j] != x
}

/// What the bits of a `load` tag mean: `None` for bits that are empty, do not start
/// with `load`, or are malformed; a selective import when `from` occurs, with the
/// symbols before the first `from` and exactly one library after it; else a full
/// load of every name after `load`.
pub open spec fn load_bits_meaning(bits: Seq<Seq<char>>) -> Option<LoadKindView> {
    if bits.len() == 0 || bits[0] != "load"@ {
        None
    } else {
        let payload = bits.skip(1);
        if payload.len() == 0 {
            None
        } else if payload.contains("from"@) {
            let idx = choose|i: int| is_first_index(payload, "from"@, i);
            let symbols = payload.take(idx);
            let rest = payload.skip(idx + 1);
            if symbols.len() == 0 || rest.len() != 1 {
                None
            } else {
                Some(LoadKindView::SelectiveImport { symbols, library: rest[0] })
            }
        } else {
            Some(LoadKindView::FullLoad { libraries: payload })
        }
    }
}

pub open spec fn option_kind_view(o: Option<LoadKind>) -> Option<LoadKindView> {
    match o {
        Some(k) => Some(k@),
        None => None,
    }
}

proof fn lemma_first_index_unique(s: Seq<Seq<char>>, x: Seq<char>, i: int, j: int)
    requires
        is_first_index(s, x, i),
        is_first_index(s, x, j),
    ensures
        i == j,
{
}

/// Copies `v[lo..hi]`.
fn copy_range(v: &[String], lo: usize, hi: usize) -> (r: Vec<String>)
    requires
        lo <= hi <= v@.len(),
    ensures
        views(r@) == views(v@).subrange(lo as int, hi as int),
{
    let mut out: Vec<String> = Vec::new();
    let mut i = lo;
    while i < hi
        invariant
            lo <= i <= hi,
            hi <= v@.len(),
            views(out@) == views(v@).subrange(lo as int, i as int),
        decreases hi - i,
    {
        let ghost old_out = out@;
        let c = v[i].clone();
        out.push(c);
        assert(views(out@) =~= views(old_out).push(c@));
        assert(views(out@) =~= views(v@).subrange(lo as int, i + 1));
        i = i + 1;
    }
    out
}

/// Parses the bits of a tag (the tag name first) into a [`LoadKind`].
///
/// `["load", "i18n"]` is a full load of `i18n`; `["load", "trans", "from", "i18n"]`
/// imports `trans` from `i18n`. Returns `None` if the bits are empty, do not start
/// with `load`, or are malformed (such as `{% load from i18n %}`).
pub fn parse_load_bits(bits: &[String]) -> (r: Option<LoadKind>)
    ensures
        option_kind_view(r) == load_bits_meaning(views(bits@)),
{
    let ghost b = views(bits@);
    if bits.len() == 0 || !str_eq(bits[0].as_str(), "load") {
        return None;
    }
    assert(b[0] == bits@[0]@);
    let ghost payload = b.skip(1);
    if bits.len() == 1 {
        return None;
    }
    let mut idx: usize = 1;
    let mut found = false;
    while idx < bits.len() && !found
        invariant
            1 <= idx <= bits@.len(),
            b == views(bits@),
            payload == b.skip(1),
            found ==> idx < bits@.len() && b[idx as int] == "from"@,
            forall|j: int| 1 <= j < idx ==> b[j] != "from"@,
        decreases bits@.len() - idx, (if found { 0int } else { 1int }),
    {
        if str_eq(bits[idx].as_str(), "from") {
            assert(b[idx as int] == bits@[idx as int]@);
            found = true;
        } else {
            assert(b[idx as int] == bits@[idx as int]@);
            idx = idx + 1;
        }
    }
    if found {
        assert(payload[idx - 1] == b[idx as int]);
        assert(is_first_index(payload, "from"@, idx - 1));
        assert(payload.contains("from"@));
        let ghost chosen = choose|i: int| is_first_index(payload, "from"@, i);
        proof {
            lemma_first_index_unique(payload, "from"@, chosen, idx - 1);
        }
        let symbols = copy_range(bits, 1, idx);
        assert(views(symbols@) =~= payload.take(idx - 1));
        if idx == 1 || bits.len() - (idx + 1) != 1 {
            assert(payload.skip(idx as int).len() == bits.len() - (idx + 1));
            return None;
        }
        let library = bits[idx + 1].clone();
        assert(payload.skip(idx as int)[0] == library@);
        Some(LoadKind::SelectiveImport { symbols, library })
    } else {
        assert(!payload.contains("from"@)) by {
            if payload.contains("from"@) {
                let k = choose|k: int| 0 <= k < payload.len() && payload[k] == "from"@;
                assert(b[k + 1] == "from"@);
            }
        }
        let libraries = copy_range(bits, 1, bits.len());
        assert(views(libraries@) =~= payload);
        Some(LoadKind::FullLoad { libraries })
    }
}

/// The libraries and symbols available at a position of a template.
#[derive(Clone, Debug, PartialEq, Eq)]
pub struct LoadState {
    fully_loaded: Vec<String>,
    selective: Vec<(String, Vec<String>)>,
}

/// The mathematical content of a [`LoadState`]: the set of fully loaded libraries,
/// and for each library with selective imports, the set of imported symbols.
pub struct LoadStateView {
    pub fully: Set<Seq<char>>,
    pub selective: Map<Seq<char>, Set<Seq<char>>>,
}

/// The keys of a list of selective entries.
pub open spec fn entry_keys(v: Seq<(String, Vec<String>)>) -> Seq<Seq<char>> {
    v.map_values(|e: (String, Vec<String>)| e.0@)
}

/// The map that a list of selective entries stands for.
pub open spec fn entries_map(v: Seq<(String, Vec<String>)>) -> Map<Seq<char>, Set<Seq<char>>>
    decreases v.len(),
{
    if v.len() == 0 {
        Map::empty()
    } else {
        entries_map(v.drop_last()).insert(v.last().0@, views(v.last().1@).to_set())
    }
}

impl View for LoadState {
    type V = LoadStateView;

    closed spec fn view(&self) -> LoadStateView {
        LoadStateView {
            fully: views(self.fully_loaded@).to_set(),
            selective: entries_map(self.selective@),
        }
    }
}

impl LoadState {
    /// No library occurs twice in the state's lists.
    pub closed spec fn wf(&self) -> bool {
        &&& no_dups(views(self.fully_loaded@))
        &&& no_dups(entry_keys(self.selective@))
    }

    /// The empty state: nothing loaded.
    pub fn empty() -> (s: LoadState)
        ensures
            s.wf(),
            s@.fully == Set::<Seq<char>>::empty(),
            s@.selective == Map::<Seq<char>, Set<Seq<char>>>::empty(),
    {
        let s = LoadState { fully_loaded: Vec::new(), selective: Vec::new() };
        assert(views(s.fully_loaded@).to_set() =~= Set::<Seq<char>>::empty());
        s
    }

    /// A copy of the state.
    pub fn copy(&self) -> (r: LoadState)
        requires
            self.wf(),
        ensures
            r.wf(),
            r@ == self@,
    {
        let fully_loaded = clone_strings(&self.fully_loaded);
        let mut selective: Vec<(String, Vec<String>)> = Vec::new();
        let mut i: usize = 0;
        while i < self.selective.len()
            invariant
                i <= self.selective.len(),
                entry_keys(selective@) == entry_keys(self.selective@).take(i as int),
                forall|j: int| 0 <= j < i ==> views(#[trigger] selective@[j].1@) == views(self.selective@[j].1@),
                selective@.len() == i,
            decreases self.selective.len() - i,
        {
            let ghost before = selective@;
            let e = (self.selective[i].0.clone(), clone_strings(&self.selective[i].1));
            selective.push(e);
            assert(entry_keys(selective@) =~= entry_keys(self.selective@).take(i + 1));
            i = i + 1;
        }
        assert(entry_keys(selective@) =~= entry_keys(self.selective@));
        let r = LoadState { fully_loaded, selective };
        proof {
            lemma_entries_map_same(r.selective@, self.selective@);
        }
        assert(views(r.fully_loaded@).to_set() =~= views(self.fully_loaded@).to_set());
        r
    }

    /// Whether `library` is fully loaded.
    pub fn is_fully_loaded(&self, library: &str) -> (r: bool)
        ensures
            r == self@.fully.contains(library@),
    {
        contains_str(&self.fully_loaded, library)
    }

    /// Whether `symbol` of `library` is usable: the library is fully loaded, or
    /// the symbol was selectively imported from it.
    pub fn is_symbol_available(&self, library: &str, symbol: &str) -> (r: bool)
        requires
            self.wf(),
        ensures
            r == symbol_available(self@, library@, symbol@),
    {
        if contains_str(&self.fully_loaded, library) {
            return true;
        }
        match find_entry(&self.selective, library) {
            Some(i) => {
                proof {
                    lemma_entries_map_index(self.selective@, i as int);
                }
                contains_str(&self.selective[i].1, symbol)
            },
            None => {
                proof {
                    lemma_entries_map_absent(self.selective@, library@);
                }
                false
            },
        }
    }

    /// The fully loaded libraries, in the order they were first loaded.
    pub fn fully_loaded_libraries(&self) -> (r: &Vec<String>)
        ensures
            views(r@).to_set() == self@.fully,
    {
        &self.fully_loaded
    }

    /// The selective imports: each library with the symbols imported from it.
    pub fn selective_imports(&self) -> (r: &Vec<(String, Vec<String>)>)
        ensures
            entries_map(r@) == self@.selective,
    {
        &self.selective
    }
}

/// Whether `symbol` of `library` is usable in state `st`.
pub open spec fn symbol_available(st: LoadStateView, library: Seq<char>, symbol: Seq<char>) -> bool {
    st.fully.contains(library) || (st.selective.contains_key(library)
        && st.selective[library].contains(symbol))
}

/// Finds the entry for `key`.
fn find_entry(v: &Vec<(String, Vec<String>)>, key: &str) -> (r: Option<usize>)
    ensures
        match r {
            Some(i) => i < v@.len() && v@[i as int].0@ == key@,
            None => !entry_keys(v@).contains(key@),
        },
{
    let mut i: usize = 0;
    while i < v.len()
        invariant
            i <= v.len(),
            forall|j: int| 0 <= j < i ==> v@[j].0@ != key@,
        decreases v.len() - i,
    {
        if str_eq(v[i].0.as_str(), key) {
            return Some(i);
        }
        i = i + 1;
    }
    assert forall|j: int| 0 <= j < entry_keys(v@).len() implies entry_keys(v@)[j] != key@ by {
        assert(entry_keys(v@)[j] == v@[j].0@);
    }
    None
}

proof fn lemma_entries_map_same(a: Seq<(String, Vec<String>)>, b: Seq<(String, Vec<String>)>)
    requires
        entry_keys(a) == entry_keys(b),
        a.len() == b.len(),
        forall|j: int| 0 <= j < a.len() ==> views(#[trigger] a[j].1@) == views(b[j].1@),
    ensures
        entries_map(a) == entries_map(b),
    decreases a.len(),
{
    if a.len() > 0 {
        assert(entry_keys(a.drop_last()) =~= entry_keys(a).drop_last());
        assert(entry_keys(b.drop_last()) =~= entry_keys(b).drop_last());
        assert(entry_keys(a)[a.len() - 1] == a.last().0@);
        assert(entry_keys(b)[b.len() - 1] == b.last().0@);
        assert(views(a[a.len() - 1].1@) == views(b[b.len() - 1].1@));
        lemma_entries_map_same(a.drop_last(), b.drop_last());
    }
}

proof fn lemma_entries_map_dom(v: Seq<(String, Vec<String>)>)
    ensures
        entries_map(v).dom() == entry_keys(v).to_set(),
    decreases v.len(),
{
    if v.len() > 0 {
        lemma_entries_map_dom(v.drop_last());
        assert(entry_keys(v) =~= entry_keys(v.drop_last()).push(v.last().0@));
        assert(entries_map(v).dom() =~= entry_keys(v).to_set());
    } else {
        assert(entries_map(v).dom() =~= entry_keys(v).to_set());
    }
}

proof fn lemma_entries_map_absent(v: Seq<(String, Vec<String>)>, k: Seq<char>)
    requires
        !entry_keys(v).contains(k),
    ensures
        !entries_map(v).contains_key(k),
{
    lemma_entries_map_dom(v);
}

proof fn lemma_entries_map_index(v: Seq<(String, Vec<String>)>, i: int)
    requires
        0 <= i < v.len(),
        no_dups(entry_keys(v)),
    ensures
        entries_map(v).contains_key(v[i].0@),
        entries_map(v)[v[i].0@] == views(v[i].1@).to_set(),
    decreases v.len(),
{
    if i < v.len() - 1 {
        let w = v.drop_last();
        assert(entry_keys(w) =~= entry_keys(v).drop_last());
        assert(entry_keys(v)[i] == v[i].0@);
        assert(entry_keys(v)[v.len() - 1] == v.last().0@);
        lemma_entries_map_index(w, i);
        assert(w[i] == v[i]);
    }
}

proof fn lemma_entries_map_update(v: Seq<(String, Vec<String>)>, i: int, e: (String, Vec<String>))
    requires
        0 <= i < v.len(),
        no_dups(entry_keys(v)),
        e.0@ == v[i].0@,
    ensures
        entries_map(v.update(i, e)) == entries_map(v).insert(e.0@, views(e.1@).to_set()),
        no_dups(entry_keys(v.update(i, e))),
        entry_keys(v.update(i, e)) == entry_keys(v),
    decreases v.len(),
{
    let u = v.update(i, e);
    assert(entry_keys(u) =~= entry_keys(v));
    if i == v.len() - 1 {
        assert(u.drop_last() =~= v.drop_last());
        assert(entries_map(u) =~= entries_map(v).insert(e.0@, views(e.1@).to_set()));
    } else {
        let w = v.drop_last();
        assert(entry_keys(w) =~= entry_keys(v).drop_last());
        lemma_entries_map_update(w, i, e);
        assert(u.drop_last() =~= w.update(i, e));
        assert(entry_keys(v)[i] == v[i].0@);
        assert(entry_keys(v)[v.len() - 1] == v.last().0@);
        assert(u.last() == v.last());
        assert(entries_map(u) =~= entries_map(v).insert(e.0@, views(e.1@).to_set()));
    }
}

proof fn lemma_entries_map_push(v: Seq<(String, Vec<String>)>, e: (String, Vec<String>))
    requires
        no_dups(entry_keys(v)),
        !entry_keys(v).contains(e.0@),
    ensures
        entries_map(v.push(e)) == entries_map(v).insert(e.0@, views(e.1@).to_set()),
        no_dups(entry_keys(v.push(e))),
        entry_keys(v.push(e)) == entry_keys(v).push(e.0@),
{
    let u = v.push(e);
    assert(u.drop_last() =~= v);
    assert(entry_keys(u) =~= entry_keys(v).push(e.0@));
    assert forall|a: int, b: int| 0 <= a < b < entry_keys(u).len() implies entry_keys(u)[a]
        != entry_keys(u)[b] by {
        if b == entry_keys(u).len() - 1 {
            assert(entry_keys(v)[a] == entry_keys(u)[a]);
        }
    }
}

proof fn lemma_entries_map_remove(v: Seq<(String, Vec<String>)>, i: int)
    requires
        0 <= i < v.len(),
        no_dups(entry_keys(v)),
    ensures
        entries_map(v.remove(i)) == entries_map(v).remove(v[i].0@),
        no_dups(entry_keys(v.remove(i))),
        entry_keys(v.remove(i)) == entry_keys(v).remove(i),
    decreases v.len(),
{
    let u = v.remove(i);
    assert(entry_keys(u) =~= entry_keys(v).remove(i));
    assert forall|a: int, b: int| 0 <= a < b < entry_keys(u).len() implies entry_keys(u)[a]
        != entry_keys(u)[b] by {
        let a2 = if a < i { a } else { a + 1 };
        let b2 = if b < i { b } else { b + 1 };
        assert(entry_keys(u)[a] == entry_keys(v)[a2]);
        assert(entry_keys(u)[b] == entry_keys(v)[b2]);
    }
    if i == v.len() - 1 {
        assert(u =~= v.drop_last());
        lemma_entries_map_dom(u);
        assert(!entry_keys(u).contains(v[i].0@)) by {
            if entry_keys(u).contains(v[i].0@) {
                let k = choose|k: int| 0 <= k < entry_keys(u).len() && entry_keys(u)[k] == v[i].0@;
                assert(entry_keys(v)[k] == entry_keys(u)[k]);
                assert(entry_keys(v)[i] == v[i].0@);
            }
        }
        assert(entries_map(u) =~= entries_map(v).remove(v[i].0@));
    } else {
        let w = v.drop_last();
        assert(entry_keys(w) =~= entry_keys(v).drop_last());
        lemma_entries_map_remove(w, i);
        assert(u.drop_last() =~= w.remove(i));
        assert(u.last() == v.last());
        assert(entry_keys(v)[i] == v[i].0@);
        assert(entry_keys(v)[v.len() - 1] == v.last().0@);
        assert(entries_map(u) =~= entries_map(v).remove(v[i].0@));
    }
}

/// The state after a full load of `libraries`: they become fully loaded and their
/// selective imports are dropped.
pub open spec fn after_full_load(st: LoadStateView, libraries: Seq<Seq<char>>) -> LoadStateView {
    LoadStateView {
        fully: st.fully + libraries.to_set(),
        selective: st.selective.remove_keys(libraries.to_set()),
    }
}

/// The state after importing `symbols` from `library`: nothing changes when the
/// library is already fully loaded; otherwise the symbols join its selective imports.
pub open spec fn after_selective_import(
    st: LoadStateView,
    symbols: Seq<Seq<char>>,
    library: Seq<char>,
) -> LoadStateView {
    if st.fully.contains(library) {
        st
    } else {
        LoadStateView {
            fully: st.fully,
            selective: st.selective.insert(
                library,
                (if st.selective.contains_key(library) {
                    st.selective[library]
                } else {
                    Set::empty()
                }) + symbols.to_set(),
            ),
        }
    }
}

/// The effect of one statement on the state at `position`: statements whose span
/// ends after `position` have none.
pub open spec fn after_statement(
    st: LoadStateView,
    stmt: LoadStatementView,
    position: u32,
) -> LoadStateView {
    if stmt.span.end_spec() > position {
        st
    } else {
        match stmt.kind {
            LoadKindView::FullLoad { libraries } => after_full_load(st, libraries),
            LoadKindView::SelectiveImport { symbols, library } => after_selective_import(
                st,
                symbols,
                library,
            ),
        }
    }
}

pub open spec fn empty_state() -> LoadStateView {
    LoadStateView { fully: Set::empty(), selective: Map::empty() }
}

/// The state at `position` after the statements, applied in order.
pub open spec fn state_at(stmts: Seq<LoadStatementView>, position: u32) -> LoadStateView
    decreases stmts.len(),
{
    if stmts.len() == 0 {
        empty_state()
    } else {
        after_statement(state_at(stmts.drop_last(), position), stmts.last(), position)
    }
}

pub open spec fn statement_views(v: Seq<LoadStatement>) -> Seq<LoadStatementView> {
    v.map_values(|s: LoadStatement| s@)
}

/// Everything usable in `a` is usable in `b`, and every library fully loaded in
/// `a` is fully loaded in `b`.
pub open spec fn state_le(a: LoadStateView, b: LoadStateView) -> bool {
    &&& a.fully.subset_of(b.fully)
    &&& forall|l: Seq<char>, s: Seq<char>|
        #![trigger symbol_available(b, l, s)]
        symbol_available(a, l, s) ==> symbol_available(b, l, s)
}

/// A selective import from a library that an earlier full load loaded changes
/// nothing, and leaves the library without selective imports.
pub proof fn law_full_load_then_import_is_noop(
    st: LoadStateView,
    libraries: Seq<Seq<char>>,
    symbols: Seq<Seq<char>>,
    library: Seq<char>,
)
    requires
        libraries.contains(library),
    ensures
        after_selective_import(after_full_load(st, libraries), symbols, library) == after_full_load(
            st,
            libraries,
        ),
        !after_full_load(st, libraries).selective.contains_key(library),
{
    assert(libraries.to_set().contains(library));
}

/// A full load of a library after a selective import from it makes the whole
/// library usable and drops its selective imports.
pub proof fn law_import_then_full_load(
    st: LoadStateView,
    symbols: Seq<Seq<char>>,
    library: Seq<char>,
    libraries: Seq<Seq<char>>,
    symbol: Seq<char>,
)
    requires
        libraries.contains(library),
    ensures
        ({
            let after = after_full_load(after_selective_import(st, symbols, library), libraries);
            &&& after.fully.contains(library)
            &&& !after.selective.contains_key(library)
            &&& symbol_available(after, library, symbol)
        }),
{
    assert(libraries.to_set().contains(library));
}

/// Selective imports from a library that is not fully loaded accumulate: after
/// importing `first` and then `second`, every symbol of both is usable.
pub proof fn law_imports_accumulate(
    st: LoadStateView,
    first: Seq<Seq<char>>,
    second: Seq<Seq<char>>,
    library: Seq<char>,
    symbol: Seq<char>,
)
    requires
        first.contains(symbol) || second.contains(symbol),
    ensures
        symbol_available(
            after_selective_import(after_selective_import(st, first, library), second, library),
            library,
            symbol,
        ),
{
    assert(first.contains(symbol) ==> first.to_set().contains(symbol));
    assert(second.contains(symbol) ==> second.to_set().contains(symbol));
}

/// Applying a statement never makes a usable symbol unusable, nor unloads a library.
pub proof fn law_statement_keeps_availability(
    st: LoadStateView,
    stmt: LoadStatementView,
    position: u32,
)
    ensures
        state_le(st, after_statement(st, stmt, position)),
{
    lemma_statement_inflationary(st, stmt, position);
}

proof fn lemma_statement_inflationary(st: LoadStateView, stmt: LoadStatementView, position: u32)
    ensures
        state_le(st, after_statement(st, stmt, position)),
{
    let after = after_statement(st, stmt, position);
    assert forall|l: Seq<char>, s: Seq<char>| symbol_available(st, l, s) implies #[trigger] symbol_available(
        after,
        l,
        s,
    ) by {
        match stmt.kind {
            LoadKindView::FullLoad { libraries } => {
                if libraries.to_set().contains(l) {
                } else {
                }
            },
            LoadKindView::SelectiveImport { symbols, library } => {},
        }
    }
}

proof fn lemma_statement_monotone(
    a: LoadStateView,
    b: LoadStateView,
    stmt: LoadStatementView,
    position: u32,
)
    requires
        state_le(a, b),
    ensures
        state_le(after_statement(a, stmt, position), after_statement(b, stmt, position)),
{
    let a2 = after_statement(a, stmt, position);
    let b2 = after_statement(b, stmt, position);
    assert forall|l: Seq<char>, s: Seq<char>| symbol_available(a2, l, s) implies #[trigger] symbol_available(
        b2,
        l,
        s,
    ) by {
        if stmt.span.end_spec() > position {
            assert(symbol_available(b, l, s));
        } else {
            match stmt.kind {
                LoadKindView::FullLoad { libraries } => {
                    if libraries.to_set().contains(l) {
                    } else {
                        assert(symbol_available(a, l, s));
                        assert(symbol_available(b, l, s));
                    }
                },
                LoadKindView::SelectiveImport { symbols, library } => {
                    if l == library && !a.fully.contains(library) && symbols.to_set().contains(s) {
                        if b.fully.contains(library) {
                        } else {
                        }
                    } else {
                        assert(symbol_available(a, l, s));
                        assert(symbol_available(b, l, s));
                    }
                },
            }
        }
    }
}

proof fn lemma_state_le_trans(a: LoadStateView, b: LoadStateView, c: LoadStateView)
    requires
        state_le(a, b),
        state_le(b, c),
    ensures
        state_le(a, c),
{
    assert forall|l: Seq<char>, s: Seq<char>| symbol_available(a, l, s) implies #[trigger] symbol_available(
        c,
        l,
        s,
    ) by {
        assert(symbol_available(b, l, s));
    }
}

/// What is usable at a position stays usable at every later position, and a
/// library fully loaded there stays fully loaded.
pub proof fn law_availability_grows_with_position(
    stmts: Seq<LoadStatementView>,
    earlier: u32,
    later: u32,
)
    requires
        earlier <= later,
    ensures
        state_le(state_at(stmts, earlier), state_at(stmts, later)),
    decreases stmts.len(),
{
    if stmts.len() == 0 {
    } else {
        let prefix = stmts.drop_last();
        let stmt = stmts.last();
        law_availability_grows_with_position(prefix, earlier, later);
        let a = state_at(prefix, earlier);
        let b = state_at(prefix, later);
        if stmt.span.end_spec() > earlier {
            lemma_statement_inflationary(b, stmt, later);
            lemma_state_le_trans(a, b, after_statement(b, stmt, later));
        } else {
            lemma_statement_monotone(a, b, stmt, later);
            assert(after_statement(a, stmt, earlier) == after_statement(a, stmt, later));
        }
    }
}

/// Applies a full load of `libraries` to `st`.
fn apply_full_load(st: &mut LoadState, libraries: &Vec<String>)
    requires
        old(st).wf(),
    ensures
        final(st).wf(),
        final(st)@ == after_full_load(old(st)@, views(libraries@)),
{
    let ghost start = st@;
    let mut j: usize = 0;
    assert(views(libraries@).take(0).to_set() =~= Set::<Seq<char>>::empty());
    assert(start.fully + Set::<Seq<char>>::empty() =~= start.fully);
    assert(start.selective.remove_keys(Set::<Seq<char>>::empty()) =~= start.selective);
    while j < libraries.len()
        invariant
            j <= libraries.len(),
            st.wf(),
            st@ == after_full_load(start, views(libraries@).take(j as int)),
        decreases libraries.len() - j,
    {
        let lib = &libraries[j];
        let ghost before = st@;
        if !contains_str(&st.fully_loaded, lib.as_str()) {
            let ghost old_fully = st.fully_loaded@;
            st.fully_loaded.push(lib.clone());
            assert(views(st.fully_loaded@) =~= views(old_fully).push(lib@));
            assert forall|a: int, b: int|
                0 <= a < b < views(st.fully_loaded@).len() implies views(st.fully_loaded@)[a]
                != views(st.fully_loaded@)[b] by {
                if b == views(old_fully).len() {
                    assert(views(old_fully)[a] == views(st.fully_loaded@)[a]);
                }
            }
        }
        assert(views(st.fully_loaded@).to_set() =~= before.fully.insert(lib@));
        match find_entry(&st.selective, lib.as_str()) {
            Some(i) => {
                proof {
                    lemma_entries_map_remove(st.selective@, i as int);
                }
                st.selective.remove(i);
            },
            None => {
                proof {
                    lemma_entries_map_absent(st.selective@, lib@);
                }
                assert(entries_map(st.selective@) =~= before.selective.remove(lib@));
            },
        }
        let ghost prefix = views(libraries@).take(j as int);
        assert(views(libraries@).take(j + 1) =~= prefix.push(lib@));
        assert(prefix.push(lib@).to_set() =~= prefix.to_set().insert(lib@));
        assert(st@.fully =~= start.fully + views(libraries@).take(j + 1).to_set());
        assert(st@.selective =~= start.selective.remove_keys(
            views(libraries@).take(j + 1).to_set(),
        ));
        j = j + 1;
    }
    assert(views(libraries@).take(libraries.len() as int) =~= views(libraries@));
}

/// Appends the strings of `add` to `v`, skipping those already present.
fn extend_unique_strings(v: &mut Vec<String>, add: &Vec<String>)
    requires
        no_dups(views(old(v)@)),
    ensures
        no_dups(views(final(v)@)),
        views(final(v)@).to_set() == views(old(v)@).to_set() + views(add@).to_set(),
{
    let ghost start = views(v@).to_set();
    let mut j: usize = 0;
    while j < add.len()
        invariant
            j <= add.len(),
            no_dups(views(v@)),
            views(v@).to_set() == start + views(add@).take(j as int).to_set(),
        decreases add.len() - j,
    {
        let s = &add[j];
        let ghost before = views(v@);
        if !contains_str(v, s.as_str()) {
            v.push(s.clone());
            assert(views(v@) =~= before.push(s@));
            assert forall|a: int, b: int| 0 <= a < b < views(v@).len() implies views(v@)[a]
                != views(v@)[b] by {
                if b == before.len() {
                    assert(before[a] == views(v@)[a]);
                }
            }
        }
        assert(views(v@).to_set() =~= before.to_set().insert(s@));
        let ghost prefix = views(add@).take(j as int);
        assert(views(add@).take(j + 1) =~= prefix.push(s@));
        assert(prefix.push(s@).to_set() =~= prefix.to_set().insert(s@));
        assert(views(v@).to_set() =~= start + views(add@).take(j + 1).to_set());
        j = j + 1;
    }
    assert(views(add@).take(add.len() as int) =~= views(add@));
}

/// Applies a selective import of `symbols` from `library` to `st`.
fn apply_selective_import(st: &mut LoadState, symbols: &Vec<String>, library: &String)
    requires
        old(st).wf(),
    ensures
        final(st).wf(),
        final(st)@ == after_selective_import(old(st)@, views(symbols@), library@),
{
    if contains_str(&st.fully_loaded, library.as_str()) {
        return ;
    }
    match find_entry(&st.selective, library.as_str()) {
        Some(i) => {
            proof {
                lemma_entries_map_index(st.selective@, i as int);
            }
            let syms = clone_strings(&st.selective[i].1);
            proof {
                assert(views(syms@) == views(st.selective@[i as int].1@));
            }
            let ghost old_syms = views(syms@).to_set();
            let ghost keys = entry_keys(st.selective@);
            let mut fresh: Vec<String> = Vec::new();
            proof {
                assert(views(fresh@).to_set() =~= Set::<Seq<char>>::empty());
            }
            extend_unique_strings(&mut fresh, &syms);
            extend_unique_strings(&mut fresh, symbols);
            let e = (library.clone(), fresh);
            proof {
                lemma_entries_map_update(st.selective@, i as int, e);
                assert(views(e.1@).to_set() =~= old_syms + views(symbols@).to_set());
            }
            st.selective.set(i, e);
        },
        None => {
            let mut fresh: Vec<String> = Vec::new();
            proof {
                assert(views(fresh@).to_set() =~= Set::<Seq<char>>::empty());
                lemma_entries_map_absent(st.selective@, library@);
            }
            extend_unique_strings(&mut fresh, symbols);
            let e = (library.clone(), fresh);
            proof {
                lemma_entries_map_push(st.selective@, e);
                assert(views(e.1@).to_set() =~= Set::<Seq<char>>::empty() + views(
                    symbols@,
                ).to_set());
            }
            st.selective.push(e);
        },
    }
}

/// The ordered `{% load %}` statements of a template.
///
/// Answers what libraries and symbols are available at a byte position: the
/// statements whose span ends at or before the position are applied in order.
#[derive(Clone, Debug, Default, PartialEq, Eq)]
pub struct LoadedLibraries {
    statements: Vec<LoadStatement>,
}

impl View for LoadedLibraries {
    type V = Seq<LoadStatementView>;

    closed spec fn view(&self) -> Seq<LoadStatementView> {
        statement_views(self.statements@)
    }
}

impl LoadedLibraries {
    pub fn new(statements: Vec<LoadStatement>) -> (l: LoadedLibraries)
        ensures
            l@ == statement_views(statements@),
    {
        LoadedLibraries { statements }
    }

    pub fn statements(&self) -> (r: &[LoadStatement])
        ensures
            statement_views(r@) == self@,
    {
        self.statements.as_slice()
    }

    pub fn is_empty(&self) -> (r: bool)
        ensures
            r == (self@.len() == 0),
    {
        self.statements.len() == 0
    }

    /// The load state at byte `position`.
    ///
    /// Statements whose span ends after `position` are skipped. A full load
    /// `{% load X Y %}` makes `X` and `Y` fully loaded and drops their selective
    /// imports; a selective import `{% load s from X %}` adds `s` to the imports
    /// of `X` unless `X` is already fully loaded.
    pub fn available_at(&self, position: u32) -> (st: LoadState)
        ensures
            st.wf(),
            st@ == state_at(self@, position),
    {
        let mut st = LoadState::empty();
        let mut i: usize = 0;
        while i < self.statements.len()
            invariant
                i <= self.statements.len(),
                st.wf(),
                st@ == state_at(self@.take(i as int), position),
            decreases self.statements.len() - i,
        {
            let stmt = &self.statements[i];
            assert(self@.take(i + 1).drop_last() =~= self@.take(i as int));
            assert(self@.take(i + 1).last() == stmt@);
            if stmt.span.end() <= position {
                match &stmt.kind {
                    LoadKind::FullLoad { libraries } => {
                        apply_full_load(&mut st, libraries);
                    },
                    LoadKind::SelectiveImport { symbols, library } => {
                        apply_selective_import(&mut st, symbols, library);
                    },
                }
            }
            i = i + 1;
        }
        assert(self@.take(self.statements.len() as int) =~= self@);
        st
    }
}

} // verus!
