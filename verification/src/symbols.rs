//! The tags and filters available at a position of a template.
use vstd::prelude::*;

use crate::inventory::{entries, SymbolEntry, TemplateTag, TemplateTags};
use crate::load::{symbol_available, LoadState, LoadStateView, LoadedLibraries};
use crate::sorted::{
    insert_sorted, keys_of, lemma_multimap_index, lemma_sorted_no_dups, multimap_add,
    multimap_find, multimap_view, sorted_multimap,
};
use crate::text::{clone_strings, contains_str, no_dups, str_lt, strictly_sorted, views};

verus! {

broadcast use vstd::seq::Seq::group_seq_extra;

/// Whether a tag name is available at a position.
#[derive(Clone, Debug, PartialEq, Eq)]
pub enum TagAvailability {
    /// Builtin, or from a loaded library.
    Available,
    /// Known, but its one library is not loaded.
    Unloaded { library: String },
    /// Known, but defined in several libraries, none loaded; sorted by name.
    AmbiguousUnloaded { libraries: Vec<String> },
    /// Neither builtin nor in any library of the inventory.
    Unknown,
}

/// Whether a filter name is available at a position.
#[derive(Clone, Debug, PartialEq, Eq)]
pub enum FilterAvailability {
    /// Builtin, or from a loaded library.
    Available,
    /// Known, but its one library is not loaded.
    Unloaded { library: String },
    /// Known, but defined in several libraries, none loaded; sorted by name.
    AmbiguousUnloaded { libraries: Vec<String> },
    /// Neither builtin nor in any library of the inventory.
    Unknown,
}

/// The outcome of checking a name, as values.
pub enum Status {
    Available,
    Unloaded(Seq<char>),
    AmbiguousUnloaded(Seq<Seq<char>>),
    Unknown,
}

/// The elements of a set of strings, sorted.
pub open spec fn sorted_elements(s: Set<Seq<char>>) -> Seq<Seq<char>> {
    choose|q: Seq<Seq<char>>| strictly_sorted(q) && q.to_set() == s
}

/// What checking `name` gives, for the available names and the candidates of the
/// unavailable ones.
pub open spec fn status_in(
    available: Set<Seq<char>>,
    candidates: Map<Seq<char>, Set<Seq<char>>>,
    name: Seq<char>,
) -> Status {
    if available.contains(name) {
        Status::Available
    } else if candidates.contains_key(name) {
        let libraries = sorted_elements(candidates[name]);
        if libraries.len() == 1 {
            Status::Unloaded(libraries[0])
        } else {
            Status::AmbiguousUnloaded(libraries)
        }
    } else {
        Status::Unknown
    }
}

impl TagAvailability {
    pub open spec fn status(&self) -> Status {
        match self {
            TagAvailability::Available => Status::Available,
            TagAvailability::Unloaded { library } => Status::Unloaded(library@),
            TagAvailability::AmbiguousUnloaded { libraries } => Status::AmbiguousUnloaded(views(libraries@)),
            TagAvailability::Unknown => Status::Unknown,
        }
    }
}

impl FilterAvailability {
    pub open spec fn status(&self) -> Status {
        match self {
            FilterAvailability::Available => Status::Available,
            FilterAvailability::Unloaded { library } => Status::Unloaded(library@),
            FilterAvailability::AmbiguousUnloaded { libraries } => Status::AmbiguousUnloaded(views(libraries@)),
            FilterAvailability::Unknown => Status::Unknown,
        }
    }
}

/// `name` is a builtin of the inventory.
pub open spec fn is_builtin_name(e: Seq<SymbolEntry>, name: Seq<char>) -> bool {
    exists|i: int| 0 <= i < e.len() && e[i].name == name && e[i].library is None
}

/// The load names of the libraries that define `name`.
pub open spec fn libraries_defining(e: Seq<SymbolEntry>, name: Seq<char>) -> Set<Seq<char>> {
    Set::new(|l: Seq<char>| exists|i: int| 0 <= i < e.len() && e[i].name == name && e[i].library == Some(l))
}

/// Some library defines `name`.
pub open spec fn has_library_definition(e: Seq<SymbolEntry>, name: Seq<char>) -> bool {
    exists|i: int| 0 <= i < e.len() && e[i].name == name && e[i].library is Some
}

/// `name` is usable in state `st`: a builtin, or defined by a library that is
/// fully loaded or from which `name` was imported.
pub open spec fn name_available(e: Seq<SymbolEntry>, st: LoadStateView, name: Seq<char>) -> bool {
    is_builtin_name(e, name) || exists|l: Seq<char>|
        #[trigger] libraries_defining(e, name).contains(l) && symbol_available(st, l, name)
}

/// The names usable in `st`.
pub open spec fn available_names(e: Seq<SymbolEntry>, st: LoadStateView) -> Set<Seq<char>> {
    Set::new(|n: Seq<char>| name_available(e, st, n))
}

/// Each name that is defined by some library but not usable in `st`, with the
/// libraries that define it.
pub open spec fn unavailable_candidates(e: Seq<SymbolEntry>, st: LoadStateView) -> Map<
    Seq<char>,
    Set<Seq<char>>,
> {
    Map::new(
        |n: Seq<char>| has_library_definition(e, n) && !name_available(e, st, n),
        |n: Seq<char>| libraries_defining(e, n),
    )
}

/// Splits the names of `items` into those usable in `st` (sorted) and the others
/// with their candidate libraries.
fn classify(items: &Vec<TemplateTag>, st: &LoadState) -> (r: (Vec<String>, Vec<(String, Vec<String>)>))
    requires
        st.wf(),
    ensures
        strictly_sorted(views(r.0@)),
        views(r.0@).to_set() == available_names(entries(items@), st@),
        sorted_multimap(r.1@),
        multimap_view(r.1@) == unavailable_candidates(entries(items@), st@),
{
    let ghost e = entries(items@);
    let mut builtins: Vec<String> = Vec::new();
    let mut cands: Vec<(String, Vec<String>)> = Vec::new();
    assert(views(builtins@).to_set() =~= Set::<Seq<char>>::empty());
    assert(multimap_view(cands@) =~= Map::<Seq<char>, Set<Seq<char>>>::empty());
    let mut k: usize = 0;
    while k < items.len()
        invariant
            k <= items.len(),
            e == entries(items@),
            strictly_sorted(views(builtins@)),
            views(builtins@).to_set() == Set::new(|n: Seq<char>| is_builtin_name(e.take(k as int), n)),
            sorted_multimap(cands@),
            multimap_view(cands@) == Map::new(
                |n: Seq<char>| has_library_definition(e.take(k as int), n),
                |n: Seq<char>| libraries_defining(e.take(k as int), n),
            ),
        decreases items.len() - k,
    {
        let item = &items[k];
        let ghost ek = e.take(k as int);
        let ghost ek1 = e.take(k + 1);
        assert(ek1 =~= ek.push(item.entry()));
        assert(e[k as int] == item.entry());
        match &item.provenance {
            crate::inventory::TagProvenance::Builtin { .. } => {
                insert_sorted(&mut builtins, item.name.as_str());
                assert forall|n: Seq<char>| is_builtin_name(ek1, n) == (is_builtin_name(ek, n) || n
                    == item.name@) by {
                    if is_builtin_name(ek1, n) && n != item.name@ {
                        let i = choose|i: int|
                            0 <= i < ek1.len() && ek1[i].name == n && ek1[i].library is None;
                        assert(ek[i] == ek1[i]);
                    }
                    if is_builtin_name(ek, n) {
                        let i = choose|i: int|
                            0 <= i < ek.len() && ek[i].name == n && ek[i].library is None;
                        assert(ek1[i] == ek[i]);
                    }
                    if n == item.name@ {
                        assert(ek1[k as int] == item.entry());
                    }
                }
                assert(views(builtins@).to_set() =~= Set::new(
                    |n: Seq<char>| is_builtin_name(ek1, n),
                ));
                assert forall|n: Seq<char>| has_library_definition(ek1, n) == has_library_definition(ek, n) by {
                    if has_library_definition(ek1, n) {
                        let i = choose|i: int|
                            0 <= i < ek1.len() && ek1[i].name == n && ek1[i].library is Some;
                        assert(ek[i] == ek1[i]);
                    }
                    if has_library_definition(ek, n) {
                        let i = choose|i: int|
                            0 <= i < ek.len() && ek[i].name == n && ek[i].library is Some;
                        assert(ek1[i] == ek[i]);
                    }
                }
                assert forall|n: Seq<char>| libraries_defining(ek1, n) == libraries_defining(ek, n) by {
                    assert forall|l: Seq<char>| libraries_defining(ek1, n).contains(l) == libraries_defining(ek, n).contains(l) by {
                        if libraries_defining(ek1, n).contains(l) {
                            let i = choose|i: int|
                                0 <= i < ek1.len() && ek1[i].name == n && ek1[i].library == Some(l);
                            assert(ek[i] == ek1[i]);
                        }
                        if libraries_defining(ek, n).contains(l) {
                            let i = choose|i: int|
                                0 <= i < ek.len() && ek[i].name == n && ek[i].library == Some(l);
                            assert(ek1[i] == ek[i]);
                        }
                    }
                    assert(libraries_defining(ek1, n) =~= libraries_defining(ek, n));
                }
                assert(multimap_view(cands@) =~= Map::new(
                    |n: Seq<char>| has_library_definition(ek1, n),
                    |n: Seq<char>| libraries_defining(ek1, n),
                ));
            },
            crate::inventory::TagProvenance::Library { load_name, .. } => {
                let ghost before = multimap_view(cands@);
                multimap_add(&mut cands, item.name.as_str(), load_name.as_str());
                assert forall|n: Seq<char>| is_builtin_name(ek1, n) == is_builtin_name(ek, n) by {
                    if is_builtin_name(ek1, n) {
                        let i = choose|i: int|
                            0 <= i < ek1.len() && ek1[i].name == n && ek1[i].library is None;
                        assert(ek[i] == ek1[i]);
                    }
                    if is_builtin_name(ek, n) {
                        let i = choose|i: int|
                            0 <= i < ek.len() && ek[i].name == n && ek[i].library is None;
                        assert(ek1[i] == ek[i]);
                    }
                }
                assert(views(builtins@).to_set() =~= Set::new(
                    |n: Seq<char>| is_builtin_name(ek1, n),
                ));
                assert forall|n: Seq<char>| has_library_definition(ek1, n) == (has_library_definition(ek, n) || n == item.name@) by {
                    if has_library_definition(ek1, n) && n != item.name@ {
                        let i = choose|i: int|
                            0 <= i < ek1.len() && ek1[i].name == n && ek1[i].library is Some;
                        assert(ek[i] == ek1[i]);
                    }
                    if has_library_definition(ek, n) {
                        let i = choose|i: int|
                            0 <= i < ek.len() && ek[i].name == n && ek[i].library is Some;
                        assert(ek1[i] == ek[i]);
                    }
                    if n == item.name@ {
                        assert(ek1[k as int] == item.entry());
                    }
                }
                assert forall|n: Seq<char>| libraries_defining(ek1, n) == (if n == item.name@ {
                    libraries_defining(ek, n).insert(load_name@)
                } else {
                    libraries_defining(ek, n)
                }) by {
                    assert forall|l: Seq<char>| libraries_defining(ek1, n).contains(l) == (if n == item.name@ {
                        libraries_defining(ek, n).insert(load_name@)
                    } else {
                        libraries_defining(ek, n)
                    }).contains(l) by {
                        if libraries_defining(ek1, n).contains(l) {
                            let i = choose|i: int|
                                0 <= i < ek1.len() && ek1[i].name == n && ek1[i].library == Some(l);
                            if i < k {
                                assert(ek[i] == ek1[i]);
                            }
                        }
                        if libraries_defining(ek, n).contains(l) {
                            let i = choose|i: int|
                                0 <= i < ek.len() && ek[i].name == n && ek[i].library == Some(l);
                            assert(ek1[i] == ek[i]);
                        }
                        if n == item.name@ && l == load_name@ {
                            assert(ek1[k as int] == item.entry());
                        }
                    }
                    assert(libraries_defining(ek1, n) =~= (if n == item.name@ {
                        libraries_defining(ek, n).insert(load_name@)
                    } else {
                        libraries_defining(ek, n)
                    }));
                }
                assert forall|n: Seq<char>| !has_library_definition(ek, n) implies libraries_defining(ek, n) == Set::<Seq<char>>::empty() by {
                    {
                        assert forall|l: Seq<char>| !libraries_defining(ek, n).contains(l) by {
                            if libraries_defining(ek, n).contains(l) {
                                let i = choose|i: int|
                                    0 <= i < ek.len() && ek[i].name == n && ek[i].library == Some(l);
                            }
                        }
                        assert(libraries_defining(ek, n) =~= Set::<Seq<char>>::empty());
                    }
                }
                assert(multimap_view(cands@) =~= Map::new(
                    |n: Seq<char>| has_library_definition(ek1, n),
                    |n: Seq<char>| libraries_defining(ek1, n),
                ));
            },
        }
        k = k + 1;
    }
    assert(e.take(items.len() as int) =~= e);
    let ghost builtin_set = views(builtins@).to_set();
    let ghost cmap = multimap_view(cands@);
    proof {
        lemma_sorted_no_dups(keys_of(cands@));
    }
    // Second pass: move the candidates whose library is loaded into the available set.
    let mut avail = clone_strings(&builtins);
    let mut out: Vec<(String, Vec<String>)> = Vec::new();
    let mut j: usize = 0;
    assert(multimap_view(out@) =~= Map::<Seq<char>, Set<Seq<char>>>::empty());
    while j < cands.len()
        invariant
            j <= cands.len(),
            e == entries(items@),
            st.wf(),
            sorted_multimap(cands@),
            no_dups(keys_of(cands@)),
            builtin_set == Set::new(|n: Seq<char>| is_builtin_name(e, n)),
            views(builtins@).to_set() == builtin_set,
            cmap == multimap_view(cands@),
            cmap == Map::new(
                |n: Seq<char>| has_library_definition(e, n),
                |n: Seq<char>| libraries_defining(e, n),
            ),
            strictly_sorted(views(avail@)),
            views(avail@).to_set() == builtin_set + Set::new(
                |n: Seq<char>| keys_of(cands@).take(j as int).contains(n) && name_available(e, st@, n),
            ),
            sorted_multimap(out@),
            forall|i: int| 0 <= i < out@.len() ==> keys_of(cands@).take(j as int).contains(#[trigger] keys_of(out@)[i]),
            multimap_view(out@) == Map::new(
                |n: Seq<char>| keys_of(cands@).take(j as int).contains(n) && !name_available(e, st@, n),
                |n: Seq<char>| libraries_defining(e, n),
            ),
        decreases cands.len() - j,
    {
        let name = &cands[j].0;
        let libs = &cands[j].1;
        proof {
            lemma_multimap_index(cands@, j as int);
            assert(keys_of(cands@)[j as int] == name@);
        }
        let ghost n = name@;
        let mut found = contains_str(&builtins, name.as_str());
        assert(found == builtin_set.contains(n));
        let mut li: usize = 0;
        while li < libs.len() && !found
            invariant
                li <= libs.len(),
                st.wf(),
                found ==> name_available(e, st@, n),
                !found ==> !is_builtin_name(e, n),
                !found ==> forall|t: int| 0 <= t < li ==> !symbol_available(st@, #[trigger] libs@[t]@, n),
                views(libs@).to_set() == libraries_defining(e, n),
                n == name@,
            decreases libs.len() - li, (if found { 0int } else { 1int }),
        {
            if st.is_symbol_available(libs[li].as_str(), name.as_str()) {
                assert(views(libs@)[li as int] == libs@[li as int]@);
                assert(views(libs@).to_set().contains(libs@[li as int]@));
                found = true;
            } else {
                li = li + 1;
            }
        }
        let ghost keys_j = keys_of(cands@).take(j as int);
        let ghost keys_j1 = keys_of(cands@).take(j + 1);
        assert(keys_j1 =~= keys_j.push(n));
        assert forall|x: Seq<char>| #[trigger] keys_j1.contains(x) == (keys_j.contains(x) || x == n) by {
            if keys_j1.contains(x) {
                let t = choose|t: int| 0 <= t < keys_j1.len() && keys_j1[t] == x;
                if t < keys_j.len() {
                    assert(keys_j[t] == x);
                }
            }
            if keys_j.contains(x) {
                let t = choose|t: int| 0 <= t < keys_j.len() && keys_j[t] == x;
                assert(keys_j1[t] == x);
            }
            if x == n {
                assert(keys_j1[j as int] == n);
            }
        }
        if !found {
            assert(!name_available(e, st@, n)) by {
                if name_available(e, st@, n) {
                    let l = choose|l: Seq<char>|
                        #[trigger] libraries_defining(e, n).contains(l) && symbol_available(st@, l, n);
                    assert(views(libs@).to_set().contains(l));
                    let t = choose|t: int| 0 <= t < views(libs@).len() && views(libs@)[t] == l;
                    assert(libs@[t]@ == l);
                }
            }
        }
        if found {
            insert_sorted(&mut avail, name.as_str());
            assert(views(avail@).to_set() =~= builtin_set + Set::new(
                |x: Seq<char>| keys_j1.contains(x) && name_available(e, st@, x),
            ));
            assert(multimap_view(out@) =~= Map::new(
                |x: Seq<char>| keys_j1.contains(x) && !name_available(e, st@, x),
                |x: Seq<char>| libraries_defining(e, x),
            ));
        } else {
            let copied = clone_strings(libs);
            let ghost old_out = out@;
            let entry = (name.clone(), copied);
            out.push(entry);
            proof {
                assert(keys_of(out@) =~= keys_of(old_out).push(n));
                assert forall|a: int, b: int| 0 <= a < b < keys_of(out@).len() implies str_lt(
                    #[trigger] keys_of(out@)[a],
                    #[trigger] keys_of(out@)[b],
                ) by {
                    if b == keys_of(out@).len() - 1 {
                        assert(keys_j.contains(keys_of(old_out)[a]));
                        let t = choose|t: int| 0 <= t < keys_j.len() && keys_j[t] == keys_of(old_out)[a];
                        assert(str_lt(keys_of(cands@)[t], keys_of(cands@)[j as int]));
                    } else {
                        assert(str_lt(keys_of(old_out)[a], keys_of(old_out)[b]));
                    }
                }
                assert forall|i: int| 0 <= i < out@.len() implies strictly_sorted(
                    views(#[trigger] out@[i].1@),
                ) by {
                    if i < old_out.len() {
                        assert(out@[i] == old_out[i]);
                    } else {
                        assert(views(out@[i].1@) == views(cands@[j as int].1@));
                    }
                }
                assert forall|i: int| 0 <= i < out@.len() implies keys_j1.contains(
                    #[trigger] keys_of(out@)[i],
                ) by {
                    if i < old_out.len() {
                        assert(keys_of(out@)[i] == keys_of(old_out)[i]);
                        let t = choose|t: int| 0 <= t < keys_j.len() && keys_j[t] == keys_of(old_out)[i];
                        assert(keys_j1[t] == keys_j[t]);
                    } else {
                        assert(keys_j1[j as int] == n);
                    }
                }
                lemma_sorted_no_dups(keys_of(out@));
                assert forall|x: Seq<char>| #[trigger] multimap_view(out@).contains_key(x) == (keys_j1.contains(x) && !name_available(e, st@, x)) by {
                    if keys_of(out@).contains(x) {
                        let t = choose|t: int| 0 <= t < keys_of(out@).len() && keys_of(out@)[t] == x;
                        if t < old_out.len() {
                            assert(keys_of(old_out)[t] == x);
                            assert(keys_of(old_out).contains(x));
                            assert(multimap_view(old_out).contains_key(x));
                            assert(keys_j.contains(x) && !name_available(e, st@, x));
                        } else {
                            assert(x == n);
                        }
                        assert(keys_j1.contains(x) && !name_available(e, st@, x));
                    }
                    if keys_j1.contains(x) && !name_available(e, st@, x) {
                        if x == n {
                            assert(keys_of(out@)[old_out.len() as int] == n);
                        } else {
                            let t = choose|t: int| 0 <= t < keys_j1.len() && keys_j1[t] == x;
                            assert(keys_j[t] == x);
                            assert(multimap_view(old_out).contains_key(x));
                            let u = choose|u: int| 0 <= u < keys_of(old_out).len() && keys_of(old_out)[u] == x;
                            assert(keys_of(out@)[u] == x);
                        }
                    }
                }
                assert forall|x: Seq<char>| #[trigger] multimap_view(out@).contains_key(x) implies multimap_view(out@)[x] == libraries_defining(e, x) by {
                    let t = choose|t: int| 0 <= t < keys_of(out@).len() && keys_of(out@)[t] == x;
                    assert(out@[t].0@ == x);
                    lemma_multimap_index(out@, t);
                    if t < old_out.len() {
                        assert(out@[t] == old_out[t]);
                        lemma_multimap_index(old_out, t);
                    }
                }
                assert(multimap_view(out@) =~= Map::new(
                    |x: Seq<char>| keys_j1.contains(x) && !name_available(e, st@, x),
                    |x: Seq<char>| libraries_defining(e, x),
                ));
                assert(views(avail@).to_set() =~= builtin_set + Set::new(
                    |x: Seq<char>| keys_j1.contains(x) && name_available(e, st@, x),
                ));
            }
        }
        j = j + 1;
    }
    assert(keys_of(cands@).take(cands.len() as int) =~= keys_of(cands@));
    proof {
        assert forall|x: Seq<char>| #[trigger] keys_of(cands@).contains(x) == has_library_definition(e, x) by {
            assert(cmap.contains_key(x) == has_library_definition(e, x));
        }
        assert forall|x: Seq<char>| #[trigger] available_names(e, st@).contains(x) == views(avail@).to_set().contains(x) by {
            if name_available(e, st@, x) && !is_builtin_name(e, x) {
                let l = choose|l: Seq<char>|
                    #[trigger] libraries_defining(e, x).contains(l) && symbol_available(st@, l, x);
                let i = choose|i: int| 0 <= i < e.len() && e[i].name == x && e[i].library == Some(l);
                assert(has_library_definition(e, x));
            }
        }
    }
    assert(views(avail@).to_set() =~= available_names(e, st@));
    assert(multimap_view(out@) =~= unavailable_candidates(e, st@));
    (avail, out)
}

/// A builtin tag or filter is available in every load state.
pub proof fn law_builtins_always_available(e: Seq<SymbolEntry>, st: LoadStateView, name: Seq<char>)
    requires
        is_builtin_name(e, name),
    ensures
        status_in(available_names(e, st), unavailable_candidates(e, st), name) is Available,
{
    assert(available_names(e, st).contains(name));
}

/// Every symbol of a fully loaded library is available.
pub proof fn law_loaded_library_symbols_available(
    e: Seq<SymbolEntry>,
    st: LoadStateView,
    name: Seq<char>,
    library: Seq<char>,
)
    requires
        libraries_defining(e, name).contains(library),
        st.fully.contains(library),
    ensures
        status_in(available_names(e, st), unavailable_candidates(e, st), name) is Available,
{
    assert(symbol_available(st, library, name));
    assert(available_names(e, st).contains(name));
}

/// A name is unknown exactly when no entry of the inventory has it.
pub proof fn law_unknown_iff_undefined(e: Seq<SymbolEntry>, st: LoadStateView, name: Seq<char>)
    ensures
        (status_in(available_names(e, st), unavailable_candidates(e, st), name) is Unknown) <==> (
        forall|i: int| 0 <= i < e.len() ==> #[trigger] e[i].name != name),
{
    if exists|i: int| 0 <= i < e.len() && #[trigger] e[i].name == name {
        let i = choose|i: int| 0 <= i < e.len() && #[trigger] e[i].name == name;
        match e[i].library {
            None => {
                assert(is_builtin_name(e, name));
                assert(available_names(e, st).contains(name));
            },
            Some(l) => {
                assert(has_library_definition(e, name));
                if !name_available(e, st, name) {
                    assert(unavailable_candidates(e, st).contains_key(name));
                } else {
                    assert(available_names(e, st).contains(name));
                }
            },
        }
    } else {
        assert(!is_builtin_name(e, name));
        assert(!has_library_definition(e, name));
        assert(!libraries_defining(e, name).contains(choose|l: Seq<char>| libraries_defining(e, name).contains(l)));
        assert(!name_available(e, st, name));
        assert(!available_names(e, st).contains(name));
        assert(!unavailable_candidates(e, st).contains_key(name));
    }
}

/// The tags and filters available at a position, and for the known but
/// unavailable ones, the libraries that would provide them.
#[derive(Clone, Debug)]
pub struct AvailableSymbols {
    available: Vec<String>,
    candidates: Vec<(String, Vec<String>)>,
    available_filters: Vec<String>,
    filter_candidates: Vec<(String, Vec<String>)>,
    load_state: LoadState,
}

/// The mathematical content of [`AvailableSymbols`].
pub struct AvailableSymbolsView {
    pub tags: Set<Seq<char>>,
    pub tag_candidates: Map<Seq<char>, Set<Seq<char>>>,
    pub filters: Set<Seq<char>>,
    pub filter_candidates: Map<Seq<char>, Set<Seq<char>>>,
    pub load_state: LoadStateView,
}

impl View for AvailableSymbols {
    type V = AvailableSymbolsView;

    closed spec fn view(&self) -> AvailableSymbolsView {
        AvailableSymbolsView {
            tags: views(self.available@).to_set(),
            tag_candidates: multimap_view(self.candidates@),
            filters: views(self.available_filters@).to_set(),
            filter_candidates: multimap_view(self.filter_candidates@),
            load_state: self.load_state@,
        }
    }
}

/// What the available symbols are for an inventory and a load state.
pub open spec fn symbols_for(inventory: TemplateTags, st: LoadStateView) -> AvailableSymbolsView {
    AvailableSymbolsView {
        tags: available_names(entries(inventory.tags@), st),
        tag_candidates: unavailable_candidates(entries(inventory.tags@), st),
        filters: available_names(entries(inventory.filters@), st),
        filter_candidates: unavailable_candidates(entries(inventory.filters@), st),
        load_state: st,
    }
}

impl AvailableSymbols {
    pub closed spec fn wf(&self) -> bool {
        &&& strictly_sorted(views(self.available@))
        &&& sorted_multimap(self.candidates@)
        &&& strictly_sorted(views(self.available_filters@))
        &&& sorted_multimap(self.filter_candidates@)
        &&& values_nonempty(multimap_view(self.candidates@))
        &&& values_nonempty(multimap_view(self.filter_candidates@))
        &&& self.load_state.wf()
    }

    /// The symbols available at `position` given the template's loads.
    pub fn at_position(loaded_libraries: &LoadedLibraries, inventory: &TemplateTags, position: u32) -> (r: AvailableSymbols)
        ensures
            r.wf(),
            r@ == symbols_for(*inventory, crate::load::state_at(loaded_libraries@, position)),
    {
        let load_state = loaded_libraries.available_at(position);
        Self::from_load_state(&load_state, inventory)
    }

    /// The symbols available in `load_state`.
    pub fn from_load_state(load_state: &LoadState, inventory: &TemplateTags) -> (r: AvailableSymbols)
        requires
            load_state.wf(),
        ensures
            r.wf(),
            r@ == symbols_for(*inventory, load_state@),
    {
        let (available, candidates) = classify(&inventory.tags, load_state);
        let (available_filters, filter_candidates) = classify(&inventory.filters, load_state);
        let state = LoadState::copy(load_state);
        proof {
            lemma_candidates_nonempty(entries(inventory.tags@), load_state@);
            lemma_candidates_nonempty(entries(inventory.filters@), load_state@);
        }
        AvailableSymbols { available, candidates, available_filters, filter_candidates, load_state: state }
    }

    /// Whether `tag_name` is available here.
    pub fn check(&self, tag_name: &str) -> (r: TagAvailability)
        requires
            self.wf(),
        ensures
            r.status() == status_in(self@.tags, self@.tag_candidates, tag_name@),
            r is Available <==> self@.tags.contains(tag_name@),
            r is Unknown <==> !self@.tags.contains(tag_name@) && !self@.tag_candidates.contains_key(tag_name@),
            r matches TagAvailability::Unloaded { library } ==> !self@.tags.contains(tag_name@)
                && self@.tag_candidates.contains_key(tag_name@)
                && self@.tag_candidates[tag_name@] == set![library@],
            r matches TagAvailability::AmbiguousUnloaded { libraries } ==> !self@.tags.contains(tag_name@)
                && self@.tag_candidates.contains_key(tag_name@)
                && views(libraries@).len() >= 2
                && strictly_sorted(views(libraries@))
                && views(libraries@).to_set() == self@.tag_candidates[tag_name@],
    {
        match lookup(&self.available, &self.candidates, tag_name) {
            Lookup::Available => TagAvailability::Available,
            Lookup::One(library) => TagAvailability::Unloaded { library },
            Lookup::Several(libraries) => TagAvailability::AmbiguousUnloaded { libraries },
            Lookup::Unknown => TagAvailability::Unknown,
        }
    }

    /// Whether `filter_name` is available here.
    pub fn check_filter(&self, filter_name: &str) -> (r: FilterAvailability)
        requires
            self.wf(),
        ensures
            r.status() == status_in(self@.filters, self@.filter_candidates, filter_name@),
            r is Available <==> self@.filters.contains(filter_name@),
            r is Unknown <==> !self@.filters.contains(filter_name@) && !self@.filter_candidates.contains_key(filter_name@),
            r matches FilterAvailability::Unloaded { library } ==> !self@.filters.contains(filter_name@)
                && self@.filter_candidates.contains_key(filter_name@)
                && self@.filter_candidates[filter_name@] == set![library@],
            r matches FilterAvailability::AmbiguousUnloaded { libraries } ==> !self@.filters.contains(filter_name@)
                && self@.filter_candidates.contains_key(filter_name@)
                && views(libraries@).len() >= 2
                && strictly_sorted(views(libraries@))
                && views(libraries@).to_set() == self@.filter_candidates[filter_name@],
    {
        match lookup(&self.available_filters, &self.filter_candidates, filter_name) {
            Lookup::Available => FilterAvailability::Available,
            Lookup::One(library) => FilterAvailability::Unloaded { library },
            Lookup::Several(libraries) => FilterAvailability::AmbiguousUnloaded { libraries },
            Lookup::Unknown => FilterAvailability::Unknown,
        }
    }

    /// The available tag names, sorted.
    pub fn available_tags(&self) -> (r: &Vec<String>)
        requires
            self.wf(),
        ensures
            strictly_sorted(views(r@)),
            views(r@).to_set() == self@.tags,
    {
        &self.available
    }

    /// The available filter names, sorted.
    pub fn available_filters(&self) -> (r: &Vec<String>)
        requires
            self.wf(),
        ensures
            strictly_sorted(views(r@)),
            views(r@).to_set() == self@.filters,
    {
        &self.available_filters
    }

    /// The unavailable tag names with their candidate libraries, sorted by name.
    pub fn unavailable_candidates(&self) -> (r: &Vec<(String, Vec<String>)>)
        requires
            self.wf(),
        ensures
            sorted_multimap(r@),
            multimap_view(r@) == self@.tag_candidates,
    {
        &self.candidates
    }

    /// Whether `library` is fully loaded here.
    pub fn is_library_loaded(&self, library: &str) -> (r: bool)
        ensures
            r == self@.load_state.fully.contains(library@),
    {
        self.load_state.is_fully_loaded(library)
    }

    /// Whether `symbol` of `library` is usable here: the library is fully loaded or
    /// the symbol was imported from it.
    pub fn is_symbol_imported(&self, library: &str, symbol: &str) -> (r: bool)
        requires
            self.wf(),
        ensures
            r == symbol_available(self@.load_state, library@, symbol@),
    {
        self.load_state.is_symbol_available(library, symbol)
    }
}

enum Lookup {
    Available,
    One(String),
    Several(Vec<String>),
    Unknown,
}

impl Lookup {
    spec fn status(&self) -> Status {
        match self {
            Lookup::Available => Status::Available,
            Lookup::One(library) => Status::Unloaded(library@),
            Lookup::Several(libraries) => Status::AmbiguousUnloaded(views(libraries@)),
            Lookup::Unknown => Status::Unknown,
        }
    }
}

/// A sorted sequence is the sorted elements of its set.
pub proof fn lemma_sorted_elements(q: Seq<Seq<char>>)
    requires
        strictly_sorted(q),
    ensures
        sorted_elements(q.to_set()) == q,
{
    let c = sorted_elements(q.to_set());
    assert(strictly_sorted(q) && q.to_set() == q.to_set());
    crate::sorted::lemma_sorted_unique(c, q);
}

/// Every key of the map has a value.
pub open spec fn values_nonempty(m: Map<Seq<char>, Set<Seq<char>>>) -> bool {
    forall|k: Seq<char>| #[trigger] m.contains_key(k) ==> m[k] != Set::<Seq<char>>::empty()
}

proof fn lemma_candidates_nonempty(e: Seq<SymbolEntry>, st: LoadStateView)
    ensures
        values_nonempty(unavailable_candidates(e, st)),
{
    assert forall|k: Seq<char>| #[trigger] unavailable_candidates(e, st).contains_key(k) implies
        unavailable_candidates(e, st)[k] != Set::<Seq<char>>::empty() by {
        let i = choose|i: int| 0 <= i < e.len() && e[i].name == k && e[i].library is Some;
        let l = e[i].library->0;
        assert(libraries_defining(e, k).contains(l));
    }
}

fn lookup(available: &Vec<String>, candidates: &Vec<(String, Vec<String>)>, name: &str) -> (r: Lookup)
    requires
        sorted_multimap(candidates@),
        values_nonempty(multimap_view(candidates@)),
    ensures
        r.status() == status_in(views(available@).to_set(), multimap_view(candidates@), name@),
        r is Available <==> views(available@).to_set().contains(name@),
        r is Unknown <==> !views(available@).to_set().contains(name@) && !multimap_view(candidates@).contains_key(name@),
        r matches Lookup::One(library) ==> !views(available@).to_set().contains(name@)
            && multimap_view(candidates@).contains_key(name@)
            && multimap_view(candidates@)[name@] == set![library@],
        r matches Lookup::Several(libraries) ==> !views(available@).to_set().contains(name@)
            && multimap_view(candidates@).contains_key(name@)
            && views(libraries@).len() >= 2
            && strictly_sorted(views(libraries@))
            && views(libraries@).to_set() == multimap_view(candidates@)[name@],
{
    if contains_str(available, name) {
        return Lookup::Available;
    }
    proof {
        lemma_sorted_no_dups(keys_of(candidates@));
    }
    match multimap_find(candidates, name) {
        Some(i) => {
            proof {
                lemma_multimap_index(candidates@, i as int);
            }
            let libs = clone_strings(&candidates[i].1);
            if libs.len() == 0 {
                assert(views(libs@).to_set() =~= Set::<Seq<char>>::empty());
                assert(false);
                Lookup::Unknown
            } else if libs.len() == 1 {
                let library = libs[0].clone();
                assert(views(libs@) =~= seq![library@]);
                assert(views(libs@).to_set() =~= set![library@]);
                proof {
                    lemma_sorted_elements(views(libs@));
                }
                Lookup::One(library)
            } else {
                proof {
                    lemma_sorted_elements(views(libs@));
                }
                Lookup::Several(libs)
            }
        },
        None => {
            assert(!multimap_view(candidates@).contains_key(name@));
            Lookup::Unknown
        },
    }
}

} // verus!
