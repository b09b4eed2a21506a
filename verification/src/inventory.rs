//! The inventory of template tags and filters that a Django environment offers.
use vstd::prelude::*;

use crate::text::views;

verus! {

/// Where a tag or filter comes from.
#[derive(Clone, Debug, PartialEq, Eq)]
pub enum TagProvenance {
    /// A builtin: always available.
    Builtin { module: String },
    /// Part of a loadable library, available after `{% load load_name %}`.
    Library { load_name: String, module: String },
}

/// One tag or filter of the inventory.
#[derive(Clone, Debug, PartialEq, Eq)]
pub struct TemplateTag {
    pub name: String,
    pub provenance: TagProvenance,
    pub defining_module: String,
    pub doc: Option<String>,
}

/// What availability depends on: a symbol's name, and the library it needs
/// (`None` for a builtin).
pub struct SymbolEntry {
    pub name: Seq<char>,
    pub library: Option<Seq<char>>,
}

impl TemplateTag {
    pub open spec fn entry(&self) -> SymbolEntry {
        SymbolEntry {
            name: self.name@,
            library: match &self.provenance {
                TagProvenance::Builtin { .. } => None,
                TagProvenance::Library { load_name, .. } => Some(load_name@),
            },
        }
    }

    pub fn new(name: String, provenance: TagProvenance, defining_module: String, doc: Option<String>) -> (t: TemplateTag)
        ensures
            t.name == name,
            t.provenance == provenance,
            t.defining_module == defining_module,
            t.doc == doc,
    {
        TemplateTag { name, provenance, defining_module, doc }
    }
}

pub open spec fn entries(v: Seq<TemplateTag>) -> Seq<SymbolEntry> {
    v.map_values(|t: TemplateTag| t.entry())
}

/// The inventory: tags, filters, loadable libraries (load name and module) and
/// builtin modules.
#[derive(Clone, Debug, PartialEq, Eq)]
pub struct TemplateTags {
    pub tags: Vec<TemplateTag>,
    pub filters: Vec<TemplateTag>,
    pub libraries: Vec<(String, String)>,
    pub builtins: Vec<String>,
}

impl TemplateTags {
    pub fn new(
        tags: Vec<TemplateTag>,
        filters: Vec<TemplateTag>,
        libraries: Vec<(String, String)>,
        builtins: Vec<String>,
    ) -> (t: TemplateTags)
        ensures
            t.tags == tags,
            t.filters == filters,
            t.libraries == libraries,
            t.builtins == builtins,
    {
        TemplateTags { tags, filters, libraries, builtins }
    }

    /// The tags.
    pub fn iter(&self) -> (r: &Vec<TemplateTag>)
        ensures
            r == &self.tags,
    {
        &self.tags
    }

    /// The filters.
    pub fn filters(&self) -> (r: &Vec<TemplateTag>)
        ensures
            r == &self.filters,
    {
        &self.filters
    }

    /// The load names of the loadable libraries.
    pub open spec fn library_names(&self) -> Seq<Seq<char>> {
        self.libraries@.map_values(|e: (String, String)| e.0@)
    }

    /// Whether a loadable library has this load name.
    pub fn has_library(&self, name: &str) -> (r: bool)
        ensures
            r == self.library_names().contains(name@),
    {
        let mut i: usize = 0;
        while i < self.libraries.len()
            invariant
                i <= self.libraries.len(),
                forall|j: int| 0 <= j < i ==> self.libraries@[j].0@ != name@,
            decreases self.libraries.len() - i,
        {
            if crate::text::str_eq(self.libraries[i].0.as_str(), name) {
                assert(self.library_names()[i as int] == name@);
                return true;
            }
            i = i + 1;
        }
        assert forall|j: int| 0 <= j < self.library_names().len() implies self.library_names()[j]
            != name@ by {
            assert(self.library_names()[j] == self.libraries@[j].0@);
        }
        false
    }

    /// The builtin modules, as given.
    pub open spec fn builtin_modules(&self) -> Seq<Seq<char>> {
        views(self.builtins@)
    }
}

} // verus!
