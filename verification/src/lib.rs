//! Semantic analysis of Django templates: `{% load %}` scoping, available
//! template symbols, template library registries and project facts.
use vstd::prelude::*;

pub mod text;
pub mod span;
pub mod load;
pub mod sorted;
pub mod inventory;
pub mod symbols;
pub mod constraints;
pub mod opaque;
pub mod validation;
pub mod names;
pub mod keyed;
pub mod registry;
pub mod facts;
pub mod pyast;
pub mod paths;
pub mod path_order;
pub mod settings;
pub mod modules;
pub mod template_dirs;
pub mod libraries;
pub mod interpreter;
pub mod project;
pub mod snapshots;
pub mod apps;
pub mod settings_files;
pub mod cache;
pub mod environments;
pub mod search;

verus! {
} // verus!
