use djls_semantic::names::{LibraryName, PyModuleName, TemplateSymbolName};
use djls_semantic::registry::{
    InstalledSymbolOrigin, LibraryOrigin, StaticKnowledge, SymbolDefinition, TemplateLibraries, TemplateLibrary,
    TemplateSymbol, TemplateSymbolKind,
};

fn module(name: &str) -> PyModuleName {
    PyModuleName::parse(name).unwrap()
}

fn library_name(name: &str) -> LibraryName {
    LibraryName::parse(name).unwrap()
}

fn symbol(kind: TemplateSymbolKind, name: &str, doc: Option<&str>) -> TemplateSymbol {
    TemplateSymbol {
        kind,
        name: TemplateSymbolName::parse(name).unwrap(),
        definition: SymbolDefinition::Unknown,
        doc: doc.map(str::to_string),
    }
}

fn builtin_library(name: &str, module_name: &str, symbols: Vec<TemplateSymbol>) -> TemplateLibrary {
    let mut library = TemplateLibrary::new_builtin(library_name(name), module(module_name));
    for s in symbols {
        library.merge_symbol(s);
    }
    library
}

fn active_library(name: &str, module_name: &str) -> TemplateLibrary {
    TemplateLibrary::new_active(library_name(name), module(module_name), None)
}

#[test]
fn builtin_candidates_keep_last_builtin_symbol() {
    let mut libraries = TemplateLibraries::new(StaticKnowledge::Known);
    let z_first = module("z_first");
    let a_second = module("a_second");
    libraries.push_builtin_order(z_first.clone());
    libraries.push_builtin_order(a_second.clone());
    libraries.insert_builtin(
        z_first,
        builtin_library("z_first", "z_first", vec![symbol(TemplateSymbolKind::Filter, "duplicate", Some("first"))]),
    );
    libraries.insert_builtin(
        a_second.clone(),
        builtin_library("a_second", "a_second", vec![symbol(TemplateSymbolKind::Filter, "duplicate", Some("second"))]),
    );

    let candidates = libraries.installed_symbol_candidates(TemplateSymbolKind::Filter);

    assert_eq!(candidates.len(), 1);
    assert_eq!(candidates[0].symbol.doc.as_deref(), Some("second"));
    assert_eq!(candidates[0].origin, InstalledSymbolOrigin::Builtin { module: a_second });
}

#[test]
fn registration_modules_keep_deterministic_precedence_order() {
    let mut libraries = TemplateLibraries::new(StaticKnowledge::Known);
    libraries.add_loadable(library_name("project_tags"), active_library("project_tags", "project.tags"));
    for module_name in ["z.templatetags.tags", "django.template.defaulttags", "z.templatetags.tags"] {
        let m = module(module_name);
        libraries.push_builtin_order(m.clone());
        if libraries.builtin_modules().iter().all(|b| b != &m) {
            libraries.insert_builtin(m.clone(), builtin_library("defaulttags", m.as_str(), Vec::new()));
        }
    }

    let modules: Vec<String> =
        libraries.registration_modules().into_iter().map(|m| m.as_str().to_string()).collect();

    assert_eq!(modules, vec!["project.tags", "z.templatetags.tags", "django.template.defaulttags"]);
}

#[test]
fn registration_modules_keep_known_partial_modules() {
    let mut libraries = TemplateLibraries::new(StaticKnowledge::Partial);
    libraries.add_loadable(library_name("project_tags"), active_library("project_tags", "project.tags"));

    let modules: Vec<String> =
        libraries.registration_modules().into_iter().map(|m| m.as_str().to_string()).collect();

    assert_eq!(modules, vec!["project.tags"]);
}

#[test]
fn registration_modules_are_empty_when_nothing_is_known() {
    let mut libraries = TemplateLibraries::default();
    libraries.add_loadable(library_name("project_tags"), active_library("project_tags", "project.tags"));
    assert!(libraries.registration_modules().is_empty());
    assert_eq!(libraries.knowledge(), StaticKnowledge::Unknown);
}

#[test]
fn merge_symbol_keeps_symbols_sorted_and_merges_duplicates() {
    let mut library = active_library("tags", "app.tags");
    library.merge_symbol(symbol(TemplateSymbolKind::Filter, "b", None));
    library.merge_symbol(symbol(TemplateSymbolKind::Tag, "z", None));
    library.merge_symbol(symbol(TemplateSymbolKind::Filter, "a", None));
    library.merge_symbol(TemplateSymbol {
        kind: TemplateSymbolKind::Filter,
        name: TemplateSymbolName::parse("b").unwrap(),
        definition: SymbolDefinition::Exact { file: "app/tags.py".to_string() },
        doc: Some("doc".to_string()),
    });
    let names: Vec<(TemplateSymbolKind, String)> =
        library.symbols().iter().map(|s| (s.kind, s.name().to_string())).collect();
    assert_eq!(
        names,
        vec![
            (TemplateSymbolKind::Tag, "z".to_string()),
            (TemplateSymbolKind::Filter, "a".to_string()),
            (TemplateSymbolKind::Filter, "b".to_string()),
        ]
    );
    let b = &library.symbols()[2];
    assert_eq!(b.doc(), Some("doc"));
    assert_eq!(b.definition, SymbolDefinition::Exact { file: "app/tags.py".to_string() });
}

#[test]
fn merge_keeps_existing_doc_and_more_precise_definition() {
    let mut library = active_library("tags", "app.tags");
    library.merge_symbol(TemplateSymbol {
        kind: TemplateSymbolKind::Tag,
        name: TemplateSymbolName::parse("t").unwrap(),
        definition: SymbolDefinition::Module(module("app.tags")),
        doc: Some("first".to_string()),
    });
    library.merge_symbol(TemplateSymbol {
        kind: TemplateSymbolKind::Tag,
        name: TemplateSymbolName::parse("t").unwrap(),
        definition: SymbolDefinition::LibraryFile("app/tags.py".to_string()),
        doc: Some("second".to_string()),
    });
    let t = &library.symbols()[0];
    assert_eq!(t.doc(), Some("first"));
    assert_eq!(t.definition, SymbolDefinition::Module(module("app.tags")));
    assert_eq!(SymbolDefinition::Unknown.rank(), 0);
    assert_eq!(SymbolDefinition::Exact { file: String::new() }.rank(), 3);
}

#[test]
fn loadable_libraries_are_listed_by_name_and_chosen_first() {
    let mut libraries = TemplateLibraries::new(StaticKnowledge::Known);
    libraries.add_loadable(library_name("zeta"), active_library("zeta", "z.tags"));
    libraries.add_loadable(library_name("alpha"), active_library("alpha", "a.tags"));
    libraries.add_loadable(library_name("alpha"), active_library("alpha", "a2.tags"));
    let names: Vec<String> =
        libraries.loadable_library_names().iter().map(|n| n.as_str().to_string()).collect();
    assert_eq!(names, vec!["alpha", "zeta"]);
    let all: Vec<String> =
        libraries.loadable_libraries().iter().map(|(_, l)| l.module().as_str().to_string()).collect();
    assert_eq!(all, vec!["a.tags", "a2.tags", "z.tags"]);
    assert_eq!(libraries.enabled_loadable_libraries().len(), 3);
    assert_eq!(libraries.loadable_library_module_str("alpha").map(|m| m.as_str()), Some("a.tags"));
    assert!(libraries.is_enabled_library_str("zeta"));
    assert!(!libraries.is_enabled_library_str("missing"));
    assert!(!libraries.is_enabled_library_str("not a name"));
    assert!(libraries.best_loadable_library_str("missing").is_none());
    let completion: Vec<String> =
        libraries.completion_library_names().iter().map(|n| n.as_str().to_string()).collect();
    assert_eq!(completion, vec!["alpha", "zeta"]);
}

#[test]
fn loadable_candidates_follow_builtins() {
    let mut libraries = TemplateLibraries::new(StaticKnowledge::Known);
    let b = module("django.template.defaulttags");
    libraries.push_builtin_order(b.clone());
    libraries.insert_builtin(
        b.clone(),
        builtin_library("defaulttags", "django.template.defaulttags", vec![
            symbol(TemplateSymbolKind::Tag, "if", None),
            symbol(TemplateSymbolKind::Tag, "for", None),
        ]),
    );
    let mut loadable = active_library("i18n", "django.templatetags.i18n");
    loadable.merge_symbol(symbol(TemplateSymbolKind::Tag, "trans", None));
    loadable.merge_symbol(symbol(TemplateSymbolKind::Filter, "language_name", None));
    libraries.add_loadable(library_name("i18n"), loadable);

    let tags = libraries.installed_symbol_candidates(TemplateSymbolKind::Tag);
    let names: Vec<&str> = tags.iter().map(|c| c.symbol.name()).collect();
    assert_eq!(names, vec!["for", "if", "trans"]);
    assert_eq!(tags[2].origin, InstalledSymbolOrigin::Loadable { load_name: library_name("i18n") });
    let libs = libraries.builtin_libraries();
    assert_eq!(libs.len(), 1);
    assert_eq!(libraries.builtin_libraries_by_module()[0].0, b);
}

#[test]
fn library_origin_and_status_accessors() {
    let origin = LibraryOrigin { app: module("blog"), module: module("blog.templatetags.blog_tags"), path: "blog/templatetags/blog_tags.py".to_string() };
    let library = TemplateLibrary::new_active(library_name("blog_tags"), module("blog.templatetags.blog_tags"), Some(origin.clone()));
    assert_eq!(library.origin(), Some(&origin));
    assert_eq!(library.name(), &library_name("blog_tags"));
    assert!(library.is_active());
    let builtin = TemplateLibrary::new_builtin(library_name("defaulttags"), module("django.template.defaulttags"));
    assert!(builtin.origin().is_none());
    assert!(builtin.is_active());
}
