use djls_semantic::facts::{Fact, Field, Reason, TemplateLibraryFact, TemplateLibrarySource, TemplateSymbolFact};
use djls_semantic::names::{LibraryName, PyModuleName, TemplateSymbolName};
use djls_semantic::registry::TemplateSymbolKind;
use djls_semantic::snapshots::{
    active_loadable_modules, assemble_template_library_snapshot, builtin_module_names, builtin_modules,
    is_builtin_library, symbol_snapshot_kind_rank, symbol_snapshots, template_symbol_kind, SymbolKind,
};

fn module(name: &str) -> PyModuleName {
    PyModuleName::parse(name).unwrap()
}

fn library(name: &str) -> LibraryName {
    LibraryName::parse(name).unwrap()
}

fn loadable_library(load_name: &str, module_name: &str) -> TemplateLibraryFact {
    TemplateLibraryFact {
        load_name: library(load_name),
        module: module(module_name),
        source: TemplateLibrarySource::AppTemplateTags { app: module("blog") },
    }
}

fn builtin_library(module_name: &str) -> TemplateLibraryFact {
    TemplateLibraryFact {
        load_name: library(module_name.split('.').next_back().unwrap()),
        module: module(module_name),
        source: TemplateLibrarySource::DjangoDefaultBuiltin,
    }
}

fn symbol(lib: &str, module_name: &str, kind: TemplateSymbolKind, name: &str) -> TemplateSymbolFact {
    TemplateSymbolFact {
        library: library(lib),
        module: module(module_name),
        kind,
        name: TemplateSymbolName::parse(name).unwrap(),
    }
}

#[test]
fn assembles_snapshot_from_library_and_symbol_facts() {
    let libraries = vec![builtin_library("django.template.defaulttags"), loadable_library("blog_tags", "blog.templatetags.blog_tags")];
    let symbols = vec![
        symbol("defaulttags", "django.template.defaulttags", TemplateSymbolKind::Tag, "if"),
        symbol("blog_tags", "blog.templatetags.blog_tags", TemplateSymbolKind::Filter, "shout"),
    ];
    let snapshot = assemble_template_library_snapshot(&Fact::known(libraries), &Fact::known(symbols));
    let Fact::Known { value } = snapshot else {
        panic!("expected known snapshot");
    };
    assert_eq!(value.libraries, vec![("blog_tags".to_string(), "blog.templatetags.blog_tags".to_string())]);
    assert_eq!(value.builtins, ["django.template.defaulttags"]);
    assert!(value.symbols.iter().any(|s| s.name == "if"
        && s.load_name.is_none()
        && s.library_module == "django.template.defaulttags"
        && s.module == "django.template.defaulttags"));
    assert!(value.symbols.iter().any(|s| s.name == "shout"
        && s.load_name.as_deref() == Some("blog_tags")
        && s.library_module == "blog.templatetags.blog_tags"
        && s.module == "blog.templatetags.blog_tags"));
}

#[test]
fn snapshot_skips_shadowed_loadable_symbols() {
    let libraries = vec![loadable_library("foo", "app_a.templatetags.foo"), loadable_library("foo", "app_b.templatetags.foo")];
    let symbols = vec![
        symbol("foo", "app_a.templatetags.foo", TemplateSymbolKind::Tag, "a_only"),
        symbol("foo", "app_b.templatetags.foo", TemplateSymbolKind::Tag, "b_only"),
    ];
    let snapshot = assemble_template_library_snapshot(&Fact::known(libraries), &Fact::known(symbols));
    let Fact::Known { value } = snapshot else {
        panic!("expected known snapshot");
    };
    assert_eq!(value.libraries, vec![("foo".to_string(), "app_b.templatetags.foo".to_string())]);
    assert!(!value.symbols.iter().any(|s| s.name == "a_only"));
    assert!(value.symbols.iter().any(|s| s.name == "b_only"
        && s.load_name.as_deref() == Some("foo")
        && s.library_module == "app_b.templatetags.foo"));
}

#[test]
fn snapshot_preserves_symbol_reasons_as_partial() {
    let reason = Reason::file(Field::TemplateSymbols, "blog/templatetags/blog_tags.py", "failed to parse template library module");
    let snapshot = assemble_template_library_snapshot(
        &Fact::known(vec![loadable_library("blog_tags", "blog.templatetags.blog_tags")]),
        &Fact::partial(Vec::new(), vec![reason.clone()]),
    );
    let Fact::Partial { value, reasons } = snapshot else {
        panic!("expected partial snapshot");
    };
    assert_eq!(value.libraries, vec![("blog_tags".to_string(), "blog.templatetags.blog_tags".to_string())]);
    assert_eq!(reasons, [reason]);
}

#[test]
fn unknown_libraries_give_an_unknown_snapshot() {
    let reason = Reason::file(Field::TemplateLibraries, "settings.py", "no libraries");
    let snapshot = assemble_template_library_snapshot(&Fact::unknown(vec![reason.clone()]), &Fact::known(Vec::new()));
    let Fact::Unknown { reasons } = snapshot else {
        panic!("expected unknown snapshot");
    };
    assert_eq!(reasons, [reason]);
}

#[test]
fn symbol_snapshots_are_sorted_builtins_first_then_by_module_kind_and_name() {
    let libraries = vec![
        loadable_library("b_tags", "blog.templatetags.b_tags"),
        loadable_library("a_tags", "blog.templatetags.a_tags"),
        builtin_library("django.template.defaultfilters"),
    ];
    let active = active_loadable_modules(&libraries);
    let builtins = builtin_modules(&libraries);
    let symbols = vec![
        symbol("b_tags", "blog.templatetags.b_tags", TemplateSymbolKind::Filter, "zeta"),
        symbol("a_tags", "blog.templatetags.a_tags", TemplateSymbolKind::Filter, "beta"),
        symbol("a_tags", "blog.templatetags.a_tags", TemplateSymbolKind::Tag, "gamma"),
        symbol("defaultfilters", "django.template.defaultfilters", TemplateSymbolKind::Filter, "upper"),
        symbol("a_tags", "blog.templatetags.a_tags", TemplateSymbolKind::Filter, "alpha"),
    ];
    let snapshots = symbol_snapshots(&symbols, &active, &builtins);
    let order: Vec<&str> = snapshots.iter().map(|s| s.name.as_str()).collect();
    assert_eq!(order, vec!["upper", "gamma", "alpha", "beta", "zeta"]);
}

#[test]
fn builtin_and_active_library_helpers() {
    let libraries = vec![
        builtin_library("django.template.defaulttags"),
        loadable_library("x", "first.x"),
        builtin_library("django.template.defaulttags"),
        loadable_library("x", "second.x"),
    ];
    assert_eq!(builtin_module_names(&libraries), vec!["django.template.defaulttags".to_string()]);
    let active = active_loadable_modules(&libraries);
    assert_eq!(active.len(), 1);
    assert_eq!(active[0].module, module("second.x"));
    assert!(is_builtin_library(&TemplateLibrarySource::SettingsBuiltins));
    assert!(!is_builtin_library(&TemplateLibrarySource::SettingsLibraries));
    assert_eq!(symbol_snapshot_kind_rank(Some(TemplateSymbolKind::Tag)), 0);
    assert_eq!(symbol_snapshot_kind_rank(Some(TemplateSymbolKind::Filter)), 1);
    assert_eq!(symbol_snapshot_kind_rank(None), 2);
    assert_eq!(template_symbol_kind(SymbolKind::Filter), TemplateSymbolKind::Filter);
}
