use djls_semantic::inventory::{TagProvenance, TemplateTag, TemplateTags};
use djls_semantic::load::{LoadKind, LoadStatement, LoadedLibraries};
use djls_semantic::span::Span;
use djls_semantic::symbols::{AvailableSymbols, FilterAvailability, TagAvailability};

fn builtin(name: &str, module: &str) -> TemplateTag {
    TemplateTag::new(
        name.to_string(),
        TagProvenance::Builtin { module: module.to_string() },
        module.to_string(),
        None,
    )
}

fn library(name: &str, load_name: &str, module: &str) -> TemplateTag {
    TemplateTag::new(
        name.to_string(),
        TagProvenance::Library { load_name: load_name.to_string(), module: module.to_string() },
        module.to_string(),
        None,
    )
}

fn libs(pairs: &[(&str, &str)]) -> Vec<(String, String)> {
    pairs.iter().map(|(a, b)| (a.to_string(), b.to_string())).collect()
}

fn make_load(span: (u32, u32), kind: LoadKind) -> LoadStatement {
    LoadStatement::new(Span::new(span.0, span.1), kind)
}

fn full(names: &[&str]) -> LoadKind {
    LoadKind::FullLoad { libraries: names.iter().map(|s| s.to_string()).collect() }
}

fn selective(symbols: &[&str], library: &str) -> LoadKind {
    LoadKind::SelectiveImport {
        symbols: symbols.iter().map(|s| s.to_string()).collect(),
        library: library.to_string(),
    }
}

fn test_inventory() -> TemplateTags {
    TemplateTags::new(
        vec![
            builtin("if", "django.template.defaulttags"),
            builtin("for", "django.template.defaulttags"),
            builtin("block", "django.template.loader_tags"),
            library("trans", "i18n", "django.templatetags.i18n"),
            library("blocktrans", "i18n", "django.templatetags.i18n"),
            library("static", "static", "django.templatetags.static"),
            library("get_static_prefix", "static", "django.templatetags.static"),
        ],
        vec![],
        libs(&[("i18n", "django.templatetags.i18n"), ("static", "django.templatetags.static")]),
        vec!["django.template.defaulttags".to_string(), "django.template.loader_tags".to_string()],
    )
}

fn two_library_inventory(tags: Vec<TemplateTag>, filters: Vec<TemplateTag>) -> TemplateTags {
    TemplateTags::new(
        tags,
        filters,
        libs(&[("lib_a", "app.templatetags.lib_a"), ("lib_b", "app.templatetags.lib_b")]),
        vec![],
    )
}

fn test_inventory_with_filters() -> TemplateTags {
    TemplateTags::new(
        vec![builtin("if", "django.template.defaulttags")],
        vec![
            builtin("title", "django.template.defaultfilters"),
            builtin("lower", "django.template.defaultfilters"),
            library("apnumber", "humanize", "django.contrib.humanize.templatetags.humanize"),
            library("intcomma", "humanize", "django.contrib.humanize.templatetags.humanize"),
        ],
        libs(&[("humanize", "django.contrib.humanize.templatetags.humanize")]),
        vec![
            "django.template.defaulttags".to_string(),
            "django.template.defaultfilters".to_string(),
        ],
    )
}

fn candidates_of<'a>(symbols: &'a AvailableSymbols, name: &str) -> Option<&'a Vec<String>> {
    symbols.unavailable_candidates().iter().find(|(n, _)| n == name).map(|(_, l)| l)
}

#[test]
fn builtins_always_available() {
    let inventory = test_inventory();
    let loaded = LoadedLibraries::new(vec![]);
    let symbols = AvailableSymbols::at_position(&loaded, &inventory, 0);
    assert_eq!(symbols.check("if"), TagAvailability::Available);
    assert_eq!(symbols.check("for"), TagAvailability::Available);
    assert_eq!(symbols.check("block"), TagAvailability::Available);
}

#[test]
fn library_tag_before_load_is_unloaded() {
    let inventory = test_inventory();
    let loaded = LoadedLibraries::new(vec![make_load((50, 20), full(&["i18n"]))]);
    let symbols = AvailableSymbols::at_position(&loaded, &inventory, 10);
    assert_eq!(symbols.check("trans"), TagAvailability::Unloaded { library: "i18n".into() });
}

#[test]
fn library_tag_after_load_is_available() {
    let inventory = test_inventory();
    let loaded = LoadedLibraries::new(vec![make_load((50, 20), full(&["i18n"]))]);
    let symbols = AvailableSymbols::at_position(&loaded, &inventory, 100);
    assert_eq!(symbols.check("trans"), TagAvailability::Available);
    assert_eq!(symbols.check("blocktrans"), TagAvailability::Available);
}

#[test]
fn selective_import_only_makes_imported_symbols_available() {
    let inventory = test_inventory();
    let loaded = LoadedLibraries::new(vec![make_load((10, 30), selective(&["trans"], "i18n"))]);
    let symbols = AvailableSymbols::at_position(&loaded, &inventory, 100);
    assert_eq!(symbols.check("trans"), TagAvailability::Available);
    assert_eq!(symbols.check("blocktrans"), TagAvailability::Unloaded { library: "i18n".into() });
    assert!(symbols.is_symbol_imported("i18n", "trans"));
    assert!(!symbols.is_symbol_imported("i18n", "blocktrans"));
    assert!(!symbols.is_library_loaded("i18n"));
}

#[test]
fn full_load_overrides_selective() {
    let inventory = test_inventory();
    let loaded = LoadedLibraries::new(vec![
        make_load((10, 30), selective(&["trans"], "i18n")),
        make_load((50, 20), full(&["i18n"])),
    ]);
    let symbols = AvailableSymbols::at_position(&loaded, &inventory, 100);
    assert_eq!(symbols.check("trans"), TagAvailability::Available);
    assert_eq!(symbols.check("blocktrans"), TagAvailability::Available);
    assert!(symbols.is_library_loaded("i18n"));
}

#[test]
fn unknown_tag_is_unknown() {
    let inventory = test_inventory();
    let loaded = LoadedLibraries::new(vec![]);
    let symbols = AvailableSymbols::at_position(&loaded, &inventory, 100);
    assert_eq!(symbols.check("nonexistent_tag"), TagAvailability::Unknown);
    assert_eq!(symbols.check("foobar"), TagAvailability::Unknown);
}

#[test]
fn tag_in_multiple_libraries_produces_ambiguous() {
    let mut tags = vec![builtin("if", "django.template.defaulttags")];
    tags.push(library("mytag", "lib_a", "app.templatetags.lib_a"));
    tags.push(library("mytag", "lib_b", "app.templatetags.lib_b"));
    let inventory = two_library_inventory(tags, vec![]);
    let loaded = LoadedLibraries::new(vec![]);
    let symbols = AvailableSymbols::at_position(&loaded, &inventory, 100);
    assert_eq!(
        symbols.check("mytag"),
        TagAvailability::AmbiguousUnloaded { libraries: vec!["lib_a".into(), "lib_b".into()] }
    );
}

#[test]
fn ambiguous_resolved_by_loading_one_library() {
    let inventory = two_library_inventory(
        vec![
            library("mytag", "lib_a", "app.templatetags.lib_a"),
            library("mytag", "lib_b", "app.templatetags.lib_b"),
        ],
        vec![],
    );
    let loaded = LoadedLibraries::new(vec![make_load((10, 20), full(&["lib_a"]))]);
    let symbols = AvailableSymbols::at_position(&loaded, &inventory, 100);
    assert_eq!(symbols.check("mytag"), TagAvailability::Available);
}

#[test]
fn multiple_loads_cumulative() {
    let inventory = test_inventory();
    let loaded = LoadedLibraries::new(vec![
        make_load((10, 20), full(&["i18n"])),
        make_load((40, 20), full(&["static"])),
    ]);
    let symbols = AvailableSymbols::at_position(&loaded, &inventory, 100);
    assert_eq!(symbols.check("trans"), TagAvailability::Available);
    assert_eq!(symbols.check("static"), TagAvailability::Available);
    assert_eq!(symbols.check("get_static_prefix"), TagAvailability::Available);
}

#[test]
fn between_loads_partial_availability() {
    let inventory = test_inventory();
    let loaded = LoadedLibraries::new(vec![
        make_load((10, 20), full(&["i18n"])),
        make_load((80, 20), full(&["static"])),
    ]);
    let symbols = AvailableSymbols::at_position(&loaded, &inventory, 50);
    assert_eq!(symbols.check("trans"), TagAvailability::Available);
    assert_eq!(symbols.check("static"), TagAvailability::Unloaded { library: "static".into() });
}

#[test]
fn available_tags_returns_correct_set() {
    let inventory = test_inventory();
    let loaded = LoadedLibraries::new(vec![make_load((10, 20), full(&["i18n"]))]);
    let symbols = AvailableSymbols::at_position(&loaded, &inventory, 100);
    let available = symbols.available_tags();
    let has = |n: &str| available.iter().any(|s| s == n);
    assert!(has("if"));
    assert!(has("for"));
    assert!(has("block"));
    assert!(has("trans"));
    assert!(has("blocktrans"));
    assert!(!has("static"));
    assert!(!has("get_static_prefix"));
    // Sorted and free of duplicates.
    assert_eq!(
        available,
        &vec![
            "block".to_string(),
            "blocktrans".to_string(),
            "for".to_string(),
            "if".to_string(),
            "trans".to_string()
        ]
    );
}

#[test]
fn unavailable_candidates_correct() {
    let inventory = test_inventory();
    let loaded = LoadedLibraries::new(vec![]);
    let symbols = AvailableSymbols::at_position(&loaded, &inventory, 100);
    assert!(candidates_of(&symbols, "trans").is_some());
    assert!(candidates_of(&symbols, "blocktrans").is_some());
    assert!(candidates_of(&symbols, "static").is_some());
    assert!(candidates_of(&symbols, "get_static_prefix").is_some());
    assert!(candidates_of(&symbols, "trans").unwrap().iter().any(|l| l == "i18n"));
    assert!(candidates_of(&symbols, "static").unwrap().iter().any(|l| l == "static"));
}

#[test]
fn empty_inventory_everything_unknown() {
    let inventory = TemplateTags::new(vec![], vec![], vec![], vec![]);
    let loaded = LoadedLibraries::new(vec![]);
    let symbols = AvailableSymbols::at_position(&loaded, &inventory, 100);
    assert_eq!(symbols.check("anything"), TagAvailability::Unknown);
    assert!(symbols.available_tags().is_empty());
    assert!(symbols.unavailable_candidates().is_empty());
}

#[test]
fn selective_import_with_ambiguous_tag() {
    let inventory = two_library_inventory(
        vec![
            library("shared", "lib_a", "app.templatetags.lib_a"),
            library("shared", "lib_b", "app.templatetags.lib_b"),
        ],
        vec![],
    );
    let loaded = LoadedLibraries::new(vec![make_load((10, 30), selective(&["shared"], "lib_a"))]);
    let symbols = AvailableSymbols::at_position(&loaded, &inventory, 100);
    assert_eq!(symbols.check("shared"), TagAvailability::Available);
}

#[test]
fn builtin_filter_always_available() {
    let inventory = test_inventory_with_filters();
    let loaded = LoadedLibraries::new(vec![]);
    let symbols = AvailableSymbols::at_position(&loaded, &inventory, 0);
    assert_eq!(symbols.check_filter("title"), FilterAvailability::Available);
    assert_eq!(symbols.check_filter("lower"), FilterAvailability::Available);
}

#[test]
fn library_filter_before_load_is_unloaded() {
    let inventory = test_inventory_with_filters();
    let loaded = LoadedLibraries::new(vec![make_load((50, 20), full(&["humanize"]))]);
    let symbols = AvailableSymbols::at_position(&loaded, &inventory, 10);
    assert_eq!(
        symbols.check_filter("apnumber"),
        FilterAvailability::Unloaded { library: "humanize".into() }
    );
}

#[test]
fn library_filter_after_load_is_available() {
    let inventory = test_inventory_with_filters();
    let loaded = LoadedLibraries::new(vec![make_load((50, 20), full(&["humanize"]))]);
    let symbols = AvailableSymbols::at_position(&loaded, &inventory, 100);
    assert_eq!(symbols.check_filter("apnumber"), FilterAvailability::Available);
    assert_eq!(symbols.check_filter("intcomma"), FilterAvailability::Available);
    assert!(symbols.available_filters().iter().any(|f| f == "intcomma"));
}

#[test]
fn unknown_filter_is_unknown() {
    let inventory = test_inventory_with_filters();
    let loaded = LoadedLibraries::new(vec![]);
    let symbols = AvailableSymbols::at_position(&loaded, &inventory, 100);
    assert_eq!(symbols.check_filter("nonexistent"), FilterAvailability::Unknown);
}

#[test]
fn filter_in_multiple_libraries_produces_ambiguous() {
    let inventory = two_library_inventory(
        vec![],
        vec![
            library("shared", "lib_a", "app.templatetags.lib_a"),
            library("shared", "lib_b", "app.templatetags.lib_b"),
        ],
    );
    let loaded = LoadedLibraries::new(vec![]);
    let symbols = AvailableSymbols::at_position(&loaded, &inventory, 100);
    assert_eq!(
        symbols.check_filter("shared"),
        FilterAvailability::AmbiguousUnloaded { libraries: vec!["lib_a".into(), "lib_b".into()] }
    );
}

#[test]
fn selective_import_filter_available() {
    let inventory = test_inventory_with_filters();
    let loaded =
        LoadedLibraries::new(vec![make_load((10, 30), selective(&["apnumber"], "humanize"))]);
    let symbols = AvailableSymbols::at_position(&loaded, &inventory, 100);
    assert_eq!(symbols.check_filter("apnumber"), FilterAvailability::Available);
    assert_eq!(
        symbols.check_filter("intcomma"),
        FilterAvailability::Unloaded { library: "humanize".into() }
    );
}

#[test]
fn ambiguous_libraries_are_sorted() {
    let inventory = two_library_inventory(
        vec![
            library("shared", "lib_b", "app.templatetags.lib_b"),
            library("shared", "lib_a", "app.templatetags.lib_a"),
            library("shared", "lib_b", "app.templatetags.lib_b"),
        ],
        vec![],
    );
    let loaded = LoadedLibraries::new(vec![]);
    let symbols = AvailableSymbols::at_position(&loaded, &inventory, 100);
    assert_eq!(
        symbols.check("shared"),
        TagAvailability::AmbiguousUnloaded { libraries: vec!["lib_a".into(), "lib_b".into()] }
    );
}
