use djls_semantic::inventory::{TagProvenance, TemplateTag, TemplateTags};
use djls_semantic::load::LoadKind;
use djls_semantic::opaque::OpaqueRegions;
use djls_semantic::span::Span;
use djls_semantic::validation::{
    compute_loaded_libraries, is_closer_or_intermediate, validate_filter_scoping,
    validate_load_libraries, validate_tag_scoping, EnvironmentInventory, EnvironmentLibrary,
    EnvironmentSymbol, Filter, Node, TagSpec, TagSpecs, ValidationError,
};

/// Splits a template into nodes the way the template parser does: tag and
/// variable spans cover what lies between the delimiters. The content of
/// `verbatim` and `comment` blocks is returned as opaque regions.
fn parse(source: &str) -> (Vec<Node>, OpaqueRegions) {
    let mut nodes = Vec::new();
    let mut regions = Vec::new();
    let mut open_block: Option<(String, usize)> = None;
    let mut i = 0;
    while i < source.len() {
        let rest = &source[i..];
        if rest.starts_with("{%") {
            let end = i + 2 + rest[2..].find("%}").unwrap();
            let content = &source[i + 2..end];
            let bits: Vec<String> = content.split_whitespace().map(String::from).collect();
            let name = bits[0].clone();
            if let Some((closer, start)) = &open_block {
                if *closer == name {
                    regions.push(Span::saturating_from_bounds_usize(*start, i));
                    open_block = None;
                }
            } else if name == "verbatim" || name == "comment" {
                open_block = Some((format!("end{name}"), end + 2));
            }
            nodes.push(Node::Tag {
                name,
                bits,
                span: Span::saturating_from_bounds_usize(i + 2, end),
            });
            i = end + 2;
        } else if rest.starts_with("{{") {
            let end = i + 2 + rest[2..].find("}}").unwrap();
            let content = &source[i + 2..end];
            let mut parts = content.split('|');
            let var = parts.next().unwrap().trim().to_string();
            let mut offset = i + 2 + content.find('|').unwrap_or(content.len());
            let mut filters = Vec::new();
            for part in parts {
                offset += 1;
                let name = part.split(':').next().unwrap().trim().to_string();
                let start = offset + part.find(name.as_str()).unwrap();
                filters.push(Filter {
                    name: name.clone(),
                    arg: None,
                    span: Span::saturating_from_bounds_usize(start, start + name.len()),
                });
                offset += part.len();
            }
            nodes.push(Node::Variable {
                var,
                filters,
                span: Span::saturating_from_bounds_usize(i + 2, end),
            });
            i = end + 2;
        } else {
            let next = rest[1..].find('{').map(|p| i + 1 + p).unwrap_or(source.len());
            nodes.push(Node::Text { span: Span::saturating_from_bounds_usize(i, next) });
            i = next;
        }
    }
    (nodes, OpaqueRegions::new(regions))
}

fn spec(name: &str, end: Option<&str>, intermediates: &[&str]) -> TagSpec {
    TagSpec {
        name: name.to_string(),
        end_tag: end.map(String::from),
        intermediate_tags: intermediates.iter().map(|s| s.to_string()).collect(),
    }
}

fn builtin_specs() -> TagSpecs {
    TagSpecs::new(vec![
        spec("if", Some("endif"), &["elif", "else"]),
        spec("for", Some("endfor"), &["empty"]),
        spec("block", Some("endblock"), &[]),
        spec("verbatim", Some("endverbatim"), &[]),
        spec("comment", Some("endcomment"), &[]),
        spec("blocktrans", Some("endblocktrans"), &["plural"]),
        spec("csrf_token", None, &[]),
    ])
}

fn builtin(name: &str, module: &str) -> TemplateTag {
    TemplateTag::new(
        name.to_string(),
        TagProvenance::Builtin { module: module.to_string() },
        module.to_string(),
        None,
    )
}

fn library(name: &str, load_name: &str, module: &str) -> TemplateTag {
    TemplateTag::new(
        name.to_string(),
        TagProvenance::Library { load_name: load_name.to_string(), module: module.to_string() },
        module.to_string(),
        None,
    )
}

fn libs(pairs: &[(&str, &str)]) -> Vec<(String, String)> {
    pairs.iter().map(|(a, b)| (a.to_string(), b.to_string())).collect()
}

fn test_inventory() -> TemplateTags {
    TemplateTags::new(
        vec![
            builtin("if", "django.template.defaulttags"),
            builtin("for", "django.template.defaulttags"),
            builtin("block", "django.template.loader_tags"),
            builtin("csrf_token", "django.template.defaulttags"),
            builtin("verbatim", "django.template.defaulttags"),
            builtin("comment", "django.template.defaulttags"),
            library("trans", "i18n", "django.templatetags.i18n"),
            library("blocktrans", "i18n", "django.templatetags.i18n"),
            library("static", "static", "django.templatetags.static"),
        ],
        vec![],
        libs(&[("i18n", "django.templatetags.i18n"), ("static", "django.templatetags.static")]),
        vec!["django.template.defaulttags".to_string(), "django.template.loader_tags".to_string()],
    )
}

fn test_inventory_with_filters() -> TemplateTags {
    TemplateTags::new(
        vec![
            builtin("if", "django.template.defaulttags"),
            builtin("for", "django.template.defaulttags"),
            builtin("block", "django.template.loader_tags"),
            builtin("csrf_token", "django.template.defaulttags"),
            builtin("verbatim", "django.template.defaulttags"),
            builtin("comment", "django.template.defaulttags"),
            library("trans", "i18n", "django.templatetags.i18n"),
            library("static", "static", "django.templatetags.static"),
        ],
        vec![
            builtin("title", "django.template.defaultfilters"),
            builtin("lower", "django.template.defaultfilters"),
            builtin("default", "django.template.defaultfilters"),
            library("apnumber", "humanize", "django.contrib.humanize.templatetags.humanize"),
            library("intcomma", "humanize", "django.contrib.humanize.templatetags.humanize"),
        ],
        libs(&[
            ("i18n", "django.templatetags.i18n"),
            ("static", "django.templatetags.static"),
            ("humanize", "django.contrib.humanize.templatetags.humanize"),
        ]),
        vec![
            "django.template.defaulttags".to_string(),
            "django.template.loader_tags".to_string(),
            "django.template.defaultfilters".to_string(),
        ],
    )
}

fn env_library(load_name: &str, app: &str, tags: &[&str], filters: &[&str]) -> EnvironmentInventory {
    let mut env = EnvironmentInventory::default();
    add_env_library(&mut env, load_name, app, tags, filters);
    env
}

fn add_env_library(
    env: &mut EnvironmentInventory,
    load_name: &str,
    app: &str,
    tags: &[&str],
    filters: &[&str],
) {
    env.libraries.push(EnvironmentLibrary {
        load_name: load_name.to_string(),
        app_module: app.to_string(),
    });
    for t in tags {
        env.tags.push(EnvironmentSymbol {
            name: t.to_string(),
            library_load_name: load_name.to_string(),
            app_module: app.to_string(),
        });
    }
    for f in filters {
        env.filters.push(EnvironmentSymbol {
            name: f.to_string(),
            library_load_name: load_name.to_string(),
            app_module: app.to_string(),
        });
    }
}

fn tag_errors(inv: Option<&TemplateTags>, env: Option<&EnvironmentInventory>, source: &str) -> Vec<ValidationError> {
    let (nodes, regions) = parse(source);
    validate_tag_scoping(&nodes, inv, env, &builtin_specs(), &regions)
}

fn filter_errors(inv: Option<&TemplateTags>, env: Option<&EnvironmentInventory>, source: &str) -> Vec<ValidationError> {
    let (nodes, regions) = parse(source);
    validate_filter_scoping(&nodes, inv, env, &regions)
}

fn library_errors(inv: Option<&TemplateTags>, env: Option<&EnvironmentInventory>, source: &str) -> Vec<ValidationError> {
    let (nodes, regions) = parse(source);
    validate_load_libraries(&nodes, inv, env, &regions)
}

fn all_errors(inv: Option<&TemplateTags>, env: Option<&EnvironmentInventory>, source: &str) -> Vec<ValidationError> {
    let mut errors = tag_errors(inv, env, source);
    errors.extend(filter_errors(inv, env, source));
    errors.extend(library_errors(inv, env, source));
    errors
}

// --- compute_loaded_libraries over parsed templates ---

fn loads(source: &str) -> djls_semantic::load::LoadedLibraries {
    compute_loaded_libraries(&parse(source).0)
}

#[test]
fn empty_template_no_loads() {
    let loaded = loads("<p>Hello</p>");
    assert!(loaded.is_empty());
    assert!(loaded.statements().is_empty());
}

#[test]
fn single_full_load() {
    let loaded = loads("{% load i18n %}");
    assert_eq!(loaded.statements().len(), 1);
    assert_eq!(*loaded.statements()[0].kind(), LoadKind::FullLoad { libraries: vec!["i18n".into()] });
}

#[test]
fn multiple_full_loads() {
    let loaded = loads("{% load i18n %}\n{% load static %}");
    assert_eq!(loaded.statements().len(), 2);
    assert_eq!(*loaded.statements()[0].kind(), LoadKind::FullLoad { libraries: vec!["i18n".into()] });
    assert_eq!(*loaded.statements()[1].kind(), LoadKind::FullLoad { libraries: vec!["static".into()] });
}

#[test]
fn multi_library_load() {
    let loaded = loads("{% load i18n static %}");
    assert_eq!(loaded.statements().len(), 1);
    assert_eq!(
        *loaded.statements()[0].kind(),
        LoadKind::FullLoad { libraries: vec!["i18n".into(), "static".into()] }
    );
}

#[test]
fn selective_import() {
    let loaded = loads("{% load trans from i18n %}");
    assert_eq!(loaded.statements().len(), 1);
    assert_eq!(
        *loaded.statements()[0].kind(),
        LoadKind::SelectiveImport { symbols: vec!["trans".into()], library: "i18n".into() }
    );
}

#[test]
fn loads_among_other_tags() {
    let source = "{% load i18n %}\n<h1>{% trans \"Hello\" %}</h1>\n{% load static %}\n<link href=\"{% static 'style.css' %}\">";
    let loaded = loads(source);
    assert_eq!(loaded.statements().len(), 2);
    assert_eq!(*loaded.statements()[0].kind(), LoadKind::FullLoad { libraries: vec!["i18n".into()] });
    assert_eq!(*loaded.statements()[1].kind(), LoadKind::FullLoad { libraries: vec!["static".into()] });
}

#[test]
fn position_query_after_load() {
    let loaded = loads("{% load i18n %}{% trans 'hi' %}");
    assert!(loaded.available_at(100).is_fully_loaded("i18n"));
}

#[test]
fn position_query_before_load() {
    let loaded = loads("some text {% load i18n %}");
    assert!(!loaded.available_at(0).is_fully_loaded("i18n"));
}

#[test]
fn selective_then_full_via_template() {
    let loaded = loads("{% load trans from i18n %}\n{% load i18n %}");
    assert_eq!(loaded.statements().len(), 2);
    let state = loaded.available_at(200);
    assert!(state.is_fully_loaded("i18n"));
    assert!(!state.selective_imports().iter().any(|(lib, _)| lib == "i18n"));
}

#[test]
fn malformed_load_ignored() {
    assert!(loads("{% load %}").is_empty());
}

#[test]
fn non_load_tags_ignored() {
    assert!(loads("{% if condition %}{% endif %}{% block header %}{% endblock %}").is_empty());
}

#[test]
fn closers_and_intermediates_are_recognised() {
    let specs = builtin_specs();
    assert!(is_closer_or_intermediate("endif", &specs));
    assert!(is_closer_or_intermediate("else", &specs));
    assert!(is_closer_or_intermediate("plural", &specs));
    assert!(!is_closer_or_intermediate("if", &specs));
    assert!(!is_closer_or_intermediate("trans", &specs));
    assert_eq!(specs.get_end_spec_for_closer("endfor").map(|s| s.name.as_str()), Some("for"));
    assert_eq!(specs.get_intermediate_spec("empty").map(|s| s.name.as_str()), Some("for"));
    assert!(specs.get_end_spec_for_closer("csrf_token").is_none());
}

// --- tag scoping ---

#[test]
fn validation_unknown_tag_produces_s108() {
    let inv = test_inventory();
    let errors = tag_errors(Some(&inv), None, "{% xyz %}");
    assert_eq!(errors.len(), 1);
    assert!(matches!(&errors[0], ValidationError::UnknownTag { tag, .. } if tag == "xyz"));
}

#[test]
fn unknown_tag_marker_covers_the_delimiters() {
    let inv = test_inventory();
    let errors = tag_errors(Some(&inv), None, "ab{% xyz %}");
    assert_eq!(errors, vec![ValidationError::UnknownTag { tag: "xyz".into(), span: Span::new(2, 9) }]);
}

#[test]
fn validation_unloaded_library_tag_produces_s109() {
    let inv = test_inventory();
    let errors = tag_errors(Some(&inv), None, "{% trans 'hello' %}");
    assert_eq!(errors.len(), 1);
    assert!(matches!(&errors[0], ValidationError::UnloadedTag { tag, library, .. } if tag == "trans" && library == "i18n"));
}

#[test]
fn validation_tag_in_multiple_libraries_produces_s110() {
    let inv = TemplateTags::new(
        vec![
            library("shared", "lib_a", "app.templatetags.lib_a"),
            library("shared", "lib_b", "app.templatetags.lib_b"),
        ],
        vec![],
        libs(&[("lib_a", "app.templatetags.lib_a"), ("lib_b", "app.templatetags.lib_b")]),
        vec![],
    );
    let errors = tag_errors(Some(&inv), None, "{% shared %}");
    assert_eq!(errors.len(), 1);
    assert!(matches!(&errors[0], ValidationError::AmbiguousUnloadedTag { tag, libraries, .. } if tag == "shared" && libraries == &["lib_a", "lib_b"]));
}

#[test]
fn validation_inspector_unavailable_no_scoping_diagnostics() {
    assert!(tag_errors(None, None, "{% xyz %}{% trans 'hello' %}").is_empty());
}

#[test]
fn validation_structural_tags_skip_scoping_checks() {
    let inv = test_inventory();
    assert!(tag_errors(Some(&inv), None, "{% if True %}{% elif False %}{% else %}{% endif %}").is_empty());
}

#[test]
fn validation_loaded_library_tag_no_error() {
    let inv = test_inventory();
    assert!(tag_errors(Some(&inv), None, "{% load i18n %}\n{% trans 'hello' %}").is_empty());
}

#[test]
fn validation_tag_before_load_produces_error() {
    let inv = test_inventory();
    let errors = tag_errors(Some(&inv), None, "{% trans 'hello' %}\n{% load i18n %}");
    assert_eq!(errors.len(), 1);
    assert!(matches!(&errors[0], ValidationError::UnloadedTag { tag, library, .. } if tag == "trans" && library == "i18n"));
}

#[test]
fn validation_selective_import_makes_only_imported_symbol_available() {
    let inv = test_inventory();
    let source = "{% load trans from i18n %}\n{% trans 'hello' %}\n{% blocktrans %}{% endblocktrans %}";
    let errors = tag_errors(Some(&inv), None, source);
    assert_eq!(errors.len(), 1);
    assert!(matches!(&errors[0], ValidationError::UnloadedTag { tag, library, .. } if tag == "blocktrans" && library == "i18n"));
}

#[test]
fn validation_builtin_tag_always_available() {
    let inv = test_inventory();
    assert!(tag_errors(Some(&inv), None, "{% csrf_token %}").is_empty());
}

#[test]
fn validation_load_tag_itself_not_flagged() {
    let inv = test_inventory();
    assert!(tag_errors(Some(&inv), None, "{% load i18n %}").is_empty());
}

// --- filter scoping ---

#[test]
fn validation_unknown_filter_produces_s111() {
    let inv = test_inventory_with_filters();
    let errors = filter_errors(Some(&inv), None, "{{ value|nonexistent }}");
    assert_eq!(errors.len(), 1);
    assert!(matches!(&errors[0], ValidationError::UnknownFilter { filter, .. } if filter == "nonexistent"));
}

#[test]
fn unknown_filter_points_at_the_filter() {
    let inv = test_inventory_with_filters();
    let errors = filter_errors(Some(&inv), None, "{{ value|nonexistent }}");
    assert_eq!(
        errors,
        vec![ValidationError::UnknownFilter { filter: "nonexistent".into(), span: Span::new(9, 11) }]
    );
}

#[test]
fn validation_unloaded_library_filter_produces_s112() {
    let inv = test_inventory_with_filters();
    let errors = filter_errors(Some(&inv), None, "{{ value|apnumber }}");
    assert_eq!(errors.len(), 1);
    assert!(matches!(&errors[0], ValidationError::UnloadedFilter { filter, library, .. } if filter == "apnumber" && library == "humanize"));
}

#[test]
fn validation_filter_in_multiple_libraries_produces_s113() {
    let inv = TemplateTags::new(
        vec![],
        vec![
            library("myfilter", "lib_a", "app.templatetags.lib_a"),
            library("myfilter", "lib_b", "app.templatetags.lib_b"),
        ],
        libs(&[("lib_a", "app.templatetags.lib_a"), ("lib_b", "app.templatetags.lib_b")]),
        vec![],
    );
    let errors = filter_errors(Some(&inv), None, "{{ value|myfilter }}");
    assert_eq!(errors.len(), 1);
    assert!(matches!(&errors[0], ValidationError::AmbiguousUnloadedFilter { filter, libraries, .. } if filter == "myfilter" && libraries == &["lib_a", "lib_b"]));
}

#[test]
fn validation_filter_after_load_is_valid() {
    let inv = test_inventory_with_filters();
    assert!(filter_errors(Some(&inv), None, "{% load humanize %}\n{{ value|apnumber }}").is_empty());
}

#[test]
fn validation_builtin_filter_always_valid() {
    let inv = test_inventory_with_filters();
    assert!(filter_errors(Some(&inv), None, "{{ value|title }}").is_empty());
}

#[test]
fn validation_inspector_unavailable_no_filter_diagnostics() {
    assert!(filter_errors(None, None, "{{ value|nonexistent }}{{ x|apnumber }}").is_empty());
}

#[test]
fn validation_filter_chain_validates_each_filter() {
    let inv = test_inventory_with_filters();
    let errors = filter_errors(Some(&inv), None, "{{ value|title|apnumber }}");
    assert_eq!(errors.len(), 1);
    assert!(matches!(&errors[0], ValidationError::UnloadedFilter { filter, library, .. } if filter == "apnumber" && library == "humanize"));
}

#[test]
fn validation_selective_import_filter() {
    let inv = test_inventory_with_filters();
    let source = "{% load apnumber from humanize %}\n{{ value|apnumber }}\n{{ value|intcomma }}";
    let errors = filter_errors(Some(&inv), None, source);
    assert_eq!(errors.len(), 1);
    assert!(matches!(&errors[0], ValidationError::UnloadedFilter { filter, library, .. } if filter == "intcomma" && library == "humanize"));
}

// --- opaque regions ---

#[test]
fn validation_verbatim_block_content_skipped() {
    let inv = test_inventory();
    let source = "{% verbatim %}{% trans 'hello' %}{% endverbatim %}\n{% if True %}{% endif %}";
    assert!(tag_errors(Some(&inv), None, source).is_empty());
}

#[test]
fn validation_comment_block_content_skipped() {
    let inv = test_inventory();
    assert!(tag_errors(Some(&inv), None, "{% comment %}{% trans 'hello' %}{% endcomment %}").is_empty());
}

#[test]
fn validation_non_opaque_blocks_validated_normally() {
    let inv = test_inventory();
    let errors = tag_errors(Some(&inv), None, "{% if True %}{% trans 'hello' %}{% endif %}");
    assert_eq!(errors.len(), 1);
    assert!(matches!(&errors[0], ValidationError::UnloadedTag { tag, .. } if tag == "trans"));
}

#[test]
fn validation_content_after_opaque_block_still_validated() {
    let inv = test_inventory();
    let errors = tag_errors(Some(&inv), None, "{% verbatim %}{% trans 'skip' %}{% endverbatim %}{% trans 'check' %}");
    assert_eq!(errors.len(), 1);
    assert!(matches!(&errors[0], ValidationError::UnloadedTag { tag, .. } if tag == "trans"));
}

#[test]
fn validation_filter_inside_verbatim_skipped() {
    let inv = test_inventory_with_filters();
    assert!(filter_errors(Some(&inv), None, "{% verbatim %}{{ value|intcomma }}{% endverbatim %}").is_empty());
}

// --- library names ---

#[test]
fn validation_known_library_valid() {
    let inv = test_inventory();
    assert!(library_errors(Some(&inv), None, "{% load i18n %}").is_empty());
}

#[test]
fn validation_unknown_library_produces_s120() {
    let inv = test_inventory();
    let errors = library_errors(Some(&inv), None, "{% load fdsafdsafdsafdsa %}");
    assert_eq!(errors.len(), 1);
    assert!(matches!(&errors[0], ValidationError::UnknownLibrary { name, .. } if name == "fdsafdsafdsafdsa"));
}

#[test]
fn validation_selective_import_known_library_valid() {
    let inv = test_inventory();
    assert!(library_errors(Some(&inv), None, "{% load trans from i18n %}").is_empty());
}

#[test]
fn validation_selective_import_unknown_library_produces_s120() {
    let inv = test_inventory();
    let errors = library_errors(Some(&inv), None, "{% load foo from nonexistent %}");
    assert_eq!(errors.len(), 1);
    assert!(matches!(&errors[0], ValidationError::UnknownLibrary { name, .. } if name == "nonexistent"));
}

#[test]
fn validation_inspector_unavailable_no_library_diagnostics() {
    assert!(library_errors(None, None, "{% load nonexistent %}").is_empty());
}

#[test]
fn validation_multi_library_load_each_validated() {
    let inv = test_inventory();
    let errors = library_errors(Some(&inv), None, "{% load i18n nonexistent %}");
    assert_eq!(errors.len(), 1);
    assert!(matches!(&errors[0], ValidationError::UnknownLibrary { name, .. } if name == "nonexistent"));
}

#[test]
fn validation_multi_library_load_both_unknown() {
    let inv = test_inventory();
    let errors = library_errors(Some(&inv), None, "{% load foo bar %}");
    assert_eq!(errors.len(), 2);
    let names: Vec<&str> = errors
        .iter()
        .filter_map(|e| match e {
            ValidationError::UnknownLibrary { name, .. } => Some(name.as_str()),
            _ => None,
        })
        .collect();
    assert_eq!(names, vec!["foo", "bar"]);
}

#[test]
fn library_errors_point_at_the_load_tag() {
    let inv = test_inventory();
    let errors = library_errors(Some(&inv), None, "{% load foo %}");
    assert_eq!(errors, vec![ValidationError::UnknownLibrary { name: "foo".into(), span: Span::new(0, 14) }]);
}

// --- environment inventory ---

#[test]
fn validation_tag_in_env_but_not_installed_apps_produces_s118() {
    let inv = test_inventory();
    let env = env_library("humanize", "django.contrib.humanize", &["ordinal", "intword"], &[]);
    let errors = all_errors(Some(&inv), Some(&env), "{% ordinal 42 %}");
    assert_eq!(errors.len(), 1);
    assert!(matches!(&errors[0], ValidationError::TagNotInInstalledApps { tag, app, load_name, .. } if tag == "ordinal" && app == "django.contrib.humanize" && load_name == "humanize"));
}

#[test]
fn validation_filter_in_env_but_not_installed_apps_produces_s119() {
    let inv = TemplateTags::new(
        vec![builtin("if", "django.template.defaulttags")],
        vec![builtin("title", "django.template.defaultfilters")],
        vec![],
        vec!["django.template.defaulttags".to_string(), "django.template.defaultfilters".to_string()],
    );
    let env = env_library("humanize", "django.contrib.humanize", &[], &["intcomma"]);
    let errors = all_errors(Some(&inv), Some(&env), "{{ value|intcomma }}");
    assert_eq!(errors.len(), 1);
    assert!(matches!(&errors[0], ValidationError::FilterNotInInstalledApps { filter, app, load_name, .. } if filter == "intcomma" && app == "django.contrib.humanize" && load_name == "humanize"));
}

#[test]
fn validation_truly_unknown_tag_still_s108_with_env() {
    let inv = test_inventory();
    let env = env_library("humanize", "django.contrib.humanize", &["ordinal"], &[]);
    let errors = all_errors(Some(&inv), Some(&env), "{% xyz %}");
    assert_eq!(errors.len(), 1);
    assert!(matches!(&errors[0], ValidationError::UnknownTag { tag, .. } if tag == "xyz"));
}

#[test]
fn validation_truly_unknown_filter_still_s111_with_env() {
    let inv = test_inventory_with_filters();
    let env = env_library("humanize", "django.contrib.humanize", &[], &["intcomma"]);
    let errors = all_errors(Some(&inv), Some(&env), "{{ value|nonexistent }}");
    assert_eq!(errors.len(), 1);
    assert!(matches!(&errors[0], ValidationError::UnknownFilter { filter, .. } if filter == "nonexistent"));
}

#[test]
fn validation_env_unavailable_falls_through_to_s108() {
    let inv = test_inventory();
    let errors = all_errors(Some(&inv), None, "{% xyz %}");
    assert_eq!(errors.len(), 1);
    assert!(matches!(&errors[0], ValidationError::UnknownTag { tag, .. } if tag == "xyz"));
}

#[test]
fn validation_tag_in_multiple_env_packages_produces_s118() {
    let inv = test_inventory();
    let mut env = env_library("utils_a", "app_a", &["shared_tag"], &[]);
    add_env_library(&mut env, "utils_b", "app_b", &["shared_tag"], &[]);
    let errors = all_errors(Some(&inv), Some(&env), "{% shared_tag %}");
    assert_eq!(errors.len(), 1);
    assert!(matches!(&errors[0], ValidationError::TagNotInInstalledApps { tag, app, load_name, .. } if tag == "shared_tag" && app == "app_a" && load_name == "utils_a"));
}

#[test]
fn validation_load_library_in_env_but_not_installed_apps_produces_s121() {
    let inv = test_inventory();
    let env = env_library("humanize", "django.contrib.humanize", &["ordinal"], &["intcomma"]);
    let errors = library_errors(Some(&inv), Some(&env), "{% load humanize %}");
    assert_eq!(errors.len(), 1);
    assert!(matches!(&errors[0], ValidationError::LibraryNotInInstalledApps { name, app, .. } if name == "humanize" && app == "django.contrib.humanize"));
}

#[test]
fn validation_load_truly_unknown_library_still_s120_with_env() {
    let inv = test_inventory();
    let env = env_library("humanize", "django.contrib.humanize", &[], &[]);
    let errors = library_errors(Some(&inv), Some(&env), "{% load totallyunknown %}");
    assert_eq!(errors.len(), 1);
    assert!(matches!(&errors[0], ValidationError::UnknownLibrary { name, .. } if name == "totallyunknown"));
}

#[test]
fn validation_load_env_unavailable_falls_through_to_s120() {
    let inv = test_inventory();
    let errors = library_errors(Some(&inv), None, "{% load nonexistent %}");
    assert_eq!(errors.len(), 1);
    assert!(matches!(&errors[0], ValidationError::UnknownLibrary { name, .. } if name == "nonexistent"));
}

#[test]
fn validation_load_selective_import_env_library_produces_s121() {
    let inv = test_inventory();
    let env = env_library("humanize", "django.contrib.humanize", &["ordinal"], &["intcomma"]);
    let errors = library_errors(Some(&inv), Some(&env), "{% load intcomma from humanize %}");
    assert_eq!(errors.len(), 1);
    assert!(matches!(&errors[0], ValidationError::LibraryNotInInstalledApps { name, app, .. } if name == "humanize" && app == "django.contrib.humanize"));
}

#[test]
fn validation_load_ambiguous_library_across_apps_produces_s121_with_candidates() {
    let inv = test_inventory();
    let mut env = env_library("utils", "app_a", &[], &[]);
    add_env_library(&mut env, "utils", "app_b", &[], &[]);
    let errors = library_errors(Some(&inv), Some(&env), "{% load utils %}");
    assert_eq!(errors.len(), 1);
    match &errors[0] {
        ValidationError::LibraryNotInInstalledApps { name, app, candidates, .. } => {
            assert_eq!(name, "utils");
            assert_eq!(app, "app_a");
            assert_eq!(candidates, &vec!["app_a".to_string(), "app_b".to_string()]);
        }
        other => panic!("Expected LibraryNotInInstalledApps, got: {other:?}"),
    }
}

#[test]
fn validation_multi_load_mixed_env_and_unknown() {
    let inv = test_inventory();
    let env = env_library("humanize", "django.contrib.humanize", &[], &[]);
    let errors = library_errors(Some(&inv), Some(&env), "{% load i18n humanize xyz %}");
    assert_eq!(errors.len(), 2);
    assert!(errors.iter().any(|e| matches!(e, ValidationError::LibraryNotInInstalledApps { name, .. } if name == "humanize")));
    assert!(errors.iter().any(|e| matches!(e, ValidationError::UnknownLibrary { name, .. } if name == "xyz")));
}

fn three_layer() -> (TemplateTags, EnvironmentInventory) {
    let inspector = TemplateTags::new(
        vec![
            builtin("if", "django.template.defaulttags"),
            builtin("csrf_token", "django.template.defaulttags"),
            builtin("verbatim", "django.template.defaulttags"),
            builtin("comment", "django.template.defaulttags"),
            library("trans", "i18n", "django.templatetags.i18n"),
        ],
        vec![
            builtin("title", "django.template.defaultfilters"),
            library("lower_i18n", "i18n", "django.templatetags.i18n"),
        ],
        libs(&[("i18n", "django.templatetags.i18n")]),
        vec!["django.template.defaulttags".to_string(), "django.template.defaultfilters".to_string()],
    );
    let env = env_library("humanize", "django.contrib.humanize", &["ordinal"], &["intcomma"]);
    (inspector, env)
}

#[test]
fn validation_three_layer_integration_all_diagnostic_codes() {
    let (inv, env) = three_layer();
    let source = "{% load i18n humanize nonexistent %}\n{% csrf_token %}\n{{ value|title }}\n{% trans 'hello' %}\n{{ value|lower_i18n }}\n{% ordinal 42 %}\n{{ value|intcomma }}\n{% floobarblatz %}\n{{ value|zzfilter }}";
    let errors = all_errors(Some(&inv), Some(&env), source);
    assert!(errors.iter().any(|e| matches!(e, ValidationError::UnknownLibrary { name, .. } if name == "nonexistent")));
    assert!(errors.iter().any(|e| matches!(e, ValidationError::LibraryNotInInstalledApps { name, app, .. } if name == "humanize" && app == "django.contrib.humanize")));
    assert!(errors.iter().any(|e| matches!(e, ValidationError::TagNotInInstalledApps { tag, app, load_name, .. } if tag == "ordinal" && app == "django.contrib.humanize" && load_name == "humanize")));
    assert!(errors.iter().any(|e| matches!(e, ValidationError::FilterNotInInstalledApps { filter, app, load_name, .. } if filter == "intcomma" && app == "django.contrib.humanize" && load_name == "humanize")));
    assert!(errors.iter().any(|e| matches!(e, ValidationError::UnknownTag { tag, .. } if tag == "floobarblatz")));
    assert!(errors.iter().any(|e| matches!(e, ValidationError::UnknownFilter { filter, .. } if filter == "zzfilter")));
    assert_eq!(errors.len(), 6);
}

#[test]
fn validation_three_layer_integration_unloaded_library_tags_filters() {
    let inv = test_inventory_with_filters();
    let source = "{% trans 'hello' %}\n{{ value|apnumber }}\n{% load i18n %}\n{% trans 'now loaded' %}";
    let errors = all_errors(Some(&inv), None, source);
    assert!(errors.iter().any(|e| matches!(e, ValidationError::UnloadedTag { tag, library, .. } if tag == "trans" && library == "i18n")));
    assert!(errors.iter().any(|e| matches!(e, ValidationError::UnloadedFilter { filter, library, .. } if filter == "apnumber" && library == "humanize")));
    assert_eq!(errors.len(), 2);
}
