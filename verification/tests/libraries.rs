use std::collections::BTreeMap;

use djls_semantic::facts::{
    Fact, Field, Reason, ReasonSource, TemplateBackendFact, TemplateDirFact, TemplateDirSource, TemplateLibraryFact,
    TemplateLibrarySource,
};
use djls_semantic::libraries::{
    app_template_tag_library, assemble_template_libraries, builtin_fact, defines_template_register, module_basename,
    stmt_defines_template_register, template_tag_load_name, DiscoveredTemplateTags,
};
use djls_semantic::names::{LibraryName, PyModuleName};
use djls_semantic::pyast::{Alias, Expr, Stmt};

const ROOT: &str = "/work/project";
const DJANGO: &str = "django.template.backends.django.DjangoTemplates";

fn module(name: &str) -> PyModuleName {
    PyModuleName::parse(name).unwrap()
}

fn library(name: &str) -> LibraryName {
    LibraryName::parse(name).unwrap()
}

fn backend(app_dirs: Fact<bool>) -> TemplateBackendFact {
    TemplateBackendFact {
        backend: Some(DJANGO.to_string()),
        dirs: Fact::known(Vec::new()),
        app_dirs,
        option_libraries: Fact::known(Vec::new()),
        option_builtins: Fact::known(Vec::new()),
    }
}

fn backend_with_options(
    option_libraries: Fact<Vec<TemplateLibraryFact>>,
    option_builtins: Fact<Vec<PyModuleName>>,
) -> TemplateBackendFact {
    TemplateBackendFact { option_libraries, option_builtins, ..backend(Fact::known(false)) }
}

fn settings_library(load_name: &str, module_name: &str) -> TemplateLibraryFact {
    TemplateLibraryFact {
        load_name: library(load_name),
        module: module(module_name),
        source: TemplateLibrarySource::SettingsLibraries,
    }
}

fn name(id: &str) -> Expr {
    Expr::Name { id: id.to_string() }
}

fn call(func: Expr) -> Expr {
    Expr::Call { func: Box::new(func), args: Vec::new(), keywords: Vec::new() }
}

fn attr(value: Expr, a: &str) -> Expr {
    Expr::Attribute { value: Box::new(value), attr: a.to_string() }
}

fn assign(target: &str, value: Expr) -> Stmt {
    Stmt::Assign { targets: vec![name(target)], value }
}

fn import_from(module_name: Option<&str>, names: &[(&str, Option<&str>)], level: u32) -> Stmt {
    Stmt::ImportFrom {
        module: module_name.map(str::to_string),
        names: names
            .iter()
            .map(|(n, a)| Alias { name: n.to_string(), asname: a.map(str::to_string) })
            .collect(),
        level,
    }
}

/// `from django import template` / `register = template.Library()`.
fn template_library_module() -> Vec<Stmt> {
    vec![
        import_from(Some("django"), &[("template", None)], 0),
        assign("register", call(attr(name("template"), "Library"))),
    ]
}

/// What discovery in the `templatetags` package of `app_module` gives for
/// `files` (relative paths in discovery order, each parsed or failing with a
/// message).
fn discover(app_module: &str, files: Vec<(&str, Result<Vec<Stmt>, &str>)>) -> DiscoveredTemplateTags {
    let app = module(app_module);
    let dir = format!("{ROOT}/{}/templatetags", app_module.replace('.', "/"));
    let mut reasons = Vec::new();
    let mut libraries = Vec::new();
    for (rel, body) in files {
        let file = format!("{dir}/{rel}");
        let source = match &body {
            Ok(stmts) => Ok(stmts),
            Err(message) => Err(Reason::file(Field::TemplateLibraries, &file, message)),
        };
        if let Some(l) = app_template_tag_library(&app, &dir, &file, source, &mut reasons) {
            libraries.push(l);
        }
    }
    DiscoveredTemplateTags { libraries, reasons }
}

fn loadable_map(fact: &Fact<Vec<TemplateLibraryFact>>) -> BTreeMap<String, String> {
    fact.value()
        .unwrap()
        .iter()
        .filter(|l| !matches!(l.source, TemplateLibrarySource::DjangoDefaultBuiltin | TemplateLibrarySource::SettingsBuiltins))
        .map(|l| (l.load_name.as_str().to_string(), l.module.as_str().to_string()))
        .collect()
}

fn builtin_modules(fact: &Fact<Vec<TemplateLibraryFact>>) -> Vec<String> {
    fact.value()
        .unwrap()
        .iter()
        .filter(|l| matches!(l.source, TemplateLibrarySource::DjangoDefaultBuiltin | TemplateLibrarySource::SettingsBuiltins))
        .map(|l| l.module.as_str().to_string())
        .collect()
}

fn partial_vec(fact: &Fact<Vec<TemplateLibraryFact>>) -> (Vec<TemplateLibraryFact>, Vec<Reason>) {
    match fact {
        Fact::Partial { value, reasons } => (value.clone(), reasons.clone()),
        other => panic!("expected partial template libraries, got {other:?}"),
    }
}

fn app_registry_reason() -> Reason {
    Reason::new(Field::AppsInstalled, ReasonSource::Unknown, "INSTALLED_APPS has an unsupported dynamic entry".to_string())
}

fn option_reason() -> Reason {
    Reason::new(
        Field::SettingsTemplateOptions,
        ReasonSource::Unknown,
        "TEMPLATES OPTIONS.libraries contains an unsupported value".to_string(),
    )
}

#[test]
fn adds_django_default_libraries_and_builtins() {
    let facts = assemble_template_libraries(&Fact::known(vec![backend(Fact::known(false))]), &Fact::known(Vec::new()));
    assert_eq!(
        loadable_map(&facts),
        BTreeMap::from([
            ("cache".to_string(), "django.templatetags.cache".to_string()),
            ("i18n".to_string(), "django.templatetags.i18n".to_string()),
            ("l10n".to_string(), "django.templatetags.l10n".to_string()),
            ("static".to_string(), "django.templatetags.static".to_string()),
            ("tz".to_string(), "django.templatetags.tz".to_string()),
        ])
    );
    assert_eq!(
        builtin_modules(&facts),
        ["django.template.defaulttags", "django.template.defaultfilters", "django.template.loader_tags"]
    );
}

#[test]
fn settings_libraries_override_default_load_names_and_append_builtins() {
    let facts = assemble_template_libraries(
        &Fact::known(vec![backend_with_options(
            Fact::known(vec![settings_library("static", "project.templatetags.assets")]),
            Fact::known(vec![module("project.templatetags.extra_builtins")]),
        )]),
        &Fact::known(Vec::new()),
    );
    assert_eq!(loadable_map(&facts).get("static").map(String::as_str), Some("project.templatetags.assets"));
    assert_eq!(
        builtin_modules(&facts),
        [
            "django.template.defaulttags",
            "django.template.defaultfilters",
            "django.template.loader_tags",
            "project.templatetags.extra_builtins",
        ]
    );
}

#[test]
fn discovers_app_templatetags_even_when_app_dirs_is_false() {
    let found = discover("blog", vec![("blog_tags.py", Ok(template_library_module()))]);
    let facts = assemble_template_libraries(&Fact::known(vec![backend(Fact::known(false))]), &Fact::known(vec![found]));
    assert_eq!(loadable_map(&facts).get("blog_tags").map(String::as_str), Some("blog.templatetags.blog_tags"));
}

#[test]
fn accepts_modules_with_top_level_register_attribute() {
    let aliased = vec![
        import_from(Some("django.template"), &[("Library", Some("L"))], 0),
        assign("register", call(name("L"))),
    ];
    let indirect = vec![
        import_from(Some("django"), &[("template", None)], 0),
        assign("lib", call(attr(name("template"), "Library"))),
        assign("register", name("lib")),
    ];
    let reexported = vec![import_from(Some("aliased"), &[("register", None)], 1)];
    let imported = vec![Stmt::Import {
        names: vec![Alias { name: "blog.templatetags.aliased".to_string(), asname: Some("register".to_string()) }],
    }];
    let function = vec![Stmt::FunctionDef { name: "register".to_string() }];
    let classy = vec![Stmt::ClassDef { name: "register".to_string(), bases: Vec::new(), body: vec![Stmt::Other] }];
    let found = discover(
        "blog",
        vec![
            ("aliased.py", Ok(aliased)),
            ("classy.py", Ok(classy)),
            ("function.py", Ok(function)),
            ("imported.py", Ok(imported)),
            ("indirect.py", Ok(indirect)),
            ("reexported.py", Ok(reexported)),
        ],
    );
    let facts = assemble_template_libraries(&Fact::known(vec![backend(Fact::known(true))]), &Fact::known(vec![found]));
    let loadable = loadable_map(&facts);
    for n in ["aliased", "indirect", "reexported", "imported", "function", "classy"] {
        assert_eq!(loadable.get(n).map(String::as_str), Some(format!("blog.templatetags.{n}").as_str()));
    }
}

#[test]
fn filters_templatetag_modules_without_register() {
    let base = vec![Stmt::ClassDef { name: "Helper".to_string(), bases: Vec::new(), body: vec![Stmt::Other] }];
    let found = discover("blog", vec![("base.py", Ok(base)), ("real_tags.py", Ok(template_library_module()))]);
    let facts = assemble_template_libraries(&Fact::known(vec![backend(Fact::known(true))]), &Fact::known(vec![found]));
    let loadable = loadable_map(&facts);
    assert!(!loadable.contains_key("base"));
    assert_eq!(loadable.get("real_tags").map(String::as_str), Some("blog.templatetags.real_tags"));
}

#[test]
fn discovers_nested_templatetag_packages() {
    let nested_init = vec![
        import_from(Some("django.template"), &[("Library", None)], 0),
        assign("register", call(name("Library"))),
    ];
    let found = discover(
        "blog",
        vec![("nested/__init__.py", Ok(nested_init)), ("nested/deep.py", Ok(template_library_module()))],
    );
    let facts = assemble_template_libraries(&Fact::known(vec![backend(Fact::known(true))]), &Fact::known(vec![found]));
    let loadable = loadable_map(&facts);
    assert_eq!(loadable.get("nested").map(String::as_str), Some("blog.templatetags.nested"));
    assert_eq!(loadable.get("nested.deep").map(String::as_str), Some("blog.templatetags.nested.deep"));
}

#[test]
fn nested_non_package_directories_are_not_discovered() {
    // Discovery descends only into package directories, so `not_a_package/deep.py`
    // is never handed over.
    let found = discover("blog", Vec::new());
    let facts = assemble_template_libraries(&Fact::known(vec![backend(Fact::known(true))]), &Fact::known(vec![found]));
    assert!(!loadable_map(&facts).contains_key("not_a_package.deep"));
}

#[test]
fn duplicate_app_load_names_choose_later_app_and_record_reason() {
    let app1 = discover("app1", vec![("shared_tags.py", Ok(template_library_module()))]);
    let app2 = discover("app2", vec![("shared_tags.py", Ok(template_library_module()))]);
    let facts = assemble_template_libraries(&Fact::known(vec![backend(Fact::known(true))]), &Fact::known(vec![app1, app2]));
    let (libraries, reasons) = partial_vec(&facts);
    let loadable = Fact::known(libraries);
    assert_eq!(loadable_map(&loadable).get("shared_tags").map(String::as_str), Some("app2.templatetags.shared_tags"));
    assert!(reasons.iter().any(|r| r.message.contains("shared_tags")));
}

#[test]
fn app_load_names_can_override_django_defaults_with_reason() {
    let found = discover("blog", vec![("static.py", Ok(template_library_module()))]);
    let facts = assemble_template_libraries(&Fact::known(vec![backend(Fact::known(true))]), &Fact::known(vec![found]));
    let (libraries, reasons) = partial_vec(&facts);
    let loadable = Fact::known(libraries);
    assert_eq!(loadable_map(&loadable).get("static").map(String::as_str), Some("blog.templatetags.static"));
    assert!(reasons.iter().any(|r| r.message.contains("django.templatetags.static")));
    assert_eq!(
        reasons[0].message,
        "template library load name `static` is provided by both `django.templatetags.static` and `blog.templatetags.static`; the later Django discovery entry wins"
    );
}

#[test]
fn partial_app_registry_keeps_known_libraries_and_reasons() {
    let reason = app_registry_reason();
    let found = discover("blog", vec![("blog_tags.py", Ok(template_library_module()))]);
    let facts = assemble_template_libraries(
        &Fact::known(vec![backend(Fact::known(true))]),
        &Fact::partial(vec![found], vec![reason.clone()]),
    );
    let (_libraries, reasons) = partial_vec(&facts);
    assert_eq!(loadable_map(&facts).get("blog_tags").map(String::as_str), Some("blog.templatetags.blog_tags"));
    assert_eq!(reasons, [reason]);
}

#[test]
fn unknown_app_registry_keeps_default_libraries_partial() {
    let reason = app_registry_reason();
    let facts = assemble_template_libraries(&Fact::known(vec![backend(Fact::known(true))]), &Fact::unknown(vec![reason.clone()]));
    let (_libraries, reasons) = partial_vec(&facts);
    assert_eq!(loadable_map(&facts).get("cache").map(String::as_str), Some("django.templatetags.cache"));
    assert_eq!(reasons, [reason]);
}

#[test]
fn partial_option_libraries_preserve_values_and_reasons() {
    let reason = option_reason();
    let facts = assemble_template_libraries(
        &Fact::known(vec![backend_with_options(
            Fact::partial(vec![settings_library("custom", "project.templatetags.custom")], vec![reason.clone()]),
            Fact::known(Vec::new()),
        )]),
        &Fact::known(Vec::new()),
    );
    let (_libraries, reasons) = partial_vec(&facts);
    assert_eq!(loadable_map(&facts).get("custom").map(String::as_str), Some("project.templatetags.custom"));
    assert_eq!(reasons, [reason]);
}

#[test]
fn unknown_template_backends_are_unknown_template_libraries() {
    let reason = Reason::new(Field::SettingsTemplates, ReasonSource::Unknown, "TEMPLATES is not assigned in this settings file".to_string());
    let facts = assemble_template_libraries(&Fact::unknown(vec![reason.clone()]), &Fact::known(Vec::new()));
    assert_eq!(facts.reasons(), &[reason]);
    assert!(matches!(facts, Fact::Unknown { .. }));
}

#[test]
fn skips_non_django_backends_without_blocking_django_backend() {
    let mut jinja = backend(Fact::known(false));
    jinja.backend = Some("django.template.backends.jinja2.Jinja2".to_string());
    let facts = assemble_template_libraries(
        &Fact::known(vec![
            jinja,
            backend_with_options(
                Fact::known(vec![settings_library("custom", "project.templatetags.custom")]),
                Fact::known(Vec::new()),
            ),
        ]),
        &Fact::known(Vec::new()),
    );
    assert_eq!(loadable_map(&facts).get("custom").map(String::as_str), Some("project.templatetags.custom"));
}

#[test]
fn missing_backend_preserves_statically_known_options_as_partial() {
    let mut unknown_backend = backend_with_options(
        Fact::known(vec![settings_library("custom", "project.templatetags.custom")]),
        Fact::known(vec![module("project.templatetags.custom_builtins")]),
    );
    unknown_backend.backend = None;
    let facts = assemble_template_libraries(&Fact::known(vec![unknown_backend]), &Fact::known(Vec::new()));
    let (_libraries, reasons) = partial_vec(&facts);
    let loadable = loadable_map(&facts);
    assert_eq!(loadable.get("custom").map(String::as_str), Some("project.templatetags.custom"));
    assert!(!loadable.contains_key("cache"));
    assert_eq!(builtin_modules(&facts), ["project.templatetags.custom_builtins"]);
    assert!(reasons.iter().any(|r| r.message.contains("BACKEND is not known")));
}

#[test]
fn multiple_django_backends_do_not_let_later_defaults_override_settings_libraries() {
    let facts = assemble_template_libraries(
        &Fact::known(vec![
            backend_with_options(
                Fact::known(vec![settings_library("static", "project.templatetags.assets")]),
                Fact::known(Vec::new()),
            ),
            backend(Fact::known(false)),
        ]),
        &Fact::known(Vec::new()),
    );
    assert_eq!(loadable_map(&facts).get("static").map(String::as_str), Some("project.templatetags.assets"));
}

#[test]
fn later_backend_options_override_earlier_backend_options() {
    let facts = assemble_template_libraries(
        &Fact::known(vec![
            backend_with_options(Fact::known(vec![settings_library("custom", "project.templatetags.one")]), Fact::known(Vec::new())),
            backend_with_options(Fact::known(vec![settings_library("custom", "project.templatetags.two")]), Fact::known(Vec::new())),
        ]),
        &Fact::known(Vec::new()),
    );
    assert_eq!(loadable_map(&facts).get("custom").map(String::as_str), Some("project.templatetags.two"));
}

#[test]
fn multiple_django_backends_deduplicate_default_builtins() {
    let facts = assemble_template_libraries(
        &Fact::known(vec![backend(Fact::known(false)), backend(Fact::known(false))]),
        &Fact::known(Vec::new()),
    );
    assert_eq!(
        builtin_modules(&facts),
        ["django.template.defaulttags", "django.template.defaultfilters", "django.template.loader_tags"]
    );
}

#[test]
fn settings_builtins_duplicate_default_modules_keep_first_builtin() {
    let facts = assemble_template_libraries(
        &Fact::known(vec![backend_with_options(Fact::known(Vec::new()), Fact::known(vec![module("django.template.defaulttags")]))]),
        &Fact::known(Vec::new()),
    );
    let Fact::Known { value: libraries } = facts else { panic!("expected known libraries") };
    let defaulttags = libraries.iter().find(|l| l.module == module("django.template.defaulttags")).unwrap();
    assert!(matches!(defaulttags.source, TemplateLibrarySource::DjangoDefaultBuiltin));
}

#[test]
fn malformed_templatetag_module_makes_fact_partial() {
    let found = discover("blog", vec![("broken.py", Err("failed to parse template tag module: unexpected end of input"))]);
    let facts = assemble_template_libraries(&Fact::known(vec![backend(Fact::known(false))]), &Fact::known(vec![found]));
    let (_libraries, reasons) = partial_vec(&facts);
    assert!(reasons.iter().any(|r| r.message.contains("failed to parse")));
}

#[test]
fn template_dirs_field_is_not_required_for_library_assembly() {
    let facts = assemble_template_libraries(
        &Fact::known(vec![TemplateBackendFact {
            backend: Some(DJANGO.to_string()),
            dirs: Fact::partial(
                vec![TemplateDirFact { path: "templates".to_string(), source: TemplateDirSource::SettingsDir }],
                vec![Reason::path(Field::TemplateDirs, "templates", "template dir uncertainty should not affect libraries")],
            ),
            app_dirs: Fact::unknown(vec![Reason::new(
                Field::SettingsTemplates,
                ReasonSource::Unknown,
                "APP_DIRS is dynamic but irrelevant for libraries".to_string(),
            )]),
            option_libraries: Fact::known(Vec::new()),
            option_builtins: Fact::known(Vec::new()),
        }]),
        &Fact::known(Vec::new()),
    );
    assert!(matches!(facts, Fact::Known { .. }));
}

#[test]
fn builtin_facts_are_loaded_by_module_basename() {
    let f = builtin_fact(module("django.template.defaultfilters"), TemplateLibrarySource::DjangoDefaultBuiltin);
    assert_eq!(f.load_name, library("defaultfilters"));
    assert_eq!(module_basename(&module("single")), "single");
}

#[test]
fn template_tag_load_names_follow_the_package_layout() {
    let dir = "/p/blog/templatetags";
    let mut reasons = Vec::new();
    assert_eq!(template_tag_load_name(dir, "/p/blog/templatetags/a.py", &mut reasons), Some(library("a")));
    assert_eq!(template_tag_load_name(dir, "/p/blog/templatetags/pkg/__init__.py", &mut reasons), Some(library("pkg")));
    assert_eq!(template_tag_load_name(dir, "/p/blog/templatetags/__init__.py", &mut reasons), None);
    assert_eq!(template_tag_load_name(dir, "/elsewhere/a.py", &mut reasons), None);
    assert!(reasons.is_empty());
    assert_eq!(template_tag_load_name(dir, "/p/blog/templatetags/bad-name.py", &mut reasons), None);
    assert_eq!(reasons.len(), 1);
    assert_eq!(
        reasons[0].message,
        "template tag module has an invalid load name: `bad-name` is not a valid name"
    );
}

#[test]
fn register_detection_looks_at_top_level_statements_only() {
    assert!(stmt_defines_template_register(&Stmt::AnnAssign { target: name("register"), value: Some(call(name("Library"))) }));
    assert!(!stmt_defines_template_register(&Stmt::AnnAssign { target: name("register"), value: None }));
    assert!(!stmt_defines_template_register(&Stmt::FunctionDef { name: "helper".to_string() }));
    let nested = Stmt::ClassDef { name: "Outer".to_string(), bases: Vec::new(), body: template_library_module() };
    assert!(!defines_template_register(&vec![nested]));
    assert!(defines_template_register(&template_library_module()));
}
