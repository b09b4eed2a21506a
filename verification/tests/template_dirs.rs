use djls_semantic::facts::{AppFact, Fact, Field, Reason, ReasonSource, TemplateBackendFact, TemplateDirFact, TemplateDirSource};
use djls_semantic::names::PyModuleName;
use djls_semantic::template_dirs::assemble_template_dirs;

const ROOT: &str = "/work/project";
const DJANGO: &str = "django.template.backends.django.DjangoTemplates";

fn module(name: &str) -> PyModuleName {
    PyModuleName::parse(name).unwrap()
}

fn at(rel: &str) -> String {
    format!("{ROOT}/{rel}")
}

fn settings_dir(path: String) -> TemplateDirFact {
    TemplateDirFact { path, source: TemplateDirSource::SettingsDir }
}

fn backend(dirs: Fact<Vec<TemplateDirFact>>, app_dirs: Fact<bool>) -> TemplateBackendFact {
    TemplateBackendFact {
        backend: Some(DJANGO.to_string()),
        dirs,
        app_dirs,
        option_libraries: Fact::known(Vec::new()),
        option_builtins: Fact::known(Vec::new()),
    }
}

fn app(module_name: &str) -> AppFact {
    AppFact {
        entry: module_name.to_string(),
        module: module(module_name),
        path: at(&module_name.replace('.', "/")),
        config: None,
    }
}

fn known_paths(fact: &Fact<Vec<TemplateDirFact>>) -> Vec<String> {
    let Fact::Known { value } = fact else {
        panic!("expected known fact, got {fact:?}");
    };
    value.iter().map(|d| d.path.clone()).collect()
}

fn partial(fact: &Fact<Vec<TemplateDirFact>>) -> (Vec<String>, Vec<Reason>) {
    let Fact::Partial { value, reasons } = fact else {
        panic!("expected partial fact, got {fact:?}");
    };
    (value.iter().map(|d| d.path.clone()).collect(), reasons.clone())
}

fn app_registry_reason() -> Reason {
    Reason::new(Field::AppsInstalled, ReasonSource::Unknown, "some installed apps could not be resolved".to_string())
}

fn dirs_reason() -> Reason {
    Reason::path(Field::SettingsTemplateDirs, "project/settings.py", "TEMPLATES DIRS contains an unsupported path expression")
}

fn app_dirs_reason() -> Reason {
    Reason::new(Field::SettingsTemplates, ReasonSource::Unknown, "TEMPLATES APP_DIRS must be a boolean literal".to_string())
}

fn existing(rels: &[&str]) -> Vec<String> {
    rels.iter().map(|r| at(r)).collect()
}

#[test]
fn assembles_settings_dirs_before_app_dirs() {
    let facts = assemble_template_dirs(
        &Fact::known(vec![backend(
            Fact::known(vec![settings_dir(at("templates")), settings_dir(at("more_templates"))]),
            Fact::known(true),
        )]),
        &Fact::known(vec![app("blog"), app("shop")]),
        &existing(&["blog/templates", "shop/templates"]),
    );
    assert_eq!(
        known_paths(&facts),
        [at("templates"), at("more_templates"), at("blog/templates"), at("shop/templates")]
    );
}

#[test]
fn skips_missing_app_template_dirs() {
    let facts = assemble_template_dirs(
        &Fact::known(vec![backend(Fact::known(Vec::new()), Fact::known(true))]),
        &Fact::known(vec![app("blog"), app("shop")]),
        &existing(&["blog/templates", "shop"]),
    );
    assert_eq!(known_paths(&facts), [at("blog/templates")]);
}

#[test]
fn app_dirs_false_keeps_only_settings_dirs() {
    let facts = assemble_template_dirs(
        &Fact::known(vec![backend(Fact::known(vec![settings_dir(at("templates"))]), Fact::known(false))]),
        &Fact::known(vec![app("blog")]),
        &existing(&["blog/templates"]),
    );
    assert_eq!(known_paths(&facts), [at("templates")]);
}

#[test]
fn app_dirs_unknown_keeps_settings_dirs_partial() {
    let facts = assemble_template_dirs(
        &Fact::known(vec![backend(
            Fact::known(vec![settings_dir(at("templates"))]),
            Fact::unknown(vec![app_dirs_reason()]),
        )]),
        &Fact::known(vec![app("blog")]),
        &existing(&["blog/templates"]),
    );
    let (dirs, reasons) = partial(&facts);
    assert_eq!(dirs, [at("templates")]);
    assert!(reasons.iter().any(|r| r.message.contains("APP_DIRS")));
}

#[test]
fn partial_app_registry_keeps_known_app_dirs_and_reasons() {
    let facts = assemble_template_dirs(
        &Fact::known(vec![backend(Fact::known(Vec::new()), Fact::known(true))]),
        &Fact::partial(vec![app("blog")], vec![app_registry_reason()]),
        &existing(&["blog/templates"]),
    );
    let (dirs, reasons) = partial(&facts);
    assert_eq!(dirs, [at("blog/templates")]);
    assert!(reasons.iter().any(|r| r.message.contains("could not be resolved")));
}

#[test]
fn unknown_app_registry_keeps_app_dirs_partial() {
    let facts = assemble_template_dirs(
        &Fact::known(vec![backend(Fact::known(Vec::new()), Fact::known(true))]),
        &Fact::unknown(vec![app_registry_reason()]),
        &Vec::new(),
    );
    let (dirs, reasons) = partial(&facts);
    assert!(dirs.is_empty());
    assert!(reasons.iter().any(|r| r.message.contains("could not be resolved")));
}

#[test]
fn partial_settings_dirs_preserve_reasons() {
    let reason = dirs_reason();
    let facts = assemble_template_dirs(
        &Fact::known(vec![backend(
            Fact::partial(vec![settings_dir(at("templates"))], vec![reason.clone()]),
            Fact::known(false),
        )]),
        &Fact::known(Vec::new()),
        &Vec::new(),
    );
    let (dirs, reasons) = partial(&facts);
    assert_eq!(dirs, [at("templates")]);
    assert_eq!(reasons, [reason]);
}

#[test]
fn unknown_template_backends_are_unknown_template_dirs() {
    let reason = Reason::new(Field::SettingsTemplates, ReasonSource::Unknown, "TEMPLATES is not assigned in this settings file".to_string());
    let facts = assemble_template_dirs(&Fact::unknown(vec![reason.clone()]), &Fact::known(Vec::new()), &Vec::new());
    let Fact::Unknown { reasons } = facts else {
        panic!("expected unknown template dirs");
    };
    assert_eq!(reasons, [reason]);
}

#[test]
fn empty_template_backend_list_is_known_empty() {
    let facts = assemble_template_dirs(&Fact::known(Vec::new()), &Fact::known(vec![app("blog")]), &existing(&["blog/templates"]));
    assert!(known_paths(&facts).is_empty());
}

#[test]
fn skips_non_django_backends() {
    let mut jinja = backend(Fact::known(vec![settings_dir(at("jinja_templates"))]), Fact::known(false));
    jinja.backend = Some("django.template.backends.jinja2.Jinja2".to_string());
    let facts = assemble_template_dirs(&Fact::known(vec![jinja]), &Fact::known(Vec::new()), &Vec::new());
    assert!(known_paths(&facts).is_empty());
}

#[test]
fn non_django_backend_does_not_block_django_backend_dirs() {
    let mut jinja = backend(Fact::known(vec![settings_dir(at("jinja_templates"))]), Fact::known(false));
    jinja.backend = Some("django.template.backends.jinja2.Jinja2".to_string());
    let facts = assemble_template_dirs(
        &Fact::known(vec![jinja, backend(Fact::known(vec![settings_dir(at("django_templates"))]), Fact::known(false))]),
        &Fact::known(Vec::new()),
        &Vec::new(),
    );
    assert_eq!(known_paths(&facts), [at("django_templates")]);
}

#[test]
fn missing_backend_skips_backend_as_partial() {
    let mut unknown_backend = backend(Fact::known(vec![settings_dir(at("templates"))]), Fact::known(true));
    unknown_backend.backend = None;
    let facts = assemble_template_dirs(&Fact::known(vec![unknown_backend]), &Fact::known(Vec::new()), &Vec::new());
    let (dirs, reasons) = partial(&facts);
    assert!(dirs.is_empty());
    assert!(reasons.iter().any(|r| r.message.contains("BACKEND is not known")));
}

#[test]
fn multiple_app_dirs_backends_deduplicate_app_template_dirs() {
    let facts = assemble_template_dirs(
        &Fact::known(vec![
            backend(Fact::known(vec![settings_dir(at("first"))]), Fact::known(true)),
            backend(Fact::known(vec![settings_dir(at("second"))]), Fact::known(true)),
        ]),
        &Fact::known(vec![app("blog")]),
        &existing(&["blog/templates"]),
    );
    assert_eq!(known_paths(&facts), [at("first"), at("blog/templates"), at("second")]);
}

#[test]
fn preserves_backend_order_across_multiple_engines() {
    let facts = assemble_template_dirs(
        &Fact::known(vec![
            backend(Fact::known(vec![settings_dir(at("first"))]), Fact::known(false)),
            backend(Fact::known(vec![settings_dir(at("second"))]), Fact::known(true)),
        ]),
        &Fact::known(vec![app("blog")]),
        &existing(&["blog/templates"]),
    );
    assert_eq!(known_paths(&facts), [at("first"), at("second"), at("blog/templates")]);
}

#[test]
fn source_root_app_paths_give_their_templates() {
    let src_blog = AppFact {
        entry: "blog".to_string(),
        module: module("blog"),
        path: at("src/blog"),
        config: None,
    };
    let facts = assemble_template_dirs(
        &Fact::known(vec![backend(Fact::known(Vec::new()), Fact::known(true))]),
        &Fact::known(vec![src_blog]),
        &existing(&["src/blog/templates"]),
    );
    assert_eq!(known_paths(&facts), [at("src/blog/templates")]);
}

#[test]
fn app_template_dirs_are_marked_with_their_app() {
    let facts = assemble_template_dirs(
        &Fact::known(vec![backend(Fact::known(Vec::new()), Fact::known(true))]),
        &Fact::known(vec![app("blog")]),
        &existing(&["blog/templates"]),
    );
    let Fact::Known { value } = facts else { panic!("expected known") };
    assert_eq!(value[0].source, TemplateDirSource::AppDir { app: module("blog") });
}
