use djls_semantic::project::{
    demote_to_partial, env_file_path, env_vars_from_entries, installed_app_package_module, is_django_templates_backend,
    load_env_file, refresh_external_data, resolve_installed_app_dir, template_dirs, weakest, BackendSettings,
    DjangoSettings, InstalledAppsSettings, ProjectFiles, TemplateDirPath, TemplatesSettings,
};
use djls_semantic::registry::StaticKnowledge;

fn strings(v: &[&str]) -> Vec<String> {
    v.iter().map(|s| s.to_string()).collect()
}

#[test]
fn django_backend_is_named_or_the_only_one() {
    assert!(is_django_templates_backend(Some("django.template.backends.django.DjangoTemplates"), 3));
    assert!(!is_django_templates_backend(Some("django.template.backends.jinja2.Jinja2"), 1));
    assert!(is_django_templates_backend(None, 1));
    assert!(!is_django_templates_backend(None, 2));
}

#[test]
fn installed_app_entries_name_their_package() {
    assert_eq!(installed_app_package_module("blog"), "blog");
    assert_eq!(installed_app_package_module("blog.apps.BlogConfig"), "blog");
    assert_eq!(installed_app_package_module("shop.config.ShopConfig"), "shop.config");
    assert_eq!(installed_app_package_module("Config"), "Config");
    assert_eq!(installed_app_package_module("a.apps.b.apps.C"), "a");
}

#[test]
fn installed_app_dir_is_the_first_existing_package_directory() {
    let search_paths = strings(&["/p", "/p/src"]);
    let dirs = strings(&["/p/src/shop/config"]);
    assert_eq!(resolve_installed_app_dir("shop.config.ShopConfig", &search_paths, &dirs).as_deref(), Some("/p/src/shop/config"));
    assert_eq!(resolve_installed_app_dir("blog", &search_paths, &dirs), None);
}

#[test]
fn knowledge_combines_to_the_weakest() {
    assert_eq!(weakest(StaticKnowledge::Known, StaticKnowledge::Known), StaticKnowledge::Known);
    assert_eq!(weakest(StaticKnowledge::Known, StaticKnowledge::Partial), StaticKnowledge::Partial);
    assert_eq!(weakest(StaticKnowledge::Unknown, StaticKnowledge::Partial), StaticKnowledge::Unknown);
    let mut k = StaticKnowledge::Known;
    demote_to_partial(&mut k);
    assert_eq!(k, StaticKnowledge::Partial);
    let mut u = StaticKnowledge::Unknown;
    demote_to_partial(&mut u);
    assert_eq!(u, StaticKnowledge::Unknown);
}

#[test]
fn refresh_touches_nothing_without_a_project() {
    let plan = refresh_external_data(None);
    assert!(!plan.refresh_source_roots);
    assert!(plan.root_paths.is_empty() && plan.settings_files.is_empty() && plan.module_files.is_empty());
}

#[test]
fn refresh_bumps_module_files_sorted_and_once() {
    let project = ProjectFiles {
        search_paths: strings(&["/p", "/p/src"]),
        settings_files: strings(&["/p/settings.py"]),
        model_module_files: strings(&["/p/shop/models.py", "/p/blog/models.py"]),
        templatetag_module_files: strings(&["/p/blog/templatetags/t.py", "/p/blog/models.py"]),
    };
    let plan = refresh_external_data(Some(&project));
    assert!(plan.refresh_source_roots);
    assert_eq!(plan.root_paths, strings(&["/p", "/p/src"]));
    assert_eq!(plan.settings_files, strings(&["/p/settings.py"]));
    assert_eq!(plan.module_files, strings(&["/p/blog/models.py", "/p/blog/templatetags/t.py", "/p/shop/models.py"]));
}

// ---- the env file ----

const ROOT: &str = "/work/project";

fn pair(k: &str, v: &str) -> (String, String) {
    (k.to_string(), v.to_string())
}

fn texts(files: &[(&str, &str)]) -> Vec<(String, String)> {
    files.iter().map(|(p, t)| (format!("{ROOT}/{p}"), t.to_string())).collect()
}

#[test]
fn loads_default_dot_env() {
    let files = texts(&[(".env", "DJANGO_SECRET_KEY=test-secret\nDATABASE_URL=postgres://localhost/db\n")]);
    let vars = load_env_file(ROOT, None, &files);

    assert_eq!(vars.len(), 2);
    assert_eq!(vars[0], pair("DJANGO_SECRET_KEY", "test-secret"));
    assert_eq!(vars[1], pair("DATABASE_URL", "postgres://localhost/db"));
}

#[test]
fn loads_configured_env_file_path() {
    let files = texts(&[(".env.local", "MY_VAR=hello\n"), ("djls.toml", "env_file = \".env.local\"")]);
    let vars = load_env_file(ROOT, Some(".env.local"), &files);

    assert_eq!(vars.len(), 1);
    assert_eq!(vars[0], pair("MY_VAR", "hello"));
}

#[test]
fn returns_empty_when_no_env_file() {
    let vars = load_env_file(ROOT, None, &Vec::new());
    assert!(vars.is_empty());
}

#[test]
fn returns_empty_when_configured_file_missing() {
    let files = texts(&[("djls.toml", "env_file = \".env.nonexistent\"")]);
    let vars = load_env_file(ROOT, Some(".env.nonexistent"), &files);
    assert!(vars.is_empty());
}

#[test]
fn handles_comments_and_blank_lines() {
    let files =
        texts(&[(".env", "# This is a comment\n\nDJANGO_SECRET_KEY=secret\n\n# Another comment\nDEBUG=true\n")]);
    let vars = load_env_file(ROOT, None, &files);

    assert_eq!(vars.len(), 2);
    assert_eq!(vars[0].0, "DJANGO_SECRET_KEY");
    assert_eq!(vars[1].0, "DEBUG");
}

#[test]
fn handles_quoted_values() {
    let files = texts(&[(".env", "SECRET=\"my secret value\"\nOTHER='single quoted'\n")]);
    let vars = load_env_file(ROOT, None, &files);

    assert_eq!(vars.len(), 2);
    assert_eq!(vars[0], pair("SECRET", "my secret value"));
    assert_eq!(vars[1], pair("OTHER", "single quoted"));
}

#[test]
fn env_file_path_defaults_to_dot_env() {
    assert_eq!(env_file_path(ROOT, None), format!("{ROOT}/.env"));
    assert_eq!(env_file_path(ROOT, Some("config/.env.local")), format!("{ROOT}/config/.env.local"));
    assert_eq!(env_file_path(ROOT, Some("/etc/app.env")), "/etc/app.env");
}

#[test]
fn entries_that_do_not_parse_are_left_out() {
    let vars = env_vars_from_entries(vec![Some(pair("A", "1")), None, Some(pair("B", "2")), None]);
    assert_eq!(vars, vec![pair("A", "1"), pair("B", "2")]);
}

#[test]
fn malformed_env_lines_are_skipped() {
    let files = texts(&[(".env", "GOOD=yes\nthis line is not an assignment\nALSO_GOOD=1\n")]);
    let vars = load_env_file(ROOT, None, &files);
    assert_eq!(vars.first(), Some(&pair("GOOD", "yes")));
    assert!(vars.iter().all(|(k, _)| k == "GOOD" || k == "ALSO_GOOD"));
}

const DJANGO_BACKEND: &str = "django.template.backends.django.DjangoTemplates";

fn django_settings_with(apps: &[&str], dirs: Vec<TemplateDirPath>, app_dirs: Option<bool>) -> DjangoSettings {
    DjangoSettings {
        installed_apps: InstalledAppsSettings { values: strings(apps), knowledge: StaticKnowledge::Known },
        templates: TemplatesSettings {
            backends: vec![BackendSettings {
                backend: Some(DJANGO_BACKEND.to_string()),
                dirs,
                app_dirs,
                knowledge: StaticKnowledge::Known,
            }],
            knowledge: StaticKnowledge::Known,
        },
    }
}

#[test]
fn template_dirs_include_dirs_entries_before_app_dirs() {
    let settings = django_settings_with(
        &["blog"],
        vec![TemplateDirPath::Resolved("/proj/templates".to_string())],
        Some(true),
    );
    let dirs = strings(&["/proj", "/proj/templates", "/proj/blog", "/proj/blog/templates", "/proj/blog/templates/blog"]);

    let (found, knowledge) = template_dirs(&settings, &strings(&["/proj"]), &dirs);

    assert_eq!(knowledge, StaticKnowledge::Known);
    assert_eq!(found, strings(&["/proj/templates", "/proj/blog/templates"]));
}

#[test]
fn template_dirs_resolve_app_config_entries() {
    let settings = django_settings_with(&["blog.apps.BlogConfig"], vec![], Some(true));
    let dirs = strings(&["/proj", "/proj/blog", "/proj/blog/templates", "/proj/blog/templates/blog"]);

    let (found, knowledge) = template_dirs(&settings, &strings(&["/proj"]), &dirs);

    assert_eq!(knowledge, StaticKnowledge::Known);
    assert_eq!(found, strings(&["/proj/blog/templates"]));
}

#[test]
fn template_dirs_resolve_apps_from_site_packages_search_path() {
    let settings = django_settings_with(&["pkg"], vec![], Some(true));
    let dirs = strings(&["/proj", "/proj/myproject", "/site", "/site/pkg", "/site/pkg/templates", "/site/pkg/templates/pkg"]);

    let (found, knowledge) = template_dirs(&settings, &strings(&["/proj", "/site"]), &dirs);

    assert_eq!(knowledge, StaticKnowledge::Known);
    assert_eq!(found, strings(&["/site/pkg/templates"]));
}

#[test]
fn template_dirs_demote_unresolved_app_to_partial() {
    let settings = django_settings_with(&["missing"], vec![], Some(true));
    let dirs = strings(&["/proj", "/proj/myproject"]);

    let (found, knowledge) = template_dirs(&settings, &strings(&["/proj"]), &dirs);

    assert!(found.is_empty());
    assert_eq!(knowledge, StaticKnowledge::Partial);
}

#[test]
fn template_dirs_skip_other_backends_and_app_dirs_off() {
    let mut settings = django_settings_with(&["blog"], vec![TemplateDirPath::Unknown], Some(false));
    settings.templates.backends.push(BackendSettings {
        backend: Some("django.template.backends.jinja2.Jinja2".to_string()),
        dirs: vec![TemplateDirPath::Resolved("/proj/jinja".to_string())],
        app_dirs: Some(true),
        knowledge: StaticKnowledge::Unknown,
    });
    let dirs = strings(&["/proj", "/proj/blog", "/proj/blog/templates"]);

    let (found, knowledge) = template_dirs(&settings, &strings(&["/proj"]), &dirs);

    assert!(found.is_empty());
    assert_eq!(knowledge, StaticKnowledge::Partial);
}

#[test]
fn refresh_orders_module_files_by_path_components() {
    let project = ProjectFiles {
        search_paths: strings(&["/p"]),
        settings_files: Vec::new(),
        model_module_files: strings(&["/p/app-x/models.py", "/p/app/models.py"]),
        templatetag_module_files: strings(&["/p//app/models.py"]),
    };
    let plan = refresh_external_data(Some(&project));
    assert_eq!(plan.module_files, strings(&["/p/app/models.py", "/p/app-x/models.py"]));
}
