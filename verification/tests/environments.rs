use djls_semantic::environments::{
    discover_django_environments, environments_from_matched_files, infer_environment_root_from_settings_file,
    normalize_environment_root, DjangoEnvironmentConfig, DjangoEnvironmentResolution,
};
use djls_semantic::facts::{Fact, Field, ModuleSearchPathEntry, ModuleSearchPathKind, ReasonSource};
use djls_semantic::modules::discover_module_search_paths;
use djls_semantic::names::PyModuleName;
use djls_semantic::project::{auto_detect_settings_module, resolve_django_settings};

const ROOT: &str = "/work/project";

fn at(rel: &str) -> String {
    format!("{ROOT}/{rel}")
}

/// The files of a project, and the directories that hold them.
struct Tree {
    files: Vec<String>,
    dirs: Vec<String>,
}

impl Tree {
    fn new(files: &[&str]) -> Tree {
        let mut tree = Tree { files: Vec::new(), dirs: Vec::new() };
        tree.add_dir(ROOT);
        for f in files {
            let path = at(f);
            tree.add_dir(path.rsplit_once('/').unwrap().0);
            tree.files.push(path);
        }
        tree
    }

    fn add_dir(&mut self, dir: &str) {
        let mut current = String::new();
        for part in dir.split('/').filter(|p| !p.is_empty()) {
            current.push('/');
            current.push_str(part);
            if !self.dirs.contains(&current) {
                self.dirs.push(current.clone());
            }
        }
    }

    fn search_paths(&self) -> Vec<ModuleSearchPathEntry> {
        discover_module_search_paths(ROOT, &Vec::new(), &Vec::new(), &self.dirs).value().cloned().unwrap()
    }

    /// The project walk: every file, in the order a directory walk meets them.
    fn walked(&self) -> Vec<String> {
        let mut files = self.files.clone();
        files.sort();
        files
    }

    fn discover(
        &self,
        environments: Vec<DjangoEnvironmentConfig>,
        patterns: &[&str],
        settings_module: Option<&str>,
    ) -> Vec<DjangoEnvironmentResolution> {
        self.discover_with(environments, patterns, settings_module, &self.search_paths())
    }

    fn discover_with(
        &self,
        environments: Vec<DjangoEnvironmentConfig>,
        patterns: &[&str],
        settings_module: Option<&str>,
        search_paths: &Vec<ModuleSearchPathEntry>,
    ) -> Vec<DjangoEnvironmentResolution> {
        let patterns: Vec<String> = patterns.iter().map(|p| p.to_string()).collect();
        discover_django_environments(
            ROOT,
            &environments,
            &patterns,
            settings_module,
            &self.walked(),
            search_paths,
            &self.files,
        )
    }
}

fn config(root: &str, module: Option<&str>) -> DjangoEnvironmentConfig {
    DjangoEnvironmentConfig { root: root.to_string(), django_settings_module: module.map(str::to_string) }
}

fn module(name: &str) -> PyModuleName {
    PyModuleName::parse(name).unwrap()
}

fn known_module(fact: &Fact<PyModuleName>) -> PyModuleName {
    let Fact::Known { value } = fact else {
        panic!("expected known Django settings module, got {fact:?}");
    };
    value.clone()
}

fn known_file(fact: &Fact<String>) -> String {
    let Fact::Known { value } = fact else {
        panic!("expected known Django settings file, got {fact:?}");
    };
    value.clone()
}

#[test]
fn django_environments_legacy_django_settings_module_becomes_default_environment() {
    let tree = Tree::new(&["project/__init__.py", "project/settings.py", "djls.toml"]);
    let environments = tree.discover(Vec::new(), &[], Some("project.settings"));

    assert_eq!(environments.len(), 1);
    assert_eq!(environments[0].root, ROOT);
    assert_eq!(known_module(&environments[0].django_settings_module), module("project.settings"));
    assert_eq!(known_file(&environments[0].django_settings_file), at("project/settings.py"));
}

#[test]
fn static_django_environments_legacy_django_settings_module_becomes_default_environment() {
    let tree = Tree::new(&["project/__init__.py", "project/settings.py", "djls.toml"]);
    let environments = tree.discover(Vec::new(), &[], Some("project.settings"));

    assert_eq!(environments.len(), 1);
    assert_eq!(environments[0].root, ROOT);
    assert_eq!(known_module(&environments[0].django_settings_module), module("project.settings"));
    assert_eq!(known_file(&environments[0].django_settings_file), at("project/settings.py"));
}

#[test]
fn django_settings_file_patterns_keep_flat_settings_at_workspace_root() {
    let tree = Tree::new(&["project/__init__.py", "project/settings.py", "djls.toml"]);
    let environments = tree.discover(Vec::new(), &["project/settings.py"], None);

    assert_eq!(environments.len(), 1);
    assert_eq!(environments[0].root, ROOT);
    assert_eq!(known_module(&environments[0].django_settings_module), module("project.settings"));
    assert_eq!(known_file(&environments[0].django_settings_file), format!("{}/project/settings.py", environments[0].root));
}

#[test]
fn settings_file_patterns_without_settings_package_fall_back_to_workspace_root() {
    let tree = Tree::new(&["project/__init__.py", "project/conf.py", "djls.toml"]);
    let environments = tree.discover(Vec::new(), &["project/conf.py"], None);

    assert_eq!(environments.len(), 1);
    assert_eq!(environments[0].root, ROOT);
    assert_eq!(known_module(&environments[0].django_settings_module), module("project.conf"));
}

#[test]
fn invalid_explicit_django_environment_module_is_unknown() {
    let tree = Tree::new(&["djls.toml"]);
    let environments = tree.discover(vec![config(".", Some("project..settings"))], &[], None);

    assert_eq!(environments.len(), 1);
    assert!(matches!(&environments[0].django_settings_module, Fact::Unknown { .. }));
    assert!(matches!(&environments[0].django_settings_file, Fact::Unknown { .. }));
}

fn two_sites() -> Tree {
    Tree::new(&[
        "projects/__init__.py",
        "projects/site1/__init__.py",
        "projects/site1/settings.py",
        "projects/site2/__init__.py",
        "projects/site2/settings.py",
        "djls.toml",
    ])
}

fn two_site_configs() -> Vec<DjangoEnvironmentConfig> {
    vec![
        config("projects/site1", Some("projects.site1.settings")),
        config("projects/site2", Some("projects.site2.settings")),
    ]
}

#[test]
fn django_environments_explicit_django_environments_remain_path_scoped() {
    let environments = two_sites().discover(two_site_configs(), &[], None);

    assert_eq!(environments.len(), 2);
    assert_eq!(environments[0].root, at("projects/site1"));
    assert_eq!(known_module(&environments[0].django_settings_module), module("projects.site1.settings"));
    assert_eq!(known_file(&environments[0].django_settings_file), at("projects/site1/settings.py"));
    assert_eq!(environments[1].root, at("projects/site2"));
    assert_eq!(known_module(&environments[1].django_settings_module), module("projects.site2.settings"));
    assert_eq!(known_file(&environments[1].django_settings_file), at("projects/site2/settings.py"));
}

#[test]
fn static_django_environments_explicit_django_environments_remain_path_scoped() {
    let environments = two_sites().discover(two_site_configs(), &[], None);

    assert_eq!(environments.len(), 2);
    assert_eq!(environments[0].root, at("projects/site1"));
    assert_eq!(known_module(&environments[0].django_settings_module), module("projects.site1.settings"));
    assert_eq!(known_file(&environments[0].django_settings_file), at("projects/site1/settings.py"));
    assert_eq!(environments[1].root, at("projects/site2"));
    assert_eq!(known_module(&environments[1].django_settings_module), module("projects.site2.settings"));
    assert_eq!(known_file(&environments[1].django_settings_file), at("projects/site2/settings.py"));
}

#[test]
fn django_settings_file_patterns_discover_split_settings_environments() {
    let tree = Tree::new(&[
        "projects/__init__.py",
        "projects/site1/__init__.py",
        "projects/site1/settings/__init__.py",
        "projects/site1/settings/dev.py",
        "projects/site1/settings/production.py",
        "projects/site2/__init__.py",
        "projects/site2/settings/__init__.py",
        "projects/site2/settings/dev.py",
        "djls.toml",
    ]);
    let environments = tree.discover(Vec::new(), &["projects/*/settings/dev.py"], None);

    assert_eq!(environments.len(), 2);
    assert_eq!(environments[0].root, at("projects/site1"));
    assert_eq!(known_module(&environments[0].django_settings_module), module("projects.site1.settings.dev"));
    assert_eq!(known_file(&environments[0].django_settings_file), at("projects/site1/settings/dev.py"));
    assert_eq!(environments[1].root, at("projects/site2"));
    assert_eq!(known_module(&environments[1].django_settings_module), module("projects.site2.settings.dev"));
    assert_eq!(known_file(&environments[1].django_settings_file), at("projects/site2/settings/dev.py"));
}

#[test]
fn django_settings_file_patterns_map_files_through_auto_src_search_path() {
    let tree = Tree::new(&[
        "src/project/__init__.py",
        "src/project/settings/__init__.py",
        "src/project/settings/dev.py",
        "djls.toml",
    ]);
    let roots = tree.search_paths();
    assert!(roots.iter().any(|root| root.kind == ModuleSearchPathKind::AutoSrc));

    let environments = tree.discover_with(Vec::new(), &["src/*/settings/dev.py"], None, &roots);

    assert_eq!(environments.len(), 1);
    assert_eq!(environments[0].root, at("src/project"));
    assert_eq!(known_module(&environments[0].django_settings_module), module("project.settings.dev"));
    assert_eq!(known_file(&environments[0].django_settings_file), at("src/project/settings/dev.py"));
}

#[test]
fn environments_without_a_module_or_with_a_bad_glob_are_unknown() {
    let tree = Tree::new(&["djls.toml"]);
    let environments = tree.discover(vec![config("/elsewhere", None)], &[], None);
    assert_eq!(environments[0].root, "/elsewhere");
    let Fact::Unknown { reasons } = &environments[0].django_settings_module else { panic!("expected unknown") };
    assert_eq!(reasons[0].field, Field::DjangoEnvironmentDiscovery);
    assert_eq!(reasons[0].source, ReasonSource::DjangoEnvironmentRoot("/elsewhere".to_string()));
    assert_eq!(reasons[0].message, "Django environment must set django_settings_module");

    let environments = tree.discover(Vec::new(), &["  projects/[a-"], None);
    assert_eq!(environments.len(), 1);
    assert_eq!(environments[0].root, ROOT);
    let Fact::Unknown { reasons } = &environments[0].django_settings_file else { panic!("expected unknown") };
    assert!(reasons[0].message.starts_with("django_settings_file_patterns contains invalid glob `projects/[a-`: "));
}

#[test]
fn no_configuration_means_no_environment() {
    let tree = Tree::new(&["project/settings.py"]);
    assert!(tree.discover(Vec::new(), &[], None).is_empty());
}

#[test]
fn matched_files_become_environments_once_and_in_order() {
    let tree = Tree::new(&["b/settings/dev.py", "a/settings.py"]);
    let walked = vec![at("b/settings/dev.py"), at("a/settings.py"), at("b/settings/dev.py")];
    let environments =
        environments_from_matched_files(ROOT, &walked, &vec![true, true, true], &tree.search_paths(), &tree.files);
    let files: Vec<String> = environments.iter().map(|e| known_file(&e.django_settings_file)).collect();
    assert_eq!(files, [at("a/settings.py"), at("b/settings/dev.py")]);
    assert_eq!(environments[1].root, at("b"));
    assert_eq!(known_module(&environments[1].django_settings_module), module("b.settings.dev"));
}

#[test]
fn environment_roots_are_normalized_and_inferred() {
    assert_eq!(normalize_environment_root(ROOT, "."), ROOT);
    assert_eq!(normalize_environment_root(ROOT, "sites/a"), at("sites/a"));
    assert_eq!(normalize_environment_root(ROOT, "/srv/site"), "/srv/site");
    assert_eq!(infer_environment_root_from_settings_file(ROOT, &at("x/settings/dev.py")), at("x"));
    assert_eq!(infer_environment_root_from_settings_file(ROOT, &at("x/conf/dev.py")), ROOT);
    assert_eq!(infer_environment_root_from_settings_file(ROOT, "/other/place/dev.py"), ROOT);
}

#[test]
fn settings_module_comes_from_configuration_environment_or_manage_py() {
    let existing = vec![at("manage.py"), at("config"), at("config/settings.py")];
    assert_eq!(resolve_django_settings(ROOT, Some("a.settings"), Some("b.settings"), &existing).as_deref(), Some("a.settings"));
    assert_eq!(resolve_django_settings(ROOT, None, Some("b.settings"), &existing).as_deref(), Some("b.settings"));
    assert_eq!(resolve_django_settings(ROOT, None, Some(""), &existing).as_deref(), Some("config.settings"));
    assert_eq!(resolve_django_settings(ROOT, None, None, &vec![at("config/settings.py")]), None);
    assert_eq!(auto_detect_settings_module(ROOT, &vec![at("manage.py"), at("settings.py"), at("project/settings.py")]).as_deref(), Some("settings"));
    assert_eq!(auto_detect_settings_module(ROOT, &vec![at("manage.py"), at("project/settings.py")]).as_deref(), Some("project.settings"));
    assert_eq!(auto_detect_settings_module(ROOT, &vec![at("manage.py")]), None);
}

#[test]
fn settings_file_patterns_select_walked_files_in_path_order() {
    let walked = vec![
        format!("{ROOT}/site-x/settings.py"),
        format!("{ROOT}/site/settings.py"),
        format!("{ROOT}/site/urls.py"),
    ];
    let matched = djls_semantic::environments::settings_file_pattern_matches(
        ROOT,
        &vec!["  **/settings.py ".to_string()],
        &walked,
    )
    .unwrap();
    assert_eq!(matched, vec![true, true, false]);
    let envs = environments_from_matched_files(ROOT, &walked, &matched, &Vec::new(), &Vec::new());
    let files: Vec<String> = envs
        .iter()
        .map(|e| match &e.django_settings_file {
            Fact::Known { value } => value.clone(),
            _ => String::new(),
        })
        .collect();
    assert_eq!(files, vec![format!("{ROOT}/site/settings.py"), format!("{ROOT}/site-x/settings.py")]);
}

#[test]
fn invalid_settings_file_pattern_is_reported() {
    let r = djls_semantic::environments::settings_file_pattern_matches(
        ROOT,
        &vec!["[abc".to_string()],
        &vec![format!("{ROOT}/settings.py")],
    );
    let message = r.unwrap_err();
    assert!(message.starts_with("django_settings_file_patterns contains invalid glob `[abc`: "), "{message}");
}

#[test]
fn module_search_paths_are_kept_once_per_path() {
    let dirs = vec!["/p".to_string(), "/p/".to_string(), "/p/src".to_string()];
    let fact = discover_module_search_paths("/p", &vec!["/p/".to_string(), "src".to_string()], &Vec::new(), &dirs);
    let entries = match fact {
        Fact::Known { value } => value,
        other => panic!("expected known search paths, got {other:?}"),
    };
    let paths: Vec<(ModuleSearchPathKind, String)> = entries.into_iter().map(|e| (e.kind, e.path)).collect();
    assert_eq!(
        paths,
        vec![(ModuleSearchPathKind::Workspace, "/p".to_string()), (ModuleSearchPathKind::AutoSrc, "/p/src".to_string())]
    );
}
