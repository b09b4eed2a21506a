use djls_semantic::facts::{Fact, ModuleLocation, ModuleResolution, ModuleSearchPathEntry, ModuleSearchPathKind, ReasonSource, ResolvedModule};
use djls_semantic::modules::{
    discover_module_search_paths, module_name_for_file, pth_lines, resolve_module, resolve_relative_import_module,
    SitePackagesProbe,
};
use djls_semantic::names::PyModuleName;

/// A file tree: the files that exist and every directory that holds them.
struct Tree {
    files: Vec<String>,
    dirs: Vec<String>,
}

impl Tree {
    fn new(roots: &[&str]) -> Tree {
        let mut tree = Tree { files: Vec::new(), dirs: Vec::new() };
        for root in roots {
            tree.add_dir(root);
        }
        tree
    }

    fn add_dir(&mut self, dir: &str) {
        let mut current = String::new();
        for part in dir.split('/').filter(|p| !p.is_empty()) {
            current.push('/');
            current.push_str(part);
            if !self.dirs.contains(&current) {
                self.dirs.push(current.clone());
            }
        }
    }

    fn file(mut self, path: &str) -> Tree {
        let (dir, _) = path.rsplit_once('/').unwrap();
        self.add_dir(dir);
        self.files.push(path.to_string());
        self
    }
}

fn module(name: &str) -> PyModuleName {
    PyModuleName::parse(name).unwrap()
}

fn entries(fact: &Fact<Vec<ModuleSearchPathEntry>>) -> Vec<ModuleSearchPathEntry> {
    match fact {
        Fact::Known { value } | Fact::Partial { value, .. } => value.clone(),
        other => panic!("expected module search paths, got {other:?}"),
    }
}

fn assert_search_path(search_paths: &[ModuleSearchPathEntry], kind: ModuleSearchPathKind, path: &str) {
    assert!(
        search_paths.iter().any(|e| e.kind == kind && e.path == path),
        "expected {kind:?} module search path at {path}, got {search_paths:?}"
    );
}

fn known_module(resolution: ModuleResolution) -> ResolvedModule {
    match resolution.resolved {
        Fact::Known { value } => value,
        other => panic!("expected known module, got {other:?}"),
    }
}

const ROOT: &str = "/work/project";

fn discover(tree: &Tree, explicit: &[&str], sites: Vec<SitePackagesProbe>) -> Fact<Vec<ModuleSearchPathEntry>> {
    let explicit: Vec<String> = explicit.iter().map(|s| s.to_string()).collect();
    discover_module_search_paths(ROOT, &explicit, &sites, &tree.dirs)
}

fn root_layout() {
    let tree = Tree::new(&[ROOT]).file("/work/project/blog/__init__.py").file("/work/project/blog/models.py");
    let roots = entries(&discover(&tree, &[], Vec::new()));
    assert_search_path(&roots, ModuleSearchPathKind::Workspace, ROOT);

    let resolved = known_module(resolve_module(module("blog.models"), &roots, ROOT, &tree.files));
    assert_eq!(resolved.module, module("blog.models"));
    assert_eq!(resolved.file, "/work/project/blog/models.py");
    assert_eq!(resolved.search_path, ROOT);
    assert_eq!(resolved.location, ModuleLocation::Workspace);
}

#[test]
fn module_resolver_resolves_root_layout_module() {
    root_layout();
}

#[test]
fn static_resolver_resolves_root_layout_module() {
    root_layout();
}

fn src_layout() {
    let tree = Tree::new(&[ROOT])
        .file("/work/project/src/config/__init__.py")
        .file("/work/project/src/config/settings.py");
    let roots = entries(&discover(&tree, &[], Vec::new()));
    assert_search_path(&roots, ModuleSearchPathKind::AutoSrc, "/work/project/src");

    let resolved = known_module(resolve_module(module("config.settings"), &roots, ROOT, &tree.files));
    assert_eq!(resolved.file, "/work/project/src/config/settings.py");
    assert_eq!(resolved.search_path, "/work/project/src");
}

#[test]
fn discovers_top_level_src_search_path() {
    src_layout();
}

#[test]
fn discovers_top_level_src_import_root() {
    src_layout();
}

fn module_name_from_longest_root() {
    let tree = Tree::new(&[ROOT])
        .file("/work/project/src/config/__init__.py")
        .file("/work/project/src/config/settings.py");
    let roots = entries(&discover(&tree, &[], Vec::new()));
    let fact = module_name_for_file("/work/project/src/config/settings.py", &roots, &tree.files);
    let Fact::Known { value } = fact else {
        panic!("expected known module for settings file, got {fact:?}");
    };
    assert_eq!(value, module("config.settings"));
}

#[test]
fn resolves_module_name_for_file_from_longest_search_path() {
    module_name_from_longest_root();
}

#[test]
fn resolves_file_module_from_longest_import_root() {
    module_name_from_longest_root();
}

#[test]
fn resolves_namespace_package_module_name_for_file_as_known() {
    let tree = Tree::new(&[ROOT]).file("/work/project/src/acme/plugins/blog/apps.py");
    let roots = entries(&discover(&tree, &[], Vec::new()));
    let fact = module_name_for_file("/work/project/src/acme/plugins/blog/apps.py", &roots, &tree.files);
    let Fact::Known { value } = fact else {
        panic!("expected known module for namespace package file, got {fact:?}");
    };
    assert_eq!(value, module("acme.plugins.blog.apps"));
}

fn explicit_roots() {
    let source_root = "/work/project/backend/python/apps";
    let tree = Tree::new(&[ROOT])
        .file("/work/project/backend/python/apps/catalog/__init__.py")
        .file("/work/project/backend/python/apps/catalog/apps.py");
    let roots = entries(&discover(&tree, &["backend/python/apps"], Vec::new()));
    assert_search_path(&roots, ModuleSearchPathKind::ExplicitPythonPath, source_root);

    let resolved = known_module(resolve_module(module("catalog.apps"), &roots, ROOT, &tree.files));
    assert_eq!(resolved.file, "/work/project/backend/python/apps/catalog/apps.py");
    assert_eq!(resolved.search_path, source_root);
}

#[test]
fn module_resolver_uses_explicit_nested_source_roots() {
    explicit_roots();
}

#[test]
fn static_resolver_uses_explicit_nested_source_roots() {
    explicit_roots();
}

fn duplicates() {
    let tree = Tree::new(&[ROOT])
        .file("/work/project/shop/__init__.py")
        .file("/work/project/shop/apps.py")
        .file("/work/project/src/shop/__init__.py")
        .file("/work/project/src/shop/apps.py");
    let roots = entries(&discover(&tree, &[], Vec::new()));
    let resolution = resolve_module(module("shop.apps"), &roots, ROOT, &tree.files);
    match resolution.resolved {
        Fact::Ambiguous { candidates, reasons } => {
            assert_eq!(candidates.len(), 2);
            assert!(candidates.iter().any(|c| c.file == "/work/project/shop/apps.py"));
            assert!(candidates.iter().any(|c| c.file == "/work/project/src/shop/apps.py"));
            assert!(reasons.iter().any(|r| matches!(&r.source, ReasonSource::Module(_))));
        }
        other => panic!("expected ambiguous duplicate module, got {other:?}"),
    }
}

#[test]
fn module_resolver_duplicate_modules_are_ambiguous() {
    duplicates();
}

#[test]
fn static_resolver_duplicate_modules_are_ambiguous() {
    duplicates();
}

#[test]
fn namespace_package_resolution_is_known_when_unique() {
    let tree = Tree::new(&[ROOT]).file("/work/project/src/acme/plugins/blog/apps.py");
    let roots = entries(&discover(&tree, &[], Vec::new()));
    let resolution = resolve_module(module("acme.plugins.blog.apps"), &roots, ROOT, &tree.files);
    match resolution.resolved {
        Fact::Known { value } => assert_eq!(value.file, "/work/project/src/acme/plugins/blog/apps.py"),
        other => panic!("expected known namespace package module, got {other:?}"),
    }
}

fn pth_roots() {
    let site_packages = "/work/site/lib/python3.12/site-packages";
    let pth_root = "/work/project/vendor_src";
    let tree = Tree::new(&[ROOT, site_packages])
        .file("/work/project/vendor_src/vendored_app/__init__.py")
        .file("/work/project/vendor_src/vendored_app/apps.py");
    let probe = SitePackagesProbe {
        path: site_packages.to_string(),
        pth_files: Some(vec![
            (
                format!("{site_packages}/editable.pth"),
                Some(format!("{pth_root}\n")),
            ),
            (
                format!("{site_packages}/workspace.pth"),
                Some("# generated by editable install\n../../../ignored\nimport site\n".to_string()),
            ),
        ]),
    };
    let roots = entries(&discover(&tree, &[], vec![probe]));
    assert_search_path(&roots, ModuleSearchPathKind::SitePackages, site_packages);
    assert_search_path(&roots, ModuleSearchPathKind::PthFile, pth_root);

    let resolved = known_module(resolve_module(module("vendored_app.apps"), &roots, ROOT, &tree.files));
    assert_eq!(resolved.file, "/work/project/vendor_src/vendored_app/apps.py");
    assert_eq!(resolved.search_path, pth_root);
}

#[test]
fn discovers_pth_search_paths() {
    pth_roots();
}

#[test]
fn discovers_pth_import_roots() {
    pth_roots();
}

fn relative_import() {
    let tree = Tree::new(&[ROOT])
        .file("/work/project/projects/__init__.py")
        .file("/work/project/projects/site1/__init__.py")
        .file("/work/project/projects/site1/settings/__init__.py")
        .file("/work/project/projects/site1/settings/base.py")
        .file("/work/project/projects/site1/settings/dev.py");
    let target = resolve_relative_import_module(&module("projects.site1.settings.dev"), 1, Some("base"));
    let Fact::Known { value: target } = target else {
        panic!("expected known relative import target, got {target:?}");
    };
    assert_eq!(target, module("projects.site1.settings.base"));

    let roots = entries(&discover(&tree, &[], Vec::new()));
    let resolved = known_module(resolve_module(target, &roots, ROOT, &tree.files));
    assert_eq!(resolved.file, "/work/project/projects/site1/settings/base.py");
}

#[test]
fn module_resolver_resolves_relative_import_from_split_settings() {
    relative_import();
}

#[test]
fn static_resolver_resolves_relative_import_from_split_settings() {
    relative_import();
}

#[test]
fn rejects_invalid_relative_import_levels() {
    let zero = resolve_relative_import_module(&module("project.settings.dev"), 0, Some("base"));
    assert!(matches!(zero, Fact::Unknown { .. }));
    let overflow = resolve_relative_import_module(&module("project.settings.dev"), 4, Some("base"));
    assert!(matches!(overflow, Fact::Unknown { .. }));
}

#[test]
fn missing_project_root_leaves_no_search_paths() {
    let tree = Tree::new(&[]);
    let fact = discover(&tree, &[], Vec::new());
    match fact {
        Fact::Unknown { reasons } => {
            assert_eq!(reasons[0].message, "project root does not exist or is not a directory");
        }
        other => panic!("expected unknown search paths, got {other:?}"),
    }
}

#[test]
fn unreadable_pth_file_and_missing_entry_are_reasons() {
    let site_packages = "/work/site/site-packages";
    let tree = Tree::new(&[ROOT, site_packages]);
    let probe = SitePackagesProbe {
        path: site_packages.to_string(),
        pth_files: Some(vec![
            (format!("{site_packages}/broken.pth"), None),
            (format!("{site_packages}/missing.pth"), Some("/nowhere\n".to_string())),
        ]),
    };
    let fact = discover(&tree, &[], vec![probe]);
    let Fact::Partial { value, reasons } = fact else {
        panic!("expected partial search paths");
    };
    assert!(value.iter().any(|e| e.path == site_packages));
    assert_eq!(reasons.len(), 2);
    assert_eq!(reasons[0].message, "could not read .pth module search paths");
    assert_eq!(reasons[1].message, ".pth entry does not exist or is not a directory");
}

#[test]
fn pth_lines_skip_comments_imports_and_blank_lines() {
    let lines = pth_lines("  /a/b  \n# note\nimport x\n\n../c\n");
    assert_eq!(lines, vec!["/a/b".to_string(), "../c".to_string()]);
}

#[test]
fn module_name_for_missing_or_foreign_file_is_unknown() {
    let tree = Tree::new(&[ROOT]).file("/work/project/notes.txt");
    let roots = entries(&discover(&tree, &[], Vec::new()));
    let missing = module_name_for_file("/work/project/gone.py", &roots, &tree.files);
    assert!(matches!(missing, Fact::Unknown { .. }));
    let text = module_name_for_file("/work/project/notes.txt", &roots, &tree.files);
    let Fact::Unknown { reasons } = text else { panic!("expected unknown") };
    assert_eq!(reasons[0].message, "module file is not a Python file");
    let outside = module_name_for_file("/elsewhere/x.py", &roots, &vec!["/elsewhere/x.py".to_string()]);
    let Fact::Unknown { reasons } = outside else { panic!("expected unknown") };
    assert_eq!(reasons[0].message, "module file is outside configured module search paths");
}

#[test]
fn package_init_names_its_package() {
    let tree = Tree::new(&[ROOT]).file("/work/project/pkg/sub/__init__.py");
    let roots = entries(&discover(&tree, &[], Vec::new()));
    let fact = module_name_for_file("/work/project/pkg/sub/__init__.py", &roots, &tree.files);
    assert_eq!(fact, Fact::Known { value: module("pkg.sub") });
}
