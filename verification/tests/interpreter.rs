use djls_semantic::interpreter::{parse_python_version, parse_u32, site_packages_path_in_venv, Interpreter};

fn strings(v: &[&str]) -> Vec<String> {
    v.iter().map(|s| s.to_string()).collect()
}

#[test]
fn test_discover_with_explicit_venv_path() {
    let interpreter = Interpreter::discover(Some("/path/to/venv"), None);
    assert_eq!(interpreter, Interpreter::VenvPath("/path/to/venv".to_string()));
}

#[test]
fn test_discover_with_virtual_env_var() {
    let interpreter = Interpreter::discover(None, Some("/env/path".to_string()));
    assert_eq!(interpreter, Interpreter::VenvPath("/env/path".to_string()));
}

#[test]
fn test_discover_explicit_overrides_env_var() {
    let interpreter = Interpreter::discover(Some("/explicit/path"), Some("/env/path".to_string()));
    assert_eq!(interpreter, Interpreter::VenvPath("/explicit/path".to_string()));
}

#[test]
fn test_discover_auto_when_no_hints() {
    let interpreter = Interpreter::discover(None, None);
    assert_eq!(interpreter, Interpreter::Auto);
}

#[test]
fn test_interpreter_path_resolution() {
    let python = "/tmp/interp/python";
    let interpreter = Interpreter::InterpreterPath(python.to_string());
    let resolved = interpreter.python_path("/tmp/interp", false, &strings(&[python]), &strings(&["/tmp/interp"]), None);
    assert_eq!(resolved, Some(python.to_string()));
}

#[test]
fn test_interpreter_path_not_found() {
    let interpreter = Interpreter::InterpreterPath("/non/existent/python".to_string());
    let resolved = interpreter.python_path("/project", false, &Vec::new(), &Vec::new(), None);
    assert_eq!(resolved, None);
}

#[test]
fn test_venv_path_resolution() {
    let interpreter = Interpreter::VenvPath("/tmp/venv".to_string());
    let resolved = interpreter.python_path(
        "/project",
        false,
        &strings(&["/tmp/venv/bin/python"]),
        &strings(&["/tmp/venv", "/tmp/venv/bin"]),
        None,
    );
    assert!(resolved.is_some());
    assert!(resolved.unwrap().ends_with("bin/python"));
}

#[test]
fn venv_path_resolution_on_windows_uses_scripts() {
    let interpreter = Interpreter::VenvPath("/tmp/venv".to_string());
    let resolved = interpreter.python_path("/project", true, &strings(&["/tmp/venv/Scripts/python.exe"]), &Vec::new(), None);
    assert_eq!(resolved, Some("/tmp/venv/Scripts/python.exe".to_string()));
}

#[test]
fn test_venv_path_not_found() {
    let interpreter = Interpreter::VenvPath("/non/existent/venv".to_string());
    let resolved = interpreter.python_path("/project", false, &Vec::new(), &Vec::new(), None);
    assert_eq!(resolved, None);
}

#[test]
fn site_packages_path_finds_posix_venv_layout() {
    let dirs = strings(&["/venv", "/venv/lib", "/venv/lib/python3.12", "/venv/lib/python3.12/site-packages"]);
    let listings = vec![("/venv/lib".to_string(), vec![("python3.12".to_string(), true)])];
    let site_packages = site_packages_path_in_venv("/venv", false, &dirs, &listings);
    assert_eq!(site_packages.as_deref(), Some("/venv/lib/python3.12/site-packages"));
}

#[test]
fn site_packages_path_finds_windows_venv_layout() {
    let dirs = strings(&["/venv", "/venv/Lib", "/venv/Lib/site-packages"]);
    let site_packages = site_packages_path_in_venv("/venv", false, &dirs, &Vec::new());
    assert_eq!(site_packages.as_deref(), Some("/venv/Lib/site-packages"));
}

#[test]
fn site_packages_path_uses_platform_layout_before_fallback() {
    let dirs = strings(&[
        "/venv",
        "/venv/lib",
        "/venv/lib/python3.12",
        "/venv/lib/python3.12/site-packages",
        "/venv/Lib",
        "/venv/Lib/site-packages",
    ]);
    let listings = vec![("/venv/lib".to_string(), vec![("python3.12".to_string(), true)])];
    assert_eq!(
        site_packages_path_in_venv("/venv", false, &dirs, &listings).as_deref(),
        Some("/venv/lib/python3.12/site-packages")
    );
    assert_eq!(site_packages_path_in_venv("/venv", true, &dirs, &listings).as_deref(), Some("/venv/Lib/site-packages"));
}

#[test]
fn site_packages_prefers_the_newest_python_version() {
    let dirs = strings(&[
        "/venv/lib",
        "/venv/lib/python3.9/site-packages",
        "/venv/lib/python3.12/site-packages",
        "/venv/lib/pythonx/site-packages",
    ]);
    let listings = vec![(
        "/venv/lib".to_string(),
        vec![
            ("python3.12".to_string(), true),
            ("pythonx".to_string(), true),
            ("python3.9".to_string(), true),
            ("python3.13".to_string(), false),
        ],
    )];
    assert_eq!(
        site_packages_path_in_venv("/venv", false, &dirs, &listings).as_deref(),
        Some("/venv/lib/python3.12/site-packages")
    );
}

#[test]
fn test_auto_finds_project_venv() {
    let interpreter = Interpreter::Auto;
    let resolved = interpreter.python_path(
        "/proj",
        false,
        &strings(&["/proj/.venv/bin/python"]),
        &strings(&["/proj", "/proj/.venv", "/proj/.venv/bin"]),
        None,
    );
    assert!(resolved.is_some());
    assert!(resolved.unwrap().ends_with(".venv/bin/python"));
}

#[test]
fn test_auto_priority_order() {
    let interpreter = Interpreter::Auto;
    let resolved = interpreter.python_path(
        "/proj",
        false,
        &strings(&["/proj/.venv/bin/python", "/proj/venv/bin/python"]),
        &strings(&["/proj", "/proj/.venv", "/proj/venv"]),
        None,
    );
    assert!(resolved.is_some());
    assert!(resolved.unwrap().contains(".venv"));
}

#[test]
fn test_auto_falls_back_to_system() {
    let interpreter = Interpreter::Auto;
    let resolved = interpreter.python_path("/proj", false, &Vec::new(), &strings(&["/proj"]), Some("/usr/bin/python".to_string()));
    assert_eq!(resolved, Some("/usr/bin/python".to_string()));
}

#[test]
fn test_auto_no_python_found() {
    let interpreter = Interpreter::Auto;
    let resolved = interpreter.python_path("/proj", false, &Vec::new(), &strings(&["/proj"]), None);
    assert_eq!(resolved, None);
}

#[test]
fn auto_site_packages_come_from_the_first_project_venv_that_has_them() {
    let interpreter = Interpreter::Auto;
    let dirs = strings(&["/proj/venv", "/proj/venv/lib", "/proj/venv/lib/python3.11/site-packages", "/proj/.venv"]);
    let listings = vec![("/proj/venv/lib".to_string(), vec![("python3.11".to_string(), true)])];
    assert_eq!(
        interpreter.site_packages_path("/proj", false, &dirs, &listings).as_deref(),
        Some("/proj/venv/lib/python3.11/site-packages")
    );
    assert_eq!(Interpreter::InterpreterPath("/usr/bin/python".to_string()).site_packages_path("/proj", false, &dirs, &listings), None);
}

#[test]
fn versions_parse_like_the_standard_library() {
    assert_eq!(parse_u32("42"), Some(42));
    assert_eq!(parse_u32("+7"), Some(7));
    assert_eq!(parse_u32(""), None);
    assert_eq!(parse_u32("+"), None);
    assert_eq!(parse_u32("4294967295"), Some(4294967295));
    assert_eq!(parse_u32("4294967296"), None);
    assert_eq!(parse_u32("1a"), None);
    assert_eq!(parse_python_version("3.12"), Some((3, 12)));
    assert_eq!(parse_python_version("3.13t"), Some((3, 13)));
    assert_eq!(parse_python_version("3"), None);
    assert_eq!(parse_python_version("3.x"), None);
    assert_eq!(parse_python_version("x.1"), None);
}
