use djls_semantic::cache::{cache_dir, cache_key, current_cached_snapshot};
use djls_semantic::interpreter::Interpreter;
use djls_semantic::snapshots::TemplateLibrarySnapshot;

fn test_response() -> TemplateLibrarySnapshot {
    TemplateLibrarySnapshot {
        symbols: vec![],
        libraries: vec![("i18n".to_string(), "django.templatetags.i18n".to_string())],
        builtins: vec!["django.template.defaulttags".to_string()],
    }
}

#[test]
fn cache_key_deterministic() {
    let interpreter = Interpreter::VenvPath("/project/.venv".to_string());
    let dsm = Some("myproject.settings");
    let pythonpath = vec!["/extra".to_string()];

    let key1 = cache_key("/project", &interpreter, dsm, &pythonpath);
    let key2 = cache_key("/project", &interpreter, dsm, &pythonpath);
    assert_eq!(key1, key2);
}

#[test]
fn cache_key_varies_with_inputs() {
    let interpreter = Interpreter::VenvPath("/project/.venv".to_string());
    let pythonpath: Vec<String> = vec![];

    let key1 = cache_key("/project-a", &interpreter, None, &pythonpath);
    let key2 = cache_key("/project-b", &interpreter, None, &pythonpath);
    assert_ne!(key1, key2);
}

#[test]
fn cache_key_is_the_sha256_of_the_environment() {
    let interpreter = Interpreter::VenvPath("/project/.venv".to_string());
    let key = cache_key("/project", &interpreter, Some("myproject.settings"), &vec!["/extra".to_string()]);
    assert_eq!(key, "3f13bbdcd28fce98925900fbb71e06c83d3442b5ee404a9c557306508856fc84");
    assert_eq!(
        cache_key("", &Interpreter::Auto, None, &Vec::new()),
        "3bcb5e3766e19c25a84492cfd8ded9928b2ebcf91de19238798693f7b78084c1"
    );
}

#[test]
fn cache_key_quotes_interpreter_paths_as_debug_does() {
    let interpreter = Interpreter::InterpreterPath("/usr/bin/py\"q".to_string());
    assert_eq!(
        cache_key("/p", &interpreter, None, &Vec::new()),
        "b60a418b4fdbf84254d037ceffa5ad5f6fa4f95e392f573cfa2663e9c8ebd007"
    );
}

#[test]
fn cache_dir_takes_the_first_sixteen_digits() {
    let interpreter = Interpreter::VenvPath("/project/.venv".to_string());
    let dir = cache_dir("/home/me/.cache/djls", "/project", &interpreter, Some("myproject.settings"), &vec![
        "/extra".to_string(),
    ]);
    assert_eq!(dir, "/home/me/.cache/djls/inspector/3f13bbdcd28fce98");
}

#[test]
fn cached_snapshots_of_another_version_are_ignored() {
    let kept = current_cached_snapshot("6.0.0", "6.0.0", test_response()).expect("same version is used");
    assert_eq!(kept.libraries.len(), 1);
    assert_eq!(kept.builtins.len(), 1);
    assert!(current_cached_snapshot("5.9.0", "6.0.0", test_response()).is_none());
}
