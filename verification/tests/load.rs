use djls_semantic::load::{parse_load_bits, LoadKind, LoadStatement, LoadedLibraries};
use djls_semantic::span::Span;

fn bits(s: &str) -> Vec<String> {
    s.split_whitespace().map(String::from).collect()
}

fn make_load(span: (u32, u32), kind: LoadKind) -> LoadStatement {
    LoadStatement::new(Span::new(span.0, span.1), kind)
}

fn has_selective(state: &djls_semantic::load::LoadState, library: &str) -> bool {
    state.selective_imports().iter().any(|(lib, _)| lib == library)
}

#[test]
fn parse_full_load_single() {
    let result = parse_load_bits(&bits("load i18n"));
    assert_eq!(
        result,
        Some(LoadKind::FullLoad {
            libraries: vec!["i18n".into()]
        })
    );
}

#[test]
fn parse_full_load_multiple() {
    let result = parse_load_bits(&bits("load i18n static"));
    assert_eq!(
        result,
        Some(LoadKind::FullLoad {
            libraries: vec!["i18n".into(), "static".into()]
        })
    );
}

#[test]
fn parse_selective_import_single() {
    let result = parse_load_bits(&bits("load trans from i18n"));
    assert_eq!(
        result,
        Some(LoadKind::SelectiveImport {
            symbols: vec!["trans".into()],
            library: "i18n".into(),
        })
    );
}

#[test]
fn parse_selective_import_multiple() {
    let result = parse_load_bits(&bits("load trans blocktrans from i18n"));
    assert_eq!(
        result,
        Some(LoadKind::SelectiveImport {
            symbols: vec!["trans".into(), "blocktrans".into()],
            library: "i18n".into(),
        })
    );
}

#[test]
fn parse_empty_bits() {
    assert_eq!(parse_load_bits(&[]), None);
}

#[test]
fn parse_not_load_tag() {
    assert_eq!(parse_load_bits(&bits("if condition")), None);
}

#[test]
fn parse_load_no_args() {
    assert_eq!(parse_load_bits(&bits("load")), None);
}

#[test]
fn parse_load_from_no_symbols() {
    assert_eq!(parse_load_bits(&bits("load from i18n")), None);
}

#[test]
fn parse_load_from_no_library() {
    assert_eq!(parse_load_bits(&bits("load trans from")), None);
}

#[test]
fn parse_load_from_multiple_libraries() {
    assert_eq!(parse_load_bits(&bits("load trans from i18n static")), None);
}

#[test]
fn parse_load_first_from_splits() {
    // The first `from` splits the symbols from the single library after it.
    assert_eq!(parse_load_bits(&bits("load a from from lib")), None);
    assert_eq!(
        parse_load_bits(&bits("load a b from lib")),
        Some(LoadKind::SelectiveImport {
            symbols: vec!["a".into(), "b".into()],
            library: "lib".into(),
        })
    );
}

#[test]
fn available_at_no_loads() {
    let libs = LoadedLibraries::new(vec![]);
    let state = libs.available_at(100);
    assert!(state.fully_loaded_libraries().is_empty());
    assert!(state.selective_imports().is_empty());
    assert!(libs.is_empty());
}

#[test]
fn available_at_full_load_before_position() {
    let libs = LoadedLibraries::new(vec![make_load(
        (10, 20),
        LoadKind::FullLoad {
            libraries: vec!["i18n".into()],
        },
    )]);
    let state = libs.available_at(50);
    assert!(state.is_fully_loaded("i18n"));
}

#[test]
fn available_at_full_load_after_position() {
    let libs = LoadedLibraries::new(vec![make_load(
        (10, 20),
        LoadKind::FullLoad {
            libraries: vec!["i18n".into()],
        },
    )]);
    let state = libs.available_at(15);
    assert!(!state.is_fully_loaded("i18n"));
}

#[test]
fn available_at_selective_import() {
    let libs = LoadedLibraries::new(vec![make_load(
        (10, 20),
        LoadKind::SelectiveImport {
            symbols: vec!["trans".into()],
            library: "i18n".into(),
        },
    )]);
    let state = libs.available_at(50);
    assert!(!state.is_fully_loaded("i18n"));
    assert!(state.is_symbol_available("i18n", "trans"));
    assert!(!state.is_symbol_available("i18n", "blocktrans"));
}

#[test]
fn selective_then_full_load() {
    let libs = LoadedLibraries::new(vec![
        make_load(
            (10, 20),
            LoadKind::SelectiveImport {
                symbols: vec!["trans".into()],
                library: "i18n".into(),
            },
        ),
        make_load(
            (50, 20),
            LoadKind::FullLoad {
                libraries: vec!["i18n".into()],
            },
        ),
    ]);
    let state = libs.available_at(40);
    assert!(!state.is_fully_loaded("i18n"));
    assert!(state.is_symbol_available("i18n", "trans"));

    let state = libs.available_at(80);
    assert!(state.is_fully_loaded("i18n"));
    assert!(state.is_symbol_available("i18n", "trans"));
    assert!(state.is_symbol_available("i18n", "blocktrans"));
    assert!(!has_selective(&state, "i18n"));
}

#[test]
fn full_load_then_selective_is_noop() {
    let libs = LoadedLibraries::new(vec![
        make_load(
            (10, 20),
            LoadKind::FullLoad {
                libraries: vec!["i18n".into()],
            },
        ),
        make_load(
            (50, 20),
            LoadKind::SelectiveImport {
                symbols: vec!["trans".into()],
                library: "i18n".into(),
            },
        ),
    ]);
    let state = libs.available_at(80);
    assert!(state.is_fully_loaded("i18n"));
    assert!(!has_selective(&state, "i18n"));
}

#[test]
fn multiple_selective_imports_accumulate() {
    let libs = LoadedLibraries::new(vec![
        make_load(
            (10, 30),
            LoadKind::SelectiveImport {
                symbols: vec!["trans".into()],
                library: "i18n".into(),
            },
        ),
        make_load(
            (50, 40),
            LoadKind::SelectiveImport {
                symbols: vec!["blocktrans".into()],
                library: "i18n".into(),
            },
        ),
    ]);
    let state = libs.available_at(100);
    assert!(!state.is_fully_loaded("i18n"));
    assert!(state.is_symbol_available("i18n", "trans"));
    assert!(state.is_symbol_available("i18n", "blocktrans"));
}

#[test]
fn position_at_exact_span_end() {
    let libs = LoadedLibraries::new(vec![make_load(
        (10, 20),
        LoadKind::FullLoad {
            libraries: vec!["i18n".into()],
        },
    )]);
    let state = libs.available_at(30);
    assert!(state.is_fully_loaded("i18n"));
    let state = libs.available_at(29);
    assert!(!state.is_fully_loaded("i18n"));
}

#[test]
fn availability_grows_with_position() {
    let libs = LoadedLibraries::new(vec![
        make_load(
            (0, 10),
            LoadKind::SelectiveImport {
                symbols: vec!["trans".into()],
                library: "i18n".into(),
            },
        ),
        make_load(
            (20, 10),
            LoadKind::FullLoad {
                libraries: vec!["i18n".into(), "static".into()],
            },
        ),
    ]);
    for p in 0..40u32 {
        let now = libs.available_at(p);
        let later = libs.available_at(p + 1);
        for sym in ["trans", "blocktrans", "static"] {
            for lib in ["i18n", "static"] {
                if now.is_symbol_available(lib, sym) {
                    assert!(later.is_symbol_available(lib, sym));
                }
            }
        }
    }
}

#[test]
fn load_statement_accessors() {
    let stmt = make_load(
        (3, 4),
        LoadKind::FullLoad {
            libraries: vec!["i18n".into()],
        },
    );
    assert_eq!(stmt.span(), Span::new(3, 4));
    assert_eq!(
        stmt.kind(),
        &LoadKind::FullLoad {
            libraries: vec!["i18n".into()]
        }
    );
    let libs = LoadedLibraries::new(vec![stmt.clone()]);
    assert_eq!(libs.statements(), &[stmt]);
}
