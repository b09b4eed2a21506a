//! Settings files, app configurations and template tag modules given as Python
//! text: a small reader turns the text into the library's syntax tree, and a
//! virtual project tree stands for the files and directories on disk.

use djls_semantic::apps::{resolve_app_registry, AppRegistryFacts};
use djls_semantic::facts::{
    AppFact, Fact, Field, InstalledAppFact, ModuleSearchPathEntry, ModuleSearchPathKind, Reason, ReasonSource,
    SettingsFacts, TemplateBackendFact, TemplateDirFact, TemplateLibraryFact, TemplateLibrarySource,
};
use djls_semantic::libraries::{app_template_tag_library, assemble_template_libraries, DiscoveredTemplateTags};
use djls_semantic::modules::{discover_module_search_paths, resolve_module};
use djls_semantic::names::{LibraryName, PyModuleName};
use djls_semantic::pyast::{Alias, DictItem, Expr, Keyword, ModuleSource, Operator, Stmt};
use djls_semantic::settings_files::{extract_settings_facts, extract_settings_facts_for_module, SettingsImportScope};
use djls_semantic::template_dirs::assemble_template_dirs;

const ROOT: &str = "/work/project";
const DJANGO: &str = "django.template.backends.django.DjangoTemplates";

// ---- reading Python text ----

#[derive(Clone, Debug, PartialEq)]
enum Tok {
    Name(String),
    Str(String),
    Int(String),
    Op(String),
    Opaque,
}

fn tokenize(line: &str) -> Result<Vec<Tok>, String> {
    let chars: Vec<char> = line.chars().collect();
    let mut out = Vec::new();
    let mut i = 0;
    while i < chars.len() {
        let c = chars[i];
        if c.is_whitespace() || c == '\\' {
            i += 1;
        } else if c.is_ascii_alphabetic() || c == '_' {
            let start = i;
            while i < chars.len() && (chars[i].is_ascii_alphanumeric() || chars[i] == '_') {
                i += 1;
            }
            let word: String = chars[start..i].iter().collect();
            let is_prefix = word.len() <= 2 && word.chars().all(|p| "rRbBuUfF".contains(p));
            if is_prefix && i < chars.len() && (chars[i] == '"' || chars[i] == '\'') {
                let (text, next) = read_string(&chars, i)?;
                i = next;
                if word.to_lowercase().contains('f') {
                    out.push(Tok::Opaque);
                } else {
                    out.push(Tok::Str(text));
                }
            } else {
                out.push(Tok::Name(word));
            }
        } else if c.is_ascii_digit() {
            let start = i;
            while i < chars.len() && (chars[i].is_ascii_alphanumeric() || chars[i] == '_') {
                i += 1;
            }
            out.push(Tok::Int(chars[start..i].iter().collect()));
        } else if c == '"' || c == '\'' {
            let (text, next) = read_string(&chars, i)?;
            i = next;
            out.push(Tok::Str(text));
        } else {
            let two: String = chars[i..(i + 2).min(chars.len())].iter().collect();
            let ops = ["**", "//", "+=", "-=", "*=", "/=", "==", "!=", "<=", ">=", "->", ":="];
            if ops.contains(&two.as_str()) {
                out.push(Tok::Op(two));
                i += 2;
            } else {
                out.push(Tok::Op(c.to_string()));
                i += 1;
            }
        }
    }
    Ok(out)
}

fn read_string(chars: &[char], start: usize) -> Result<(String, usize), String> {
    let quote = chars[start];
    let mut i = start + 1;
    let mut text = String::new();
    while i < chars.len() {
        if chars[i] == '\\' && i + 1 < chars.len() {
            text.push(chars[i + 1]);
            i += 2;
        } else if chars[i] == quote {
            return Ok((text, i + 1));
        } else {
            text.push(chars[i]);
            i += 1;
        }
    }
    Err("unterminated string literal".to_string())
}

/// The line without its comment, and how much its brackets open.
fn strip_comment(line: &str) -> (String, i32) {
    let mut out = String::new();
    let mut quote: Option<char> = None;
    let mut depth = 0;
    let mut escaped = false;
    for c in line.chars() {
        match quote {
            Some(q) => {
                if escaped {
                    escaped = false;
                } else if c == '\\' {
                    escaped = true;
                } else if c == q {
                    quote = None;
                }
                out.push(c);
            }
            None => {
                if c == '#' {
                    break;
                }
                if c == '"' || c == '\'' {
                    quote = Some(c);
                }
                if "([{".contains(c) {
                    depth += 1;
                }
                if ")]}".contains(c) {
                    depth -= 1;
                }
                out.push(c);
            }
        }
    }
    (out, depth)
}

/// Logical lines with their indentation.
fn logical_lines(source: &str) -> Result<Vec<(usize, Vec<Tok>)>, String> {
    let mut lines = Vec::new();
    let mut pending = String::new();
    let mut indent = 0;
    let mut depth = 0;
    for raw in source.lines() {
        let (text, d) = strip_comment(raw);
        if depth == 0 {
            if text.trim().is_empty() {
                continue;
            }
            indent = text.len() - text.trim_start().len();
            pending.clear();
        }
        pending.push(' ');
        pending.push_str(&text);
        depth += d;
        if depth < 0 {
            return Err("unmatched closing bracket".to_string());
        }
        if depth == 0 {
            lines.push((indent, tokenize(&pending)?));
        }
    }
    if depth != 0 {
        return Err("unexpected EOF while parsing".to_string());
    }
    Ok(lines)
}

fn parse_python(source: &str) -> Result<Vec<Stmt>, String> {
    let lines = logical_lines(source)?;
    let mut i = 0;
    let body = parse_block(&lines, &mut i, 0)?;
    if i != lines.len() {
        return Err("unexpected indent".to_string());
    }
    Ok(body)
}

fn parse_block(lines: &[(usize, Vec<Tok>)], i: &mut usize, indent: usize) -> Result<Vec<Stmt>, String> {
    let mut body = Vec::new();
    while *i < lines.len() && lines[*i].0 == indent {
        let toks = lines[*i].1.clone();
        *i += 1;
        let opens_block = toks.last() == Some(&Tok::Op(":".to_string()));
        let mut inner = Vec::new();
        if opens_block {
            if *i >= lines.len() || lines[*i].0 <= indent {
                return Err("expected an indented block".to_string());
            }
            let inner_indent = lines[*i].0;
            inner = parse_block(lines, i, inner_indent)?;
        }
        if let Some(stmt) = parse_statement(&toks, inner)? {
            body.push(stmt);
        }
    }
    if *i < lines.len() && lines[*i].0 > indent {
        return Err("unexpected indent".to_string());
    }
    Ok(body)
}

fn name_of(t: &Tok) -> Option<&str> {
    match t {
        Tok::Name(n) => Some(n.as_str()),
        _ => None,
    }
}

fn is_op(t: &Tok, op: &str) -> bool {
    matches!(t, Tok::Op(o) if o == op)
}

fn parse_aliases(toks: &[Tok]) -> Vec<Alias> {
    let toks: Vec<Tok> = toks.iter().filter(|t| !is_op(t, "(") && !is_op(t, ")")).cloned().collect();
    let mut out = Vec::new();
    for part in split_top(&toks, ",") {
        if part.is_empty() {
            continue;
        }
        let mut name = String::new();
        let mut asname = None;
        let mut k = 0;
        while k < part.len() {
            match &part[k] {
                Tok::Name(n) if n == "as" => {
                    asname = part.get(k + 1).and_then(name_of).map(str::to_string);
                    break;
                }
                Tok::Name(n) => name.push_str(n),
                Tok::Op(o) => name.push_str(o),
                _ => {}
            }
            k += 1;
        }
        out.push(Alias { name, asname });
    }
    out
}

fn parse_statement(toks: &[Tok], inner: Vec<Stmt>) -> Result<Option<Stmt>, String> {
    let first = toks.first().and_then(name_of).unwrap_or("");
    match first {
        "from" => {
            let mut k = 1;
            let mut level = 0;
            while k < toks.len() && is_op(&toks[k], ".") {
                level += 1;
                k += 1;
            }
            let mut module = String::new();
            while k < toks.len() && name_of(&toks[k]) != Some("import") {
                match &toks[k] {
                    Tok::Name(n) => module.push_str(n),
                    Tok::Op(o) => module.push_str(o),
                    _ => return Err("invalid import".to_string()),
                }
                k += 1;
            }
            if k >= toks.len() {
                return Err("invalid syntax".to_string());
            }
            let names = parse_aliases(&toks[k + 1..]);
            let module = if module.is_empty() { None } else { Some(module) };
            Ok(Some(Stmt::ImportFrom { module, names, level }))
        }
        "import" => Ok(Some(Stmt::Import { names: parse_aliases(&toks[1..]) })),
        "class" => {
            let name = toks.get(1).and_then(name_of).ok_or("invalid class")?.to_string();
            let mut bases = Vec::new();
            if toks.len() > 3 && is_op(&toks[2], "(") {
                let args = &toks[3..toks.len() - 2];
                for part in split_top(args, ",") {
                    if part.is_empty() || (part.len() > 1 && is_op(&part[1], "=")) {
                        continue;
                    }
                    bases.push(parse_expr(&part)?);
                }
            }
            Ok(Some(Stmt::ClassDef { name, bases, body: inner }))
        }
        "def" => Ok(Some(Stmt::FunctionDef {
            name: toks.get(1).and_then(name_of).ok_or("invalid def")?.to_string(),
        })),
        "pass" | "return" | "if" | "elif" | "else" | "for" | "while" | "with" | "try" | "except" | "finally"
        | "raise" | "del" | "global" | "assert" => Ok(Some(Stmt::Other)),
        _ if toks.first().is_some_and(|t| is_op(t, "@")) => Ok(None),
        _ => parse_simple(toks).map(Some),
    }
}

/// The token slices between top-level separators `sep`.
fn split_top(toks: &[Tok], sep: &str) -> Vec<Vec<Tok>> {
    let mut parts = vec![Vec::new()];
    let mut depth = 0;
    for t in toks {
        if let Tok::Op(o) = t {
            if "([{".contains(o.as_str()) && o.len() == 1 {
                depth += 1;
            }
            if ")]}".contains(o.as_str()) && o.len() == 1 {
                depth -= 1;
            }
            if depth == 0 && o == sep {
                parts.push(Vec::new());
                continue;
            }
        }
        parts.last_mut().unwrap().push(t.clone());
    }
    parts
}

fn parse_simple(toks: &[Tok]) -> Result<Stmt, String> {
    for op in ["+=", "-=", "*=", "/="] {
        let parts = split_top(toks, op);
        if parts.len() == 2 {
            let op = if op == "+=" { Operator::Add } else { Operator::Other };
            return Ok(Stmt::AugAssign { target: parse_expr(&parts[0])?, op, value: parse_testlist(&parts[1])? });
        }
    }
    let parts = split_top(toks, "=");
    let annotated = split_top(&parts[0], ":");
    if annotated.len() == 2 {
        let target = parse_expr(&annotated[0])?;
        let value = if parts.len() > 1 { Some(parse_testlist(&parts[1])?) } else { None };
        return Ok(Stmt::AnnAssign { target, value });
    }
    if parts.len() == 1 {
        return Ok(Stmt::Expr { value: parse_testlist(&parts[0])? });
    }
    let mut targets = Vec::new();
    for part in &parts[..parts.len() - 1] {
        targets.push(parse_testlist(part)?);
    }
    Ok(Stmt::Assign { targets, value: parse_testlist(&parts[parts.len() - 1])? })
}

fn parse_testlist(toks: &[Tok]) -> Result<Expr, String> {
    let parts = split_top(toks, ",");
    if parts.len() == 1 {
        return parse_expr(&parts[0]);
    }
    let mut elts = Vec::new();
    for part in parts.iter().filter(|p| !p.is_empty()) {
        elts.push(parse_expr(part)?);
    }
    Ok(Expr::Tuple { elts })
}

fn parse_expr(toks: &[Tok]) -> Result<Expr, String> {
    if toks.is_empty() {
        return Err("invalid syntax".to_string());
    }
    let mut pos = 0;
    let e = parse_additive(toks, &mut pos)?;
    if pos != toks.len() {
        return Ok(Expr::Other);
    }
    Ok(e)
}

fn parse_additive(toks: &[Tok], pos: &mut usize) -> Result<Expr, String> {
    let mut left = parse_term(toks, pos)?;
    while *pos < toks.len() && (is_op(&toks[*pos], "+") || is_op(&toks[*pos], "-")) {
        let op = if is_op(&toks[*pos], "+") { Operator::Add } else { Operator::Other };
        *pos += 1;
        let right = parse_term(toks, pos)?;
        left = Expr::BinOp { left: Box::new(left), op, right: Box::new(right) };
    }
    Ok(left)
}

fn parse_term(toks: &[Tok], pos: &mut usize) -> Result<Expr, String> {
    let mut left = parse_unary(toks, pos)?;
    while *pos < toks.len() && ["/", "*", "//", "%"].iter().any(|o| is_op(&toks[*pos], o)) {
        let op = if is_op(&toks[*pos], "/") { Operator::Div } else { Operator::Other };
        *pos += 1;
        let right = parse_unary(toks, pos)?;
        left = Expr::BinOp { left: Box::new(left), op, right: Box::new(right) };
    }
    Ok(left)
}

fn parse_unary(toks: &[Tok], pos: &mut usize) -> Result<Expr, String> {
    if *pos < toks.len() && (is_op(&toks[*pos], "-") || is_op(&toks[*pos], "*") || is_op(&toks[*pos], "**")) {
        *pos += 1;
        parse_unary(toks, pos)?;
        return Ok(Expr::Other);
    }
    parse_postfix(toks, pos)
}

/// The tokens up to the bracket that closes the one at `open`.
fn enclosed(toks: &[Tok], open: usize) -> Result<(Vec<Tok>, usize), String> {
    let mut depth = 0;
    for k in open..toks.len() {
        if let Tok::Op(o) = &toks[k] {
            if o.len() == 1 && "([{".contains(o.as_str()) {
                depth += 1;
            }
            if o.len() == 1 && ")]}".contains(o.as_str()) {
                depth -= 1;
                if depth == 0 {
                    return Ok((toks[open + 1..k].to_vec(), k + 1));
                }
            }
        }
    }
    Err("unexpected EOF while parsing".to_string())
}

fn parse_postfix(toks: &[Tok], pos: &mut usize) -> Result<Expr, String> {
    let mut e = parse_atom(toks, pos)?;
    loop {
        if *pos >= toks.len() {
            return Ok(e);
        }
        if is_op(&toks[*pos], ".") {
            let attr = toks.get(*pos + 1).and_then(name_of).ok_or("invalid attribute")?.to_string();
            *pos += 2;
            e = Expr::Attribute { value: Box::new(e), attr };
        } else if is_op(&toks[*pos], "(") {
            let (inside, next) = enclosed(toks, *pos)?;
            *pos = next;
            let mut args = Vec::new();
            let mut keywords = Vec::new();
            for part in split_top(&inside, ",") {
                if part.is_empty() {
                    continue;
                }
                if part.len() > 2 && is_op(&part[1], "=") {
                    let arg = name_of(&part[0]).map(str::to_string);
                    keywords.push(Keyword { arg, value: parse_expr(&part[2..])? });
                } else if is_op(&part[0], "**") {
                    keywords.push(Keyword { arg: None, value: parse_expr(&part[1..])? });
                } else {
                    args.push(parse_expr(&part)?);
                }
            }
            e = Expr::Call { func: Box::new(e), args, keywords };
        } else if is_op(&toks[*pos], "[") {
            let (inside, next) = enclosed(toks, *pos)?;
            *pos = next;
            e = Expr::Subscript { value: Box::new(e), slice: Box::new(parse_testlist(&inside)?) };
        } else {
            return Ok(e);
        }
    }
}

fn parse_atom(toks: &[Tok], pos: &mut usize) -> Result<Expr, String> {
    let t = toks.get(*pos).ok_or("invalid syntax")?.clone();
    match t {
        Tok::Name(n) => {
            *pos += 1;
            Ok(match n.as_str() {
                "True" => Expr::BooleanLiteral { value: true },
                "False" => Expr::BooleanLiteral { value: false },
                "None" => Expr::Other,
                _ => Expr::Name { id: n },
            })
        }
        Tok::Str(s) => {
            let mut value = s;
            *pos += 1;
            while let Some(Tok::Str(more)) = toks.get(*pos) {
                value.push_str(more);
                *pos += 1;
            }
            Ok(Expr::StringLiteral { value })
        }
        Tok::Int(digits) => {
            *pos += 1;
            Ok(Expr::IntLiteral { value: digits.replace('_', "").parse::<usize>().ok() })
        }
        Tok::Opaque => {
            *pos += 1;
            Ok(Expr::Other)
        }
        Tok::Op(o) if o == "(" => {
            let (inside, next) = enclosed(toks, *pos)?;
            *pos = next;
            if inside.is_empty() {
                return Ok(Expr::Tuple { elts: Vec::new() });
            }
            parse_testlist(&inside)
        }
        Tok::Op(o) if o == "[" => {
            let (inside, next) = enclosed(toks, *pos)?;
            *pos = next;
            let mut elts = Vec::new();
            for part in split_top(&inside, ",") {
                if !part.is_empty() {
                    elts.push(parse_expr(&part)?);
                }
            }
            Ok(Expr::List { elts })
        }
        Tok::Op(o) if o == "{" => {
            let (inside, next) = enclosed(toks, *pos)?;
            *pos = next;
            let mut items = Vec::new();
            for part in split_top(&inside, ",") {
                if part.is_empty() {
                    continue;
                }
                if is_op(&part[0], "**") {
                    items.push(DictItem { key: None, value: parse_expr(&part[1..])? });
                    continue;
                }
                let kv = split_top(&part, ":");
                if kv.len() != 2 {
                    return Ok(Expr::Other);
                }
                items.push(DictItem { key: Some(parse_expr(&kv[0])?), value: parse_expr(&kv[1])? });
            }
            Ok(Expr::Dict { items })
        }
        _ => Err("invalid syntax".to_string()),
    }
}

// ---- a project on a virtual disk ----

fn at(rel: &str) -> String {
    format!("{ROOT}/{rel}")
}

struct Project {
    files: Vec<(String, String)>,
    extra_dirs: Vec<String>,
}

impl Project {
    fn new() -> Project {
        Project { files: Vec::new(), extra_dirs: Vec::new() }
    }

    fn write(&mut self, rel: &str, contents: &str) -> String {
        let path = at(rel);
        self.files.retain(|(p, _)| p != &path);
        self.files.push((path.clone(), contents.to_string()));
        path
    }

    fn mkdir(&mut self, rel: &str) {
        self.extra_dirs.push(at(rel));
    }

    fn files(&self) -> Vec<String> {
        self.files.iter().map(|(p, _)| p.clone()).collect()
    }

    fn dirs(&self) -> Vec<String> {
        let mut out: Vec<String> = Vec::new();
        let mut add = |dir: &str| {
            let mut current = String::new();
            for part in dir.split('/').filter(|p| !p.is_empty()) {
                current.push('/');
                current.push_str(part);
                if !out.contains(&current) {
                    out.push(current.clone());
                }
            }
        };
        add(ROOT);
        for (path, _) in &self.files {
            add(path.rsplit_once('/').unwrap().0);
        }
        for dir in &self.extra_dirs {
            add(dir);
        }
        out
    }

    fn sources(&self) -> Vec<(String, ModuleSource)> {
        self.files
            .iter()
            .filter(|(p, _)| p.ends_with(".py"))
            .map(|(p, text)| {
                let source = match parse_python(text) {
                    Ok(body) => ModuleSource::Parsed(body),
                    Err(message) => ModuleSource::Unparsable(message),
                };
                (p.clone(), source)
            })
            .collect()
    }

    fn search_paths_with_explicit(&self, explicit: &[&str]) -> Vec<ModuleSearchPathEntry> {
        let explicit: Vec<String> = explicit.iter().map(|s| s.to_string()).collect();
        discover_module_search_paths(ROOT, &explicit, &Vec::new(), &self.dirs()).value().cloned().unwrap()
    }

    fn search_paths(&self) -> Vec<ModuleSearchPathEntry> {
        self.search_paths_with_explicit(&[])
    }

    fn registry(&self, installed_apps: &Fact<Vec<String>>, search_paths: &Vec<ModuleSearchPathEntry>) -> AppRegistryFacts {
        resolve_app_registry(installed_apps, ROOT, search_paths, &self.files(), &self.dirs(), &self.sources())
    }

    fn settings(&self, file: &str) -> SettingsFacts {
        extract_settings_facts(file, &self.sources())
    }

    fn settings_module(&self, file: &str, module_name: &str) -> SettingsFacts {
        let scope = SettingsImportScope {
            project_root: ROOT.to_string(),
            search_paths: self.search_paths(),
            files: self.files(),
        };
        extract_settings_facts_for_module(file, &module(module_name), &scope, &self.sources())
    }

    /// The libraries of each app's `templatetags` directory, files in order.
    fn discover_template_tags(&self, apps: &Fact<Vec<AppFact>>) -> Fact<Vec<DiscoveredTemplateTags>> {
        let sources = self.sources();
        let dirs = self.dirs();
        let mut found = Vec::new();
        for app in apps.value().cloned().unwrap_or_default() {
            let dir = format!("{}/templatetags", app.path);
            if !dirs.contains(&dir) {
                continue;
            }
            let mut files: Vec<String> = self
                .files()
                .into_iter()
                .filter(|f| f.ends_with(".py") && f.rsplit_once('/').unwrap().0 == dir)
                .collect();
            files.sort();
            let mut reasons = Vec::new();
            let mut libraries = Vec::new();
            for file in files {
                let body = match sources.iter().find(|(p, _)| p == &file) {
                    Some((_, ModuleSource::Parsed(body))) => Ok(body),
                    _ => Err(Reason::file(Field::TemplateLibraries, &file, "failed to parse templatetag module")),
                };
                if let Some(library) = app_template_tag_library(&app.module, &dir, &file, body, &mut reasons) {
                    libraries.push(library);
                }
            }
            found.push(DiscoveredTemplateTags { libraries, reasons });
        }
        match apps {
            Fact::Partial { reasons, .. } => Fact::partial(found, reasons.clone()),
            _ => Fact::known(found),
        }
    }
}

fn module(name: &str) -> PyModuleName {
    PyModuleName::parse(name).unwrap()
}

fn apps(entries: &[&str]) -> Fact<Vec<String>> {
    Fact::known(entries.iter().map(|s| s.to_string()).collect())
}

fn known_vec<T: Clone + std::fmt::Debug>(fact: &Fact<Vec<T>>) -> Vec<T> {
    let Fact::Known { value } = fact else {
        panic!("expected known fact, got {fact:?}");
    };
    value.clone()
}

fn partial_vec<T: Clone + std::fmt::Debug>(fact: &Fact<Vec<T>>) -> (Vec<T>, Vec<Reason>) {
    let Fact::Partial { value, reasons } = fact else {
        panic!("expected partial fact, got {fact:?}");
    };
    (value.clone(), reasons.clone())
}

fn known_module(fact: &Fact<PyModuleName>) -> PyModuleName {
    let Fact::Known { value } = fact else {
        panic!("expected known module, got {fact:?}");
    };
    value.clone()
}

fn known_path(fact: &Fact<String>) -> String {
    let Fact::Known { value } = fact else {
        panic!("expected known path, got {fact:?}");
    };
    value.clone()
}

fn partial_module(fact: &Fact<PyModuleName>) -> (PyModuleName, Vec<Reason>) {
    let Fact::Partial { value, reasons } = fact else {
        panic!("expected partial module, got {fact:?}");
    };
    (value.clone(), reasons.clone())
}

fn unknown_reasons<T: std::fmt::Debug>(fact: &Fact<T>) -> Vec<Reason> {
    let Fact::Unknown { reasons } = fact else {
        panic!("expected unknown fact, got {fact:?}");
    };
    reasons.clone()
}

fn known_bool(fact: &Fact<bool>) -> bool {
    let Fact::Known { value } = fact else {
        panic!("expected known bool, got {fact:?}");
    };
    *value
}

fn dir_paths(dirs: &[TemplateDirFact]) -> Vec<String> {
    dirs.iter().map(|d| d.path.clone()).collect()
}

fn backend(dirs: Fact<Vec<TemplateDirFact>>, app_dirs: Fact<bool>) -> TemplateBackendFact {
    TemplateBackendFact {
        backend: Some(DJANGO.to_string()),
        dirs,
        app_dirs,
        option_libraries: Fact::known(Vec::new()),
        option_builtins: Fact::known(Vec::new()),
    }
}

fn loadable_map(fact: &Fact<Vec<TemplateLibraryFact>>) -> std::collections::BTreeMap<String, String> {
    fact.value()
        .unwrap()
        .iter()
        .filter(|l| {
            !matches!(l.source, TemplateLibrarySource::DjangoDefaultBuiltin | TemplateLibrarySource::SettingsBuiltins)
        })
        .map(|l| (l.load_name.as_str().to_string(), l.module.as_str().to_string()))
        .collect()
}

fn builtin_modules(fact: &Fact<Vec<TemplateLibraryFact>>) -> Vec<String> {
    fact.value()
        .unwrap()
        .iter()
        .filter(|l| {
            matches!(l.source, TemplateLibrarySource::DjangoDefaultBuiltin | TemplateLibrarySource::SettingsBuiltins)
        })
        .map(|l| l.module.as_str().to_string())
        .collect()
}

const BLOG_CONFIG: &str = r#"
from django.apps import AppConfig

class BlogConfig(AppConfig):
    name = "blog"
    label = "weblog"
"#;

fn blog_package(apps_py: Option<&str>) -> Project {
    let mut p = Project::new();
    p.write("blog/__init__.py", "");
    if let Some(text) = apps_py {
        p.write("blog/apps.py", text);
    }
    p
}

fn installed(facts: &AppRegistryFacts) -> Vec<InstalledAppFact> {
    known_vec(&facts.installed_apps)
}

// ---- the reader itself ----

#[test]
fn reads_classes_assignments_and_imports() {
    let body = parse_python(BLOG_CONFIG).unwrap();
    assert_eq!(body.len(), 2);
    assert!(matches!(&body[0], Stmt::ImportFrom { module: Some(m), level: 0, .. } if m == "django.apps"));
    let Stmt::ClassDef { name, bases, body } = &body[1] else { panic!("expected a class") };
    assert_eq!(name, "BlogConfig");
    assert!(matches!(&bases[0], Expr::Name { id } if id == "AppConfig"));
    assert_eq!(body.len(), 2);
    assert!(parse_python("INSTALLED_APPS = [\n").is_err());
}

// ---- the app registry ----

#[test]
fn resolves_direct_app_package_entries() {
    let p = blog_package(None);
    let facts = p.registry(&apps(&["blog"]), &p.search_paths());

    let installed_apps = installed(&facts);
    assert_eq!(installed_apps.len(), 1);
    assert_eq!(installed_apps[0].entry, "blog");
    assert_eq!(known_module(&installed_apps[0].module), module("blog"));
    assert_eq!(known_path(&installed_apps[0].path), at("blog"));
    assert!(installed_apps[0].config.is_none());

    let app_registry = known_vec(&facts.app_registry);
    assert_eq!(app_registry.len(), 1);
    assert_eq!(app_registry[0].module, module("blog"));
    assert_eq!(app_registry[0].path, at("blog"));
}

#[test]
fn does_not_use_default_app_config_for_module_file_entries() {
    let mut p = Project::new();
    p.write("blog.py", "");
    p.write("apps.py", "\nfrom django.apps import AppConfig\n\nclass BlogConfig(AppConfig):\n    name = \"blog\"\n");
    let facts = p.registry(&apps(&["blog"]), &p.search_paths());

    let installed_apps = installed(&facts);
    assert!(installed_apps[0].config.is_none());
    assert_eq!(known_path(&installed_apps[0].path), ROOT);
}

#[test]
fn uses_default_app_config_for_direct_package_entries() {
    let p = blog_package(Some(BLOG_CONFIG));
    let facts = p.registry(&apps(&["blog"]), &p.search_paths());

    let installed_apps = installed(&facts);
    let config = installed_apps[0].config.as_ref().unwrap();
    assert_eq!(config.module, module("blog.apps"));
    assert_eq!(config.class_name, "BlogConfig");
    assert_eq!(known_module(&config.name), module("blog"));
    assert_eq!(config.label.value().unwrap(), "weblog");

    let app_registry = known_vec(&facts.app_registry);
    assert_eq!(app_registry[0].module, module("blog"));
    assert!(app_registry[0].config.is_some());
}

#[test]
fn ignores_default_false_app_config_for_direct_package_entries() {
    let p = blog_package(Some(
        r#"
from django.apps import AppConfig

class BlogConfig(AppConfig):
    default = False
    name = "blog"
    label = "weblog"
"#,
    ));
    let facts = p.registry(&apps(&["blog"]), &p.search_paths());

    let installed_apps = installed(&facts);
    assert!(installed_apps[0].config.is_none());
    assert_eq!(known_module(&installed_apps[0].module), module("blog"));
}

#[test]
fn uses_explicit_default_app_config_for_direct_package_entries() {
    let p = blog_package(Some(
        r#"
from django.apps import AppConfig

class BlogConfig(AppConfig):
    name = "blog"

class BetterBlogConfig(AppConfig):
    default = True
    name = "blog"
    label = "better_blog"
"#,
    ));
    let facts = p.registry(&apps(&["blog"]), &p.search_paths());

    let installed_apps = installed(&facts);
    let config = installed_apps[0].config.as_ref().unwrap();
    assert_eq!(config.class_name, "BetterBlogConfig");
    assert_eq!(config.label.value().unwrap(), "better_blog");
}

#[test]
fn multiple_default_app_configs_without_default_true_keep_direct_package() {
    let p = blog_package(Some(
        r#"
from django.apps import AppConfig

class BlogConfig(AppConfig):
    name = "blog"

class OtherBlogConfig(AppConfig):
    name = "blog"
"#,
    ));
    let facts = p.registry(&apps(&["blog"]), &p.search_paths());

    let installed_apps = installed(&facts);
    assert!(installed_apps[0].config.is_none());
    assert_eq!(known_module(&installed_apps[0].module), module("blog"));
}

#[test]
fn multiple_default_true_app_configs_are_partial() {
    let p = blog_package(Some(
        r#"
from django.apps import AppConfig

class BlogConfig(AppConfig):
    default = True
    name = "blog"

class OtherBlogConfig(AppConfig):
    default = True
    name = "blog"
"#,
    ));
    let facts = p.registry(&apps(&["blog"]), &p.search_paths());

    let (installed_apps, reasons) = partial_vec(&facts.installed_apps);
    assert!(installed_apps[0].config.is_none());
    let (app_module, _) = partial_module(&installed_apps[0].module);
    assert_eq!(app_module, module("blog"));
    assert!(reasons.iter().any(|reason| reason.message.contains("more than one AppConfig")));
}

#[test]
fn selected_default_app_config_missing_name_is_unknown() {
    let p = blog_package(Some("\nfrom django.apps import AppConfig\n\nclass BlogConfig(AppConfig):\n    pass\n"));
    let facts = p.registry(&apps(&["blog"]), &p.search_paths());

    let (installed_apps, reasons) = partial_vec(&facts.installed_apps);
    assert!(installed_apps[0].config.is_some());
    assert!(matches!(installed_apps[0].module, Fact::Unknown { .. }));
    assert!(reasons.iter().any(|reason| reason.message.contains("AppConfig.name is not assigned")));
    let (app_registry, _) = partial_vec(&facts.app_registry);
    assert!(app_registry.is_empty());
}

const INDIRECT_CONFIG: &str = r#"
from django.apps import AppConfig

class BaseConfig(AppConfig):
    pass

class BlogConfig(BaseConfig):
    name = "blog"
"#;

#[test]
fn indirect_app_config_subclasses_match_django_default_selection() {
    let p = blog_package(Some(INDIRECT_CONFIG));
    let facts = p.registry(&apps(&["blog"]), &p.search_paths());

    let installed_apps = installed(&facts);
    assert!(installed_apps[0].config.is_none());
    assert_eq!(known_module(&installed_apps[0].module), module("blog"));
}

#[test]
fn explicit_indirect_app_config_entries_resolve() {
    let p = blog_package(Some(INDIRECT_CONFIG));
    let facts = p.registry(&apps(&["blog.apps.BlogConfig"]), &p.search_paths());

    let installed_apps = installed(&facts);
    let config = installed_apps[0].config.as_ref().unwrap();
    assert_eq!(config.class_name, "BlogConfig");
    assert_eq!(known_module(&installed_apps[0].module), module("blog"));
}

#[test]
fn resolves_app_config_entries() {
    let p = blog_package(Some(BLOG_CONFIG));
    let facts = p.registry(&apps(&["blog.apps.BlogConfig"]), &p.search_paths());

    let installed_apps = installed(&facts);
    assert_eq!(known_module(&installed_apps[0].module), module("blog"));
    assert_eq!(known_path(&installed_apps[0].path), at("blog"));
    let config = installed_apps[0].config.as_ref().unwrap();
    assert_eq!(config.module, module("blog.apps"));
    assert_eq!(config.class_name, "BlogConfig");
    assert_eq!(known_module(&config.name), module("blog"));
    assert_eq!(config.label.value().unwrap(), "weblog");
    assert_eq!(known_path(&config.path), at("blog"));

    let app_registry = known_vec(&facts.app_registry);
    assert_eq!(app_registry[0].module, module("blog"));
    assert!(app_registry[0].config.is_some());
}

#[test]
fn explicit_app_config_missing_name_is_unknown() {
    let p = blog_package(Some("\nfrom django.apps import AppConfig\n\nclass BlogConfig(AppConfig):\n    pass\n"));
    let facts = p.registry(&apps(&["blog.apps.BlogConfig"]), &p.search_paths());

    let (installed_apps, reasons) = partial_vec(&facts.installed_apps);
    assert_eq!(installed_apps.len(), 1);
    let module_reasons = unknown_reasons(&installed_apps[0].module);
    assert!(module_reasons[0].message.contains("AppConfig.name is not assigned"));
    let config = installed_apps[0].config.as_ref().unwrap();
    assert!(matches!(config.name, Fact::Unknown { .. }));
    assert!(matches!(config.label, Fact::Unknown { .. }));
    assert!(reasons.iter().any(|reason| reason.message.contains("AppConfig.name is not assigned")));

    let (app_registry, _) = partial_vec(&facts.app_registry);
    assert!(app_registry.is_empty());
}

#[test]
fn explicit_app_config_nonliteral_name_is_unknown() {
    let p = blog_package(Some(
        r#"
from django.apps import AppConfig

BLOG_NAME = "blog"

class BlogConfig(AppConfig):
    name = BLOG_NAME
"#,
    ));
    let facts = p.registry(&apps(&["blog.apps.BlogConfig"]), &p.search_paths());

    let (installed_apps, reasons) = partial_vec(&facts.installed_apps);
    let module_reasons = unknown_reasons(&installed_apps[0].module);
    assert!(module_reasons[0].message.contains("AppConfig.name must be a string literal"));
    assert!(reasons.iter().any(|reason| reason.message.contains("AppConfig.name must be a string literal")));

    let (app_registry, _) = partial_vec(&facts.app_registry);
    assert!(app_registry.is_empty());
}

#[test]
fn uses_existing_app_config_path_override() {
    let app_path = at("custom_blog_path");
    let mut p = blog_package(Some(&format!(
        "\nfrom django.apps import AppConfig\n\nclass BlogConfig(AppConfig):\n    name = \"blog\"\n    path = \"{app_path}\"\n"
    )));
    p.mkdir("custom_blog_path");
    let facts = p.registry(&apps(&["blog.apps.BlogConfig"]), &p.search_paths());

    let installed_apps = installed(&facts);
    assert_eq!(known_path(&installed_apps[0].path), app_path);
    assert_eq!(known_path(&installed_apps[0].config.as_ref().unwrap().path), app_path);
}

#[test]
fn falls_back_when_app_config_path_override_does_not_exist() {
    let p = blog_package(Some(
        "\nfrom django.apps import AppConfig\n\nclass BlogConfig(AppConfig):\n    name = \"blog\"\n    path = \"missing-blog-path\"\n",
    ));
    let facts = p.registry(&apps(&["blog.apps.BlogConfig"]), &p.search_paths());

    let (installed_apps, reasons) = partial_vec(&facts.installed_apps);
    assert_eq!(installed_apps[0].path.value().unwrap(), &at("blog"));
    assert!(reasons.iter().any(|reason| reason.message.contains("AppConfig.path does not exist")));

    let (app_registry, _) = partial_vec(&facts.app_registry);
    assert_eq!(app_registry[0].path, at("blog"));
}

#[test]
fn unresolved_entries_do_not_abort_the_registry() {
    let p = blog_package(None);
    let facts = p.registry(&apps(&["blog", "missing.app"]), &p.search_paths());

    let (installed_apps, reasons) = partial_vec(&facts.installed_apps);
    assert_eq!(installed_apps.len(), 2);
    assert!(matches!(installed_apps[1].module, Fact::Unknown { .. }));
    assert!(reasons.iter().any(|reason| matches!(&reason.source, ReasonSource::Module(_))));

    let (app_registry, reasons) = partial_vec(&facts.app_registry);
    assert_eq!(app_registry.len(), 1);
    assert_eq!(app_registry[0].module, module("blog"));
    assert!(reasons.iter().any(|reason| matches!(&reason.source, ReasonSource::Module(_))));
}

#[test]
fn ambiguous_direct_app_entries_are_partial() {
    let mut p = Project::new();
    p.write("shop/__init__.py", "");
    p.write("src/shop/__init__.py", "");
    let facts = p.registry(&apps(&["shop"]), &p.search_paths());

    let (installed_apps, reasons) = partial_vec(&facts.installed_apps);
    let (app_module, _) = partial_module(&installed_apps[0].module);
    assert_eq!(app_module, module("shop"));
    assert!(matches!(installed_apps[0].path, Fact::Ambiguous { .. }));
    assert!(reasons.iter().any(|reason| reason.message.contains("more than one module search path")));

    let (app_registry, _) = partial_vec(&facts.app_registry);
    assert!(app_registry.is_empty());
}

#[test]
fn uses_configured_source_roots_for_app_packages() {
    let mut p = Project::new();
    let source_root = at("backend/python/apps");
    p.write("backend/python/apps/catalog/__init__.py", "");

    let search_paths = p.search_paths_with_explicit(&["backend/python/apps"]);
    assert!(search_paths.iter().any(|search_path| {
        search_path.kind == ModuleSearchPathKind::ExplicitPythonPath && search_path.path == source_root
    }));

    let facts = p.registry(&apps(&["catalog"]), &search_paths);
    let app_registry = known_vec(&facts.app_registry);
    assert_eq!(app_registry[0].module, module("catalog"));
    assert_eq!(app_registry[0].path, format!("{source_root}/catalog"));
}

#[test]
fn rejects_app_config_entries_without_app_config_base() {
    let p = blog_package(Some("\nclass BlogConfig:\n    name = \"blog\"\n"));
    let facts = p.registry(&apps(&["blog.apps.BlogConfig"]), &p.search_paths());

    let (installed_apps, reasons) = partial_vec(&facts.installed_apps);
    assert!(matches!(installed_apps[0].module, Fact::Unknown { .. }));
    assert!(reasons.iter().any(|reason| reason.message.contains("does not inherit from AppConfig")));
}

#[test]
fn invalid_entries_and_unparsable_configs_are_reported() {
    let mut p = blog_package(Some("class BlogConfig(AppConfig:\n"));
    p.write("shop/__init__.py", "");
    let facts = p.registry(&apps(&["not a module", "blog.apps.BlogConfig", "shop.apps.ShopConfig"]), &p.search_paths());

    let (installed_apps, reasons) = partial_vec(&facts.installed_apps);
    assert_eq!(installed_apps.len(), 3);
    let invalid = unknown_reasons(&installed_apps[0].module);
    assert_eq!(invalid[0].field, Field::AppsInstalled);
    assert_eq!(invalid[0].message, "installed app entry is not a valid Python module path: `not a module` is not a valid name");
    let unparsable = unknown_reasons(&installed_apps[1].module);
    assert!(unparsable.last().unwrap().message.starts_with("failed to parse AppConfig module: "));
    assert_eq!(unparsable.last().unwrap().source, ReasonSource::File(at("blog/apps.py")));
    let missing = unknown_reasons(&installed_apps[2].module);
    assert_eq!(missing[0].message, "module `shop.apps.ShopConfig` was not found in module search paths");
    assert_eq!(missing[1].message, "module `shop.apps` was not found in module search paths");
    assert_eq!(reasons.len(), 1 + unparsable.len() + missing.len());
}

#[test]
fn unknown_installed_apps_leave_the_registry_unknown() {
    let p = blog_package(None);
    let reason = Reason::file(Field::SettingsInstalledApps, &at("settings.py"), "INSTALLED_APPS is not assigned");
    let facts = p.registry(&Fact::unknown(vec![reason.clone()]), &p.search_paths());
    assert_eq!(unknown_reasons(&facts.installed_apps), vec![reason.clone()]);
    assert_eq!(unknown_reasons(&facts.app_registry), vec![reason]);
}

// ---- settings files ----

#[test]
fn extracts_literal_installed_apps_and_templates() {
    let mut p = Project::new();
    let settings = p.write(
        "project/settings.py",
        r#"
from pathlib import Path

BASE_DIR = Path(__file__).resolve().parent.parent
INSTALLED_APPS = [
    "django.contrib.auth",
    "project.app",
]
TEMPLATES = [
    {
        "BACKEND": "django.template.backends.django.DjangoTemplates",
        "DIRS": [BASE_DIR / "templates", BASE_DIR.joinpath("more_templates")],
        "APP_DIRS": True,
        "OPTIONS": {
            "libraries": {
                "custom_tags": "project.templatetags.custom_tags",
            },
            "builtins": ["project.templatetags.builtins"],
        },
    }
]
"#,
    );

    let facts = p.settings(&settings);

    assert_eq!(known_vec(&facts.installed_apps), ["django.contrib.auth", "project.app"]);
    let backends = known_vec(&facts.template_backends);
    assert_eq!(backends.len(), 1);
    assert_eq!(backends[0].backend.as_deref(), Some("django.template.backends.django.DjangoTemplates"));
    assert!(known_bool(&backends[0].app_dirs));
    assert_eq!(dir_paths(&known_vec(&backends[0].dirs)), [at("templates"), at("more_templates")]);
    assert_eq!(known_vec(&backends[0].option_libraries)[0].load_name, LibraryName::parse("custom_tags").unwrap());
    assert_eq!(
        known_vec(&backends[0].option_builtins),
        [PyModuleName::parse("project.templatetags.builtins").unwrap()]
    );
}

#[test]
fn extracts_typed_settings_assignments() {
    let mut p = Project::new();
    let settings = p.write(
        "project/settings.py",
        "\nINSTALLED_APPS: list[str] = [\"django.contrib.auth\"]\nTEMPLATES: list[dict] = []\n",
    );

    let facts = p.settings(&settings);

    assert_eq!(known_vec(&facts.installed_apps), ["django.contrib.auth"]);
    assert!(known_vec(&facts.template_backends).is_empty());
}

#[test]
fn extracts_pathlib_parents_template_dirs() {
    let mut p = Project::new();
    let settings = p.write(
        "project/settings.py",
        r#"
from pathlib import Path

BASE_DIR = Path(__file__).resolve().parents[1]
INSTALLED_APPS = []
TEMPLATES = [{"DIRS": [BASE_DIR / "templates"]}]
"#,
    );

    let facts = p.settings(&settings);
    let backends = known_vec(&facts.template_backends);

    assert_eq!(known_vec(&backends[0].dirs)[0].path, at("templates"));
}

#[test]
fn extracts_pathlib_parents_zero_template_dirs() {
    let mut p = Project::new();
    let settings = p.write(
        "project/settings.py",
        r#"
from pathlib import Path

PROJECT_DIR = Path(__file__).resolve().parents[0]
INSTALLED_APPS = []
TEMPLATES = [{"DIRS": [PROJECT_DIR / "templates"]}]
"#,
    );

    let facts = p.settings(&settings);
    let backends = known_vec(&facts.template_backends);

    assert_eq!(known_vec(&backends[0].dirs)[0].path, at("project/templates"));
}

#[test]
fn marks_out_of_range_pathlib_parents_template_dirs_partial() {
    let mut p = Project::new();
    let settings = p.write(
        "project/settings.py",
        r#"
from pathlib import Path

BASE_DIR = Path(__file__).resolve().parents[100]
INSTALLED_APPS = []
TEMPLATES = [{"DIRS": [BASE_DIR / "templates"]}]
"#,
    );

    let facts = p.settings(&settings);
    let backends = known_vec(&facts.template_backends);
    let (dirs, reasons) = partial_vec(&backends[0].dirs);

    assert!(dirs.is_empty());
    assert!(reasons[0].message.contains("unsupported path expression"));
}

#[test]
fn marks_unreadable_settings_file_unknown() {
    let p = Project::new();
    let facts = p.settings(&at("project/missing.py"));

    let reasons = unknown_reasons(&facts.installed_apps);
    assert!(reasons[0].message.contains("failed to read settings file"));
    let reasons = unknown_reasons(&facts.template_backends);
    assert!(reasons[0].message.contains("failed to read settings file"));
}

#[test]
fn marks_parse_error_settings_file_unknown() {
    let mut p = Project::new();
    let settings = p.write("project/settings.py", "INSTALLED_APPS = [\n");

    let facts = p.settings(&settings);

    let reasons = unknown_reasons(&facts.installed_apps);
    assert!(reasons[0].message.contains("failed to parse settings file"));
    let reasons = unknown_reasons(&facts.template_backends);
    assert!(reasons[0].message.contains("failed to parse settings file"));
}

#[test]
fn extracts_settings_facts_from_resolved_settings_file() {
    let mut p = Project::new();
    p.write("project/__init__.py", "");
    p.write("project/settings.py", "\nINSTALLED_APPS = [\"project.app\"]\nTEMPLATES = [{\"DIRS\": [\"templates\"]}]\n");
    p.write("djls.toml", "django_settings_module = \"project.settings\"");

    let resolution = resolve_module(module("project.settings"), &p.search_paths(), ROOT, &p.files());
    let Fact::Known { value: django_settings } = &resolution.resolved else {
        panic!("expected resolved settings module, got {:?}", resolution.resolved);
    };

    let facts = p.settings(&django_settings.file);

    assert_eq!(known_vec(&facts.installed_apps), ["project.app"]);
    assert_eq!(known_vec(&facts.template_backends).len(), 1);
}

fn split_settings(base: &str, dev: &str) -> Project {
    let mut p = Project::new();
    p.write("project/__init__.py", "");
    p.write("project/settings/__init__.py", "");
    p.write("project/settings/base.py", base);
    p.write("project/settings/dev.py", dev);
    p
}

#[test]
fn extracts_split_settings_from_relative_star_import() {
    let p = split_settings(
        r#"
from pathlib import Path

BASE_DIR = Path(__file__).resolve().parents[2]
INSTALLED_APPS = ["project.base"]
TEMPLATES = [{"DIRS": [BASE_DIR / "templates"]}]
"#,
        "\nfrom .base import *\n",
    );

    let facts = p.settings_module(&at("project/settings/dev.py"), "project.settings.dev");

    assert_eq!(known_vec(&facts.installed_apps), ["project.base"]);
    let backends = known_vec(&facts.template_backends);
    assert_eq!(known_vec(&backends[0].dirs)[0].path, at("templates"));
    assert_eq!(facts.files_read, [at("project/settings/base.py"), at("project/settings/dev.py")]);
}

#[test]
fn leaf_settings_override_star_imported_settings() {
    let p = split_settings(
        "\nINSTALLED_APPS = [\"project.base\"]\nTEMPLATES = [{\"APP_DIRS\": True}]\n",
        "\nfrom .base import *\n\nINSTALLED_APPS = [\"project.dev\"]\n",
    );

    let facts = p.settings_module(&at("project/settings/dev.py"), "project.settings.dev");

    assert_eq!(known_vec(&facts.installed_apps), ["project.dev"]);
    assert!(known_bool(&known_vec(&facts.template_backends)[0].app_dirs));
}

#[test]
fn leaf_settings_mutate_star_imported_settings() {
    let p = split_settings(
        "\nINSTALLED_APPS = [\"project.base\"]\nTEMPLATES = []\n",
        "\nfrom .base import *\n\nINSTALLED_APPS += [\"project.dev\"]\nTEMPLATES.append({\"APP_DIRS\": True})\n",
    );

    let facts = p.settings_module(&at("project/settings/dev.py"), "project.settings.dev");

    assert_eq!(known_vec(&facts.installed_apps), ["project.base", "project.dev"]);
    assert!(known_bool(&known_vec(&facts.template_backends)[0].app_dirs));
}

#[test]
fn failed_star_import_preserves_leaf_values_as_partial() {
    let p = split_settings(
        "INSTALLED_APPS = [\n",
        "\nINSTALLED_APPS = [\"project.dev\"]\nTEMPLATES = []\nfrom .base import *\n",
    );

    let facts = p.settings_module(&at("project/settings/dev.py"), "project.settings.dev");
    let (apps, reasons) = partial_vec(&facts.installed_apps);

    assert_eq!(apps, ["project.dev"]);
    assert_eq!(reasons[0].field, Field::SettingsInstalledApps);
    assert!(reasons[0].message.contains("failed to parse settings file"));

    let (templates, reasons) = partial_vec(&facts.template_backends);
    assert!(templates.is_empty());
    assert_eq!(reasons[0].field, Field::SettingsTemplates);
    assert!(reasons[0].message.contains("failed to parse settings file"));
}

#[test]
fn star_imported_path_values_feed_leaf_settings() {
    let p = split_settings(
        "\nfrom pathlib import Path\n\nBASE_DIR = Path(__file__).resolve().parents[2]\nINSTALLED_APPS = []\n",
        "\nfrom .base import *\n\nTEMPLATES = [{\"DIRS\": [BASE_DIR / \"templates\"]}]\n",
    );

    let facts = p.settings_module(&at("project/settings/dev.py"), "project.settings.dev");
    let backends = known_vec(&facts.template_backends);

    assert_eq!(known_vec(&backends[0].dirs)[0].path, at("templates"));
}

#[test]
fn extracts_settings_facts_from_discovered_split_settings_file() {
    let mut p = split_settings("\nINSTALLED_APPS = [\"project.base\"]\nTEMPLATES = []\n", "\nfrom .base import *\n");
    p.write("djls.toml", "django_settings_module = \"project.settings.dev\"");

    let resolution = resolve_module(module("project.settings.dev"), &p.search_paths(), ROOT, &p.files());
    let Fact::Known { value: django_settings } = &resolution.resolved else {
        panic!("expected resolved settings module, got {:?}", resolution.resolved);
    };

    let facts = p.settings_module(&django_settings.file, django_settings.module.as_str());

    assert_eq!(known_vec(&facts.installed_apps), ["project.base"]);
}

#[test]
fn star_import_cycles_and_missing_modules_are_reported() {
    let p = split_settings("\nfrom .dev import *\nINSTALLED_APPS = [\"project.base\"]\n", "\nfrom .base import *\nfrom .missing import *\nTEMPLATES = []\n");

    let facts = p.settings_module(&at("project/settings/dev.py"), "project.settings.dev");

    let (apps, reasons) = partial_vec(&facts.installed_apps);
    assert_eq!(apps, ["project.base"]);
    assert_eq!(reasons[0].message, "cycle detected while following settings star imports");
    assert_eq!(reasons[1].message, "module `project.settings.missing` was not found in module search paths");
    let (_, reasons) = partial_vec(&facts.template_backends);
    assert_eq!(reasons[0].message, "cycle detected while following settings star imports");
    assert!(facts.files_read.contains(&at("project/settings/missing.py")));
    assert!(facts.files_read.contains(&at("project/settings/missing/__init__.py")));
}

#[test]
fn star_imports_are_not_followed_without_a_module() {
    let p = split_settings("\nINSTALLED_APPS = [\"project.base\"]\nTEMPLATES = []\n", "\nfrom .base import *\n");

    let facts = p.settings(&at("project/settings/dev.py"));

    assert!(matches!(facts.installed_apps, Fact::Unknown { .. }));
    assert_eq!(facts.files_read, [at("project/settings/dev.py")]);
}

#[test]
fn marks_unsupported_installed_apps_entries_partial() {
    let mut p = Project::new();
    let settings = p.write(
        "project/settings.py",
        "\nLOCAL_APPS = [\"project.app\"]\nINSTALLED_APPS = [\"django.contrib.auth\", *LOCAL_APPS]\nTEMPLATES = []\n",
    );

    let facts = p.settings(&settings);

    let (apps, reasons) = partial_vec(&facts.installed_apps);
    assert_eq!(apps, ["django.contrib.auth"]);
    assert_eq!(reasons[0].field, Field::SettingsInstalledApps);
    assert!(reasons[0].message.contains("non-string"));
}

#[test]
fn applies_installed_apps_list_mutations() {
    let mut p = Project::new();
    let settings = p.write(
        "project/settings.py",
        r#"
INSTALLED_APPS = ["django.contrib.auth"]
INSTALLED_APPS.append("project.appended")
INSTALLED_APPS.extend(["project.extended"])
INSTALLED_APPS += ["project.added"]
INSTALLED_APPS.insert(1, "project.inserted")
TEMPLATES = []
"#,
    );

    let facts = p.settings(&settings);

    assert_eq!(
        known_vec(&facts.installed_apps),
        ["django.contrib.auth", "project.inserted", "project.appended", "project.extended", "project.added"]
    );
}

#[test]
fn applies_template_backend_list_mutations() {
    let mut p = Project::new();
    let settings = p.write(
        "project/settings.py",
        r#"
INSTALLED_APPS = []
TEMPLATES = []
TEMPLATES.append({"APP_DIRS": True})
TEMPLATES += [{"DIRS": ["templates"]}]
TEMPLATES.insert(1, {"BACKEND": "django.template.backends.django.DjangoTemplates"})
"#,
    );

    let facts = p.settings(&settings);
    let backends = known_vec(&facts.template_backends);

    assert_eq!(backends.len(), 3);
    assert!(known_bool(&backends[0].app_dirs));
    assert_eq!(backends[1].backend.as_deref(), Some("django.template.backends.django.DjangoTemplates"));
    assert_eq!(known_vec(&backends[2].dirs)[0].path, "templates");
}

#[test]
fn marks_unsupported_settings_mutations_partial() {
    let mut p = Project::new();
    let settings = p.write(
        "project/settings.py",
        r#"
LOCAL_APPS = ["project.dynamic"]
INSTALLED_APPS = ["django.contrib.auth"]
INSTALLED_APPS.extend(LOCAL_APPS)
TEMPLATES = []
TEMPLATES.update({"APP_DIRS": True})
"#,
    );

    let facts = p.settings(&settings);

    let (apps, app_reasons) = partial_vec(&facts.installed_apps);
    assert_eq!(apps, ["django.contrib.auth"]);
    assert!(app_reasons[0].message.contains("literal list or tuple"));

    let (templates, template_reasons) = partial_vec(&facts.template_backends);
    assert!(templates.is_empty());
    assert!(template_reasons[0].message.contains("unsupported dynamic mutation"));
}

#[test]
fn extracts_os_path_join_template_dirs() {
    let mut p = Project::new();
    let settings = p.write(
        "project/settings.py",
        r#"
from pathlib import Path
import os

BASE_DIR = Path(__file__).resolve().parent.parent
INSTALLED_APPS = []
TEMPLATES = [{"DIRS": [os.path.join(BASE_DIR, "templates")]}]
"#,
    );

    let facts = p.settings(&settings);
    let backends = known_vec(&facts.template_backends);

    assert_eq!(known_vec(&backends[0].dirs)[0].path, at("templates"));
}

#[test]
fn extracts_os_path_dirname_and_concatenated_template_dirs() {
    let mut p = Project::new();
    let settings = p.write(
        "project/settings.py",
        r#"
import os

BASE_DIR = os.path.dirname(os.path.dirname(os.path.abspath(__file__)))
TEMPLATES_DIR = BASE_DIR + "/templates"
INSTALLED_APPS = []
TEMPLATES = [{"DIRS": [TEMPLATES_DIR, BASE_DIR + "/more_templates"]}]
"#,
    );

    let facts = p.settings(&settings);
    let backends = known_vec(&facts.template_backends);

    assert_eq!(dir_paths(&known_vec(&backends[0].dirs)), [at("templates"), at("more_templates")]);
}

#[test]
fn marks_os_path_abspath_relative_template_dirs_partial() {
    let mut p = Project::new();
    let settings = p.write(
        "project/settings.py",
        "\nimport os\n\nINSTALLED_APPS = []\nTEMPLATES = [{\"DIRS\": [os.path.abspath(\"templates\")]}]\n",
    );

    let facts = p.settings(&settings);
    let backends = known_vec(&facts.template_backends);
    let (dirs, reasons) = partial_vec(&backends[0].dirs);

    assert!(dirs.is_empty());
    assert!(reasons[0].message.contains("unsupported path expression"));
}

#[test]
fn extracts_os_pardir_normpath_template_dirs() {
    let mut p = Project::new();
    let settings = p.write(
        "project/conf/settings.py",
        r#"
import os

PROJECT_ROOT = os.path.normpath(os.path.join(os.path.dirname(__file__), os.pardir))
INSTALLED_APPS = []
TEMPLATES = [{"DIRS": [os.path.join(PROJECT_ROOT, "templates")]}]
"#,
    );

    let facts = p.settings(&settings);
    let backends = known_vec(&facts.template_backends);

    assert_eq!(known_vec(&backends[0].dirs)[0].path, at("project/templates"));
}

#[test]
fn extracts_os_path_pardir_template_dirs() {
    let mut p = Project::new();
    let settings = p.write(
        "project/conf/settings.py",
        r#"
import os

PROJECT_ROOT = os.path.normpath(os.path.join(os.path.dirname(__file__), os.path.pardir))
INSTALLED_APPS = []
TEMPLATES = [{"DIRS": [os.path.join(PROJECT_ROOT, "templates")]}]
"#,
    );

    let facts = p.settings(&settings);
    let backends = known_vec(&facts.template_backends);

    assert_eq!(known_vec(&backends[0].dirs)[0].path, at("project/templates"));
}

// ---- settings, apps and template directories together ----

#[test]
fn assembles_dirs_from_extracted_settings_and_resolved_apps() {
    let mut p = blog_package(None);
    p.mkdir("blog/templates");
    p.write(
        "settings.py",
        r#"
from pathlib import Path

BASE_DIR = Path(__file__).resolve().parent
INSTALLED_APPS = ["blog"]
TEMPLATES = [{
    "BACKEND": "django.template.backends.django.DjangoTemplates",
    "DIRS": [BASE_DIR / "templates"],
    "APP_DIRS": True,
}]
"#,
    );

    let settings = p.settings(&at("settings.py"));
    let app_registry = p.registry(&settings.installed_apps, &p.search_paths());
    let facts = assemble_template_dirs(&settings.template_backends, &app_registry.app_registry, &p.dirs());

    assert_eq!(dir_paths(&known_vec(&facts)), [at("templates"), at("blog/templates")]);
}

#[test]
fn uses_app_config_path_from_resolved_app_registry() {
    let mut p = blog_package(Some(
        "\nfrom django.apps import AppConfig\n\nclass BlogConfig(AppConfig):\n    name = \"blog\"\n    path = \"custom_blog\"\n",
    ));
    p.mkdir("custom_blog/templates");

    let app_registry = p.registry(&apps(&["blog.apps.BlogConfig"]), &p.search_paths());
    let facts = assemble_template_dirs(
        &Fact::known(vec![backend(Fact::known(Vec::new()), Fact::known(true))]),
        &app_registry.app_registry,
        &p.dirs(),
    );

    assert_eq!(dir_paths(&known_vec(&facts)), [at("custom_blog/templates")]);
}

#[test]
fn uses_source_root_app_paths_from_resolved_app_registry() {
    let mut p = Project::new();
    p.write("src/blog/__init__.py", "");
    p.mkdir("src/blog/templates");

    let app_registry = p.registry(&apps(&["blog"]), &p.search_paths());
    let facts = assemble_template_dirs(
        &Fact::known(vec![backend(Fact::known(Vec::new()), Fact::known(true))]),
        &app_registry.app_registry,
        &p.dirs(),
    );

    assert_eq!(dir_paths(&known_vec(&facts)), [at("src/blog/templates")]);
}

// ---- settings, apps and template libraries together ----

const TEMPLATE_LIBRARY: &str = "\nfrom django import template\n\nregister = template.Library()\n";

#[test]
fn assembles_libraries_from_extracted_settings_and_resolved_apps() {
    let mut p = blog_package(None);
    p.write("blog/templatetags/__init__.py", "");
    p.write("blog/templatetags/blog_tags.py", TEMPLATE_LIBRARY);
    p.write(
        "settings.py",
        r#"
INSTALLED_APPS = ["blog"]
TEMPLATES = [{
    "BACKEND": "django.template.backends.django.DjangoTemplates",
    "APP_DIRS": False,
    "OPTIONS": {
        "libraries": {"alias": "blog.templatetags.blog_tags"},
        "builtins": ["blog.templatetags.blog_tags"],
    },
}]
"#,
    );

    let settings = p.settings(&at("settings.py"));
    let app_registry = p.registry(&settings.installed_apps, &p.search_paths());
    let discovered = p.discover_template_tags(&app_registry.app_registry);
    let facts = assemble_template_libraries(&settings.template_backends, &discovered);

    let loadable = loadable_map(&facts);
    assert_eq!(loadable.get("blog_tags").map(String::as_str), Some("blog.templatetags.blog_tags"));
    assert_eq!(loadable.get("alias").map(String::as_str), Some("blog.templatetags.blog_tags"));
    assert_eq!(builtin_modules(&facts).last().map(String::as_str), Some("blog.templatetags.blog_tags"));
}

#[test]
fn uses_app_config_path_when_discovering_templatetags() {
    let mut p = blog_package(Some(
        "\nfrom django.apps import AppConfig\n\nclass BlogConfig(AppConfig):\n    name = \"blog\"\n    path = \"custom_blog\"\n",
    ));
    p.write("custom_blog/templatetags/custom_tags.py", TEMPLATE_LIBRARY);

    let app_registry = p.registry(&apps(&["blog.apps.BlogConfig"]), &p.search_paths());
    let discovered = p.discover_template_tags(&app_registry.app_registry);
    let facts = assemble_template_libraries(
        &Fact::known(vec![backend(Fact::known(Vec::new()), Fact::known(false))]),
        &discovered,
    );

    assert_eq!(loadable_map(&facts).get("custom_tags").map(String::as_str), Some("blog.templatetags.custom_tags"));
}
