//! Django environments: which settings module and file govern which part of
//! a project. Explicit environments come first, then settings files found by
//! glob patterns, then the project's single settings module.
use vstd::prelude::*;
use vstd::string::StrSliceExecFns;
use ignore::overrides::{Override, OverrideBuilder};

use crate::apps::{
    known_view, lookup_view, module_fact_view, partial_view, string_fact_view, unknown_view, FactView, LookupView,
};
use crate::facts::{
    duplicate_reasons, Confidence, Fact, Field, ModuleSearchPathEntry, Reason, ReasonSource, ReasonView,
    ResolvedModule, SourceView,
};
use crate::modules::{file_module_fact, module_name_for_file, resolution_view, resolve_module, trim, trimmed};
use crate::names::{is_dotted_name, PyModuleName};
use crate::paths::{
    file_name_of, is_absolute_path, joined, parent_of, path_eq, path_file_name, path_is_absolute, path_join,
    path_parent, same_path,
};
use crate::path_order::{sort_unique_paths, sorted_unique_paths};
use crate::text::{concat, str_eq, views};

verus! {

/// An explicitly configured environment: its root, and its settings module
/// when one is set.
pub struct DjangoEnvironmentConfig {
    pub root: String,
    pub django_settings_module: Option<String>,
}

/// A Django environment: the part of the project it governs, and its settings
/// module and file as far as they are known.
#[derive(Debug)]
pub struct DjangoEnvironmentResolution {
    pub root: String,
    pub django_settings_module: Fact<PyModuleName>,
    pub django_settings_file: Fact<String>,
}

/// An environment by views: root, settings module, settings file.
pub type EnvView = (Seq<char>, FactView, FactView);

pub open spec fn env_view(e: DjangoEnvironmentResolution) -> EnvView {
    (e.root@, module_fact_view(e.django_settings_module), string_fact_view(e.django_settings_file))
}

pub open spec fn env_views(v: Seq<DjangoEnvironmentResolution>) -> Seq<EnvView> {
    v.map_values(|e: DjangoEnvironmentResolution| env_view(e))
}

pub open spec fn environment_reason(root: Seq<char>, message: Seq<char>) -> ReasonView {
    ReasonView { field: Field::DjangoEnvironmentDiscovery, source: SourceView::DjangoEnvironmentRoot(root), message }
}

/// An environment rooted at `root` whose settings are unknown for `message`.
pub open spec fn invalid_env_view(root: Seq<char>, message: Seq<char>) -> EnvView {
    (
        root,
        unknown_view(seq![environment_reason(root, message)]),
        unknown_view(seq![environment_reason(root, message)]),
    )
}

fn invalid_environment(root: String, message: &str) -> (r: DjangoEnvironmentResolution)
    ensures
        env_view(r) == invalid_env_view(root@, message@),
{
    let reason = Reason::new(
        Field::DjangoEnvironmentDiscovery,
        ReasonSource::DjangoEnvironmentRoot(root.clone()),
        message.to_string(),
    );
    let r = DjangoEnvironmentResolution {
        root,
        django_settings_module: Fact::Unknown { reasons: vec![reason.duplicate()] },
        django_settings_file: Fact::Unknown { reasons: vec![reason] },
    };
    assert(env_view(r).1.2 =~= Seq::<Seq<char>>::empty());
    assert(env_view(r).2.2 =~= Seq::<Seq<char>>::empty());
    assert(env_view(r).1.3 =~= seq![environment_reason(root@, message@)]);
    assert(env_view(r).2.3 =~= seq![environment_reason(root@, message@)]);
    r
}

/// The root of a configured environment: an absolute root as it is, `.` as
/// the project root, any other under the project root.
pub open spec fn normalized_root(project_root: Seq<char>, root: Seq<char>) -> Seq<char> {
    if is_absolute_path(root) {
        root
    } else if root == "."@ {
        project_root
    } else {
        joined(project_root, root)
    }
}

pub fn normalize_environment_root(project_root: &str, root: &str) -> (r: String)
    ensures
        r@ == normalized_root(project_root@, root@),
{
    if path_is_absolute(root) {
        root.to_string()
    } else if str_eq(root, ".") {
        project_root.to_string()
    } else {
        path_join(project_root, root)
    }
}

/// The settings file fact a module lookup gives: the file found, or the
/// files found when there are several.
pub open spec fn lookup_file_view(l: LookupView) -> FactView {
    match l.0 {
        Confidence::Known => known_view(l.1[0]),
        Confidence::Partial => partial_view(l.1[0], l.2),
        Confidence::Unknown => unknown_view(l.2),
        Confidence::Ambiguous => (Confidence::Ambiguous, None, l.1, l.2),
    }
}

fn file_fact_from_resolution(resolution: &Fact<ResolvedModule>) -> (r: Fact<String>)
    ensures
        string_fact_view(r) == lookup_file_view(lookup_view(*resolution)),
{
    match resolution {
        Fact::Known { value } => {
            let r = Fact::Known { value: value.file.clone() };
            assert(string_fact_view(r).2 =~= Seq::<Seq<char>>::empty());
            assert(string_fact_view(r).3 =~= Seq::<ReasonView>::empty());
            r
        },
        Fact::Partial { value, reasons } => {
            let r = Fact::Partial { value: value.file.clone(), reasons: duplicate_reasons(reasons) };
            assert(string_fact_view(r).2 =~= Seq::<Seq<char>>::empty());
            r
        },
        Fact::Unknown { reasons } => {
            let r = Fact::Unknown { reasons: duplicate_reasons(reasons) };
            assert(string_fact_view(r).2 =~= Seq::<Seq<char>>::empty());
            r
        },
        Fact::Ambiguous { candidates, reasons } => {
            let ghost fs = candidates@.map_values(|m: ResolvedModule| m.file@);
            let mut out: Vec<String> = Vec::new();
            let mut i: usize = 0;
            while i < candidates.len()
                invariant
                    i <= candidates.len(),
                    fs == candidates@.map_values(|m: ResolvedModule| m.file@),
                    views(out@) == fs.take(i as int),
                decreases candidates.len() - i,
            {
                let ghost before = views(out@);
                out.push(candidates[i].file.clone());
                assert(fs[i as int] == candidates@[i as int].file@);
                assert(views(out@) =~= before.push(fs[i as int]));
                assert(views(out@) =~= fs.take(i + 1));
                i = i + 1;
            }
            assert(fs.take(i as int) =~= fs);
            let r = Fact::Ambiguous { candidates: out, reasons: duplicate_reasons(reasons) };
            assert(string_fact_view(r).2 =~= views(out@));
            r
        },
    }
}

/// The environment rooted at `root` with the settings module `module`: the
/// module must be a valid name; its file is what looking it up gives.
pub open spec fn module_env_view(
    root: Seq<char>,
    module: Seq<char>,
    search_paths: Seq<ModuleSearchPathEntry>,
    files: Seq<Seq<char>>,
) -> EnvView {
    if !is_dotted_name(module) {
        invalid_env_view(root, "django_settings_module is not a valid Python module path: "@ + module)
    } else {
        (root, known_view(module), lookup_file_view(resolution_view(module, search_paths, files)))
    }
}

fn environment_from_module(
    root: String,
    module: &str,
    project_root: &str,
    search_paths: &Vec<ModuleSearchPathEntry>,
    files: &Vec<String>,
) -> (r: DjangoEnvironmentResolution)
    ensures
        env_view(r) == module_env_view(root@, module@, search_paths@, views(files@)),
{
    let name = match PyModuleName::parse(module) {
        Ok(m) => m,
        Err(_) => {
            let message = concat("django_settings_module is not a valid Python module path: ", module);
            return invalid_environment(root, message.as_str());
        },
    };
    let resolution = resolve_module(name.duplicate(), search_paths, project_root, files);
    proof {
        crate::modules::lemma_resolution_view(name, search_paths@, project_root@, views(files@), resolution);
        assert(lookup_view(resolution.resolved) == crate::modules::resolved_view(resolution.resolved));
    }
    let file = file_fact_from_resolution(&resolution.resolved);
    let r = DjangoEnvironmentResolution { root, django_settings_module: Fact::Known { value: name }, django_settings_file: file };
    assert(env_view(r).1.2 =~= Seq::<Seq<char>>::empty());
    assert(env_view(r).1.3 =~= Seq::<ReasonView>::empty());
    r
}

/// Going up from `current`: the project root stops the search; a directory
/// named `settings` gives its parent (the project root when it has none);
/// otherwise the search goes on from the parent, ending at the project root.
pub open spec fn root_above(project_root: Seq<char>, current: Seq<char>) -> Seq<char>
    decreases current.len(),
{
    if same_path(current, project_root) {
        project_root
    } else if file_name_of(current) == Some("settings"@) {
        match parent_of(current) {
            Some(p) => p,
            None => project_root,
        }
    } else {
        match parent_of(current) {
            Some(next) => if next.len() < current.len() {
                root_above(project_root, next)
            } else {
                project_root
            },
            None => project_root,
        }
    }
}

/// The root of the environment a settings file found by a pattern governs:
/// the parent of the `settings` package it lies in, else the project root.
pub open spec fn inferred_root(project_root: Seq<char>, file: Seq<char>) -> Seq<char> {
    match parent_of(file) {
        Some(p) => root_above(project_root, p),
        None => project_root,
    }
}

pub fn infer_environment_root_from_settings_file(project_root: &str, file: &str) -> (r: String)
    ensures
        r@ == inferred_root(project_root@, file@),
{
    let mut current = match path_parent(file) {
        Some(p) => p,
        None => {
            return project_root.to_string();
        },
    };
    loop
        invariant
            root_above(project_root@, current@) == inferred_root(project_root@, file@),
        decreases current@.len(),
    {
        if path_eq(current.as_str(), project_root) {
            return project_root.to_string();
        }
        let is_settings = match path_file_name(current.as_str()) {
            Some(n) => str_eq(n.as_str(), "settings"),
            None => false,
        };
        if is_settings {
            return match path_parent(current.as_str()) {
                Some(p) => p,
                None => project_root.to_string(),
            };
        }
        match path_parent(current.as_str()) {
            Some(next) => {
                current = next;
            },
            None => {
                return project_root.to_string();
            },
        }
    }
}

/// `e` is the environment of the settings file `file` found by a pattern: its
/// root inferred from the file, its module the name the file stands for (see
/// [`file_module_fact`]), its file known.
pub open spec fn settings_file_env(
    project_root: Seq<char>,
    file: Seq<char>,
    search_paths: Seq<ModuleSearchPathEntry>,
    files: Seq<Seq<char>>,
    e: DjangoEnvironmentResolution,
) -> bool {
    &&& e.root@ == inferred_root(project_root, file)
    &&& file_module_fact(file, search_paths, files, e.django_settings_module)
    &&& e.django_settings_file matches Fact::Known { value } && value@ == file
}

fn environment_from_settings_file(
    project_root: &str,
    file: &str,
    search_paths: &Vec<ModuleSearchPathEntry>,
    files: &Vec<String>,
) -> (r: DjangoEnvironmentResolution)
    ensures
        settings_file_env(project_root@, file@, search_paths@, views(files@), r),
{
    DjangoEnvironmentResolution {
        root: infer_environment_root_from_settings_file(project_root, file),
        django_settings_module: module_name_for_file(file, search_paths, files),
        django_settings_file: Fact::Known { value: file.to_string() },
    }
}

/// The walked files that the matches select, in walk order.
pub open spec fn matched_walked(walked: Seq<Seq<char>>, matched: Seq<bool>) -> Seq<Seq<char>>
    decreases walked.len(),
{
    if walked.len() == 0 || matched.len() == 0 {
        Seq::empty()
    } else {
        let rest = matched_walked(walked.drop_last(), matched.drop_last());
        if matched.last() {
            rest.push(walked.last())
        } else {
            rest
        }
    }
}

/// The settings file of each environment found by a pattern.
pub open spec fn env_files(v: Seq<DjangoEnvironmentResolution>) -> Seq<Seq<char>> {
    v.map_values(
        |e: DjangoEnvironmentResolution|
            match e.django_settings_file {
                Fact::Known { value } => value@,
                _ => Seq::empty(),
            },
    )
}

/// The environments of the walked files that the patterns matched
/// (`matched[i]` for `walked[i]`): one per selected file, in path order,
/// each path once as it was first walked (see [`sorted_unique_paths`]).
pub open spec fn matched_envs(
    project_root: Seq<char>,
    walked: Seq<Seq<char>>,
    matched: Seq<bool>,
    search_paths: Seq<ModuleSearchPathEntry>,
    files: Seq<Seq<char>>,
    r: Seq<DjangoEnvironmentResolution>,
) -> bool {
    &&& sorted_unique_paths(matched_walked(walked, matched), env_files(r))
    &&& forall|i: int| 0 <= i < r.len() ==> settings_file_env(project_root, env_files(r)[i], search_paths, files, #[trigger] r[i])
}

/// The environments of the walked files that the patterns matched.
pub fn environments_from_matched_files(
    project_root: &str,
    walked: &Vec<String>,
    matched: &Vec<bool>,
    search_paths: &Vec<ModuleSearchPathEntry>,
    files: &Vec<String>,
) -> (r: Vec<DjangoEnvironmentResolution>)
    requires
        matched@.len() == walked@.len(),
    ensures
        matched_envs(project_root@, views(walked@), matched@, search_paths@, views(files@), r@),
{
    let mut chosen: Vec<String> = Vec::new();
    let mut i: usize = 0;
    assert(views(chosen@) =~= matched_walked(views(walked@).take(0), matched@.take(0)));
    while i < walked.len()
        invariant
            i <= walked.len(),
            matched@.len() == walked@.len(),
            views(chosen@) == matched_walked(views(walked@).take(i as int), matched@.take(i as int)),
        decreases walked.len() - i,
    {
        assert(views(walked@).take(i + 1).drop_last() =~= views(walked@).take(i as int));
        assert(matched@.take(i + 1).drop_last() =~= matched@.take(i as int));
        if matched[i] {
            let ghost before = views(chosen@);
            chosen.push(walked[i].clone());
            assert(views(chosen@) =~= before.push(walked@[i as int]@));
        }
        i = i + 1;
    }
    assert(views(walked@).take(i as int) =~= views(walked@));
    assert(matched@.take(i as int) =~= matched@);
    let selected = sort_unique_paths(&chosen);
    let mut out: Vec<DjangoEnvironmentResolution> = Vec::new();
    let mut j: usize = 0;
    while j < selected.len()
        invariant
            j <= selected.len(),
            out@.len() == j,
            env_files(out@) == views(selected@).take(j as int),
            forall|k: int|
                0 <= k < j ==> settings_file_env(project_root@, env_files(out@)[k], search_paths@, views(files@), #[trigger] out@[k]),
        decreases selected.len() - j,
    {
        let e = environment_from_settings_file(project_root, selected[j].as_str(), search_paths, files);
        let ghost before = out@;
        out.push(e);
        assert(env_files(out@) =~= views(selected@).take(j + 1));
        assert forall|k: int|
            0 <= k < j + 1 implies settings_file_env(project_root@, env_files(out@)[k], search_paths@, views(files@), #[trigger] out@[k]) by {
            if k < j {
                assert(out@[k] == before[k]);
                assert(env_files(out@)[k] == env_files(before)[k]);
            }
        }
        j = j + 1;
    }
    assert(views(selected@).take(j as int) =~= views(selected@));
    out
}

/// The `ignore` crate's builder of glob overrides, carried through unread.
#[verifier::external_type_specification]
#[verifier::external_body]
pub struct ExOverrideBuilder(ignore::overrides::OverrideBuilder);

/// The `ignore` crate's glob override matcher, carried through unread.
#[verifier::external_type_specification]
#[verifier::external_body]
pub struct ExOverride(ignore::overrides::Override);

/// The directory that the globs of an override builder are relative to.
pub uninterp spec fn builder_root(builder: OverrideBuilder) -> Seq<char>;

/// The globs added to an override builder so far, in order.
pub uninterp spec fn builder_globs(builder: OverrideBuilder) -> Seq<Seq<char>>;

/// The directory that the globs of an override matcher are relative to.
pub uninterp spec fn matcher_root(matcher: Override) -> Seq<char>;

/// The globs an override matcher was built from, in order.
pub uninterp spec fn matcher_globs(matcher: Override) -> Seq<Seq<char>>;

/// The text of the error `OverrideBuilder::add` gives for `glob`, `None`
/// where it accepts it.
pub uninterp spec fn glob_error(glob: Seq<char>) -> Option<Seq<char>>;

/// The text of the error `OverrideBuilder::build` gives for the globs
/// `globs`, `None` where it builds a matcher.
pub uninterp spec fn build_error(globs: Seq<Seq<char>>) -> Option<Seq<char>>;

/// Whether the matcher of `globs` rooted at `root` whitelists the file `path`.
pub uninterp spec fn whitelisted(root: Seq<char>, globs: Seq<Seq<char>>, path: Seq<char>) -> bool;

/// `OverrideBuilder::new`: a builder rooted at `root` that holds no glob yet.
#[verifier::external_body]
fn override_builder(root: &str) -> (r: OverrideBuilder)
    ensures
        builder_root(r) == root@,
        builder_globs(r) == Seq::<Seq<char>>::empty(),
{
    OverrideBuilder::new(root)
}

/// `OverrideBuilder::add`: adds a glob (one line of a gitignore file, with
/// `!` inverted) and holds it after the others; where the glob is refused
/// (see [`glob_error`]) it gives the error's text and leaves the builder as
/// it was.
#[verifier::external_body]
fn add_override_glob(builder: &mut OverrideBuilder, glob: &str) -> (r: Result<(), String>)
    ensures
        builder_root(*final(builder)) == builder_root(*old(builder)),
        match r {
            Ok(_) => glob_error(glob@) is None && builder_globs(*final(builder)) == builder_globs(
                *old(builder),
            ).push(glob@),
            Err(e) => glob_error(glob@) == Some(e@) && builder_globs(*final(builder)) == builder_globs(
                *old(builder),
            ),
        },
{
    match builder.add(glob) {
        Ok(_) => Ok(()),
        Err(error) => Err(error.to_string()),
    }
}

/// `OverrideBuilder::build`: the matcher of the globs added, with the
/// builder's root; where it cannot be built (see [`build_error`]) the
/// error's text.
#[verifier::external_body]
fn build_overrides(builder: &OverrideBuilder) -> (r: Result<Override, String>)
    ensures
        match r {
            Ok(m) => build_error(builder_globs(*builder)) is None && matcher_root(m) == builder_root(*builder)
                && matcher_globs(m) == builder_globs(*builder),
            Err(e) => build_error(builder_globs(*builder)) == Some(e@),
        },
{
    match builder.build() {
        Ok(matcher) => Ok(matcher),
        Err(error) => Err(error.to_string()),
    }
}

/// `Override::matched` on a file: whether the matcher whitelists it (see
/// [`whitelisted`]).
#[verifier::external_body]
fn override_whitelists(matcher: &Override, path: &str) -> (r: bool)
    ensures
        r == whitelisted(matcher_root(*matcher), matcher_globs(*matcher), path@),
{
    matcher.matched(path, false).is_whitelist()
}

/// The message for a pattern that is no valid glob.
pub open spec fn invalid_glob_message(pattern: Seq<char>, error: Seq<char>) -> Seq<char> {
    "django_settings_file_patterns contains invalid glob `"@ + pattern + "`: "@ + error
}

/// The message for a matcher that could not be built.
pub open spec fn matcher_error_message(error: Seq<char>) -> Seq<char> {
    "failed to build django_settings_file_patterns matcher: "@ + error
}

/// The patterns, each trimmed.
pub open spec fn trimmed_patterns(patterns: Seq<String>) -> Seq<Seq<char>> {
    patterns.map_values(|p: String| trimmed(p@))
}

/// The first glob that is refused, with its error's text.
pub open spec fn first_glob_error(globs: Seq<Seq<char>>) -> Option<(Seq<char>, Seq<char>)>
    decreases globs.len(),
{
    if globs.len() == 0 {
        None
    } else {
        match glob_error(globs[0]) {
            Some(e) => Some((globs[0], e)),
            None => first_glob_error(globs.drop_first()),
        }
    }
}

/// Why the patterns cannot be used: the first refused glob, else the
/// matcher that cannot be built; `None` when they can.
pub open spec fn patterns_problem(globs: Seq<Seq<char>>) -> Option<Seq<char>> {
    match first_glob_error(globs) {
        Some((g, e)) => Some(invalid_glob_message(g, e)),
        None => match build_error(globs) {
            Some(e) => Some(matcher_error_message(e)),
            None => None,
        },
    }
}

/// For each walked file, whether the globs rooted at `root` whitelist it.
pub open spec fn whitelist_of(root: Seq<char>, globs: Seq<Seq<char>>, walked: Seq<Seq<char>>) -> Seq<bool> {
    Seq::new(walked.len(), |j: int| whitelisted(root, globs, walked[j]))
}

/// Which walked files the settings file patterns (each trimmed) match, as the
/// `ignore` crate's overrides rooted at the project root decide; or why they
/// could not be used (see [`patterns_problem`]).
pub fn settings_file_pattern_matches(
    project_root: &str,
    patterns: &Vec<String>,
    walked: &Vec<String>,
) -> (r: Result<Vec<bool>, String>)
    ensures
        match patterns_problem(trimmed_patterns(patterns@)) {
            Some(message) => r matches Err(m) && m@ == message,
            None => r matches Ok(m) && m@ == whitelist_of(
                project_root@,
                trimmed_patterns(patterns@),
                views(walked@),
            ),
        },
{
    let ghost globs = trimmed_patterns(patterns@);
    let mut builder = override_builder(project_root);
    let mut i: usize = 0;
    assert(globs.take(0) =~= Seq::<Seq<char>>::empty());
    assert(globs.skip(0) =~= globs);
    while i < patterns.len()
        invariant
            i <= patterns.len(),
            globs == trimmed_patterns(patterns@),
            builder_root(builder) == project_root@,
            builder_globs(builder) == globs.take(i as int),
            first_glob_error(globs) == first_glob_error(globs.skip(i as int)),
        decreases patterns.len() - i,
    {
        let pattern = trim(patterns[i].as_str());
        assert(globs.skip(i as int)[0] == globs[i as int]);
        assert(globs.skip(i as int).drop_first() =~= globs.skip(i + 1));
        match add_override_glob(&mut builder, pattern.as_str()) {
            Ok(()) => {
                assert(globs.take(i + 1) =~= globs.take(i as int).push(pattern@));
            },
            Err(error) => {
                let head = concat("django_settings_file_patterns contains invalid glob `", pattern.as_str());
                let head = concat(head.as_str(), "`: ");
                let message = concat(head.as_str(), error.as_str());
                assert(message@ == invalid_glob_message(globs[i as int], error@));
                return Err(message);
            },
        }
        i = i + 1;
    }
    assert(globs.take(i as int) =~= globs);
    assert(globs.skip(i as int) =~= Seq::<Seq<char>>::empty());
    let matcher = match build_overrides(&builder) {
        Ok(m) => m,
        Err(error) => {
            let message = concat("failed to build django_settings_file_patterns matcher: ", error.as_str());
            assert(message@ == matcher_error_message(error@));
            return Err(message);
        },
    };
    let ghost w = whitelist_of(project_root@, globs, views(walked@));
    let mut matched: Vec<bool> = Vec::new();
    let mut j: usize = 0;
    while j < walked.len()
        invariant
            j <= walked.len(),
            matcher_root(matcher) == project_root@,
            matcher_globs(matcher) == globs,
            w == whitelist_of(project_root@, globs, views(walked@)),
            matched@ == w.take(j as int),
        decreases walked.len() - j,
    {
        let b = override_whitelists(&matcher, walked[j].as_str());
        matched.push(b);
        assert(matched@ =~= w.take(j + 1));
        j = j + 1;
    }
    assert(matched@ =~= w);
    Ok(matched)
}

/// The environments that the settings file patterns select among the walked
/// files (see [`matched_envs`], with what the glob matcher decides), or one
/// environment at the project root that says why the patterns could not be
/// used.
pub open spec fn pattern_envs(
    project_root: Seq<char>,
    patterns: Seq<String>,
    walked: Seq<Seq<char>>,
    search_paths: Seq<ModuleSearchPathEntry>,
    files: Seq<Seq<char>>,
    r: Seq<DjangoEnvironmentResolution>,
) -> bool {
    let globs = trimmed_patterns(patterns);
    match patterns_problem(globs) {
        Some(message) => r.len() == 1 && env_view(r[0]) == invalid_env_view(project_root, message),
        None => matched_envs(
            project_root,
            walked,
            whitelist_of(project_root, globs, walked),
            search_paths,
            files,
            r,
        ),
    }
}

pub fn environments_from_settings_file_patterns(
    project_root: &str,
    patterns: &Vec<String>,
    walked: &Vec<String>,
    search_paths: &Vec<ModuleSearchPathEntry>,
    files: &Vec<String>,
) -> (r: Vec<DjangoEnvironmentResolution>)
    ensures
        pattern_envs(project_root@, patterns@, views(walked@), search_paths@, views(files@), r@),
{
    match settings_file_pattern_matches(project_root, patterns, walked) {
        Ok(matched) => environments_from_matched_files(project_root, walked, &matched, search_paths, files),
        Err(message) => {
            let e = invalid_environment(project_root.to_string(), message.as_str());
            vec![e]
        },
    }
}

/// The environment an explicit configuration gives: rooted at its
/// normalized root, with its settings module, which must be set.
pub open spec fn configured_env_view(
    project_root: Seq<char>,
    config: DjangoEnvironmentConfig,
    search_paths: Seq<ModuleSearchPathEntry>,
    files: Seq<Seq<char>>,
) -> EnvView {
    let root = normalized_root(project_root, config.root@);
    match config.django_settings_module {
        Some(m) => module_env_view(root, m@, search_paths, files),
        None => invalid_env_view(root, "Django environment must set django_settings_module"@),
    }
}

/// The Django environments of a project. Explicit environments, when there
/// are any, give one environment each, in order (see
/// [`configured_env_view`]); else settings file patterns, when there are any,
/// select the environments (see [`pattern_envs`]; `walked` are the files of
/// the project walk); else the project's settings module, when it has one,
/// gives the one environment at the project root; otherwise there is none.
pub fn discover_django_environments(
    project_root: &str,
    environments: &Vec<DjangoEnvironmentConfig>,
    patterns: &Vec<String>,
    settings_module: Option<&str>,
    walked: &Vec<String>,
    search_paths: &Vec<ModuleSearchPathEntry>,
    files: &Vec<String>,
) -> (r: Vec<DjangoEnvironmentResolution>)
    ensures
        environments@.len() > 0 ==> env_views(r@) == environments@.map_values(
            |c: DjangoEnvironmentConfig| configured_env_view(project_root@, c, search_paths@, views(files@)),
        ),
        environments@.len() == 0 && patterns@.len() > 0 ==> pattern_envs(
            project_root@,
            patterns@,
            views(walked@),
            search_paths@,
            views(files@),
            r@,
        ),
        environments@.len() == 0 && patterns@.len() == 0 ==> match settings_module {
            Some(m) => env_views(r@) == seq![module_env_view(project_root@, m@, search_paths@, views(files@))],
            None => r@.len() == 0,
        },
{
    if environments.len() > 0 {
        let ghost expected = environments@.map_values(
            |c: DjangoEnvironmentConfig| configured_env_view(project_root@, c, search_paths@, views(files@)),
        );
        let mut out: Vec<DjangoEnvironmentResolution> = Vec::new();
        let mut i: usize = 0;
        while i < environments.len()
            invariant
                i <= environments.len(),
                expected == environments@.map_values(
                    |c: DjangoEnvironmentConfig| configured_env_view(project_root@, c, search_paths@, views(files@)),
                ),
                env_views(out@) == expected.take(i as int),
            decreases environments.len() - i,
        {
            let config = &environments[i];
            let root = normalize_environment_root(project_root, config.root.as_str());
            let e = match &config.django_settings_module {
                Some(m) => environment_from_module(root, m.as_str(), project_root, search_paths, files),
                None => invalid_environment(root, "Django environment must set django_settings_module"),
            };
            let ghost before = env_views(out@);
            out.push(e);
            assert(env_views(out@) =~= before.push(env_view(e)));
            assert(expected.take(i + 1) =~= expected.take(i as int).push(expected[i as int]));
            i = i + 1;
        }
        assert(expected.take(i as int) =~= expected);
        return out;
    }
    if patterns.len() > 0 {
        return environments_from_settings_file_patterns(project_root, patterns, walked, search_paths, files);
    }
    match settings_module {
        Some(m) => {
            let e = environment_from_module(project_root.to_string(), m, project_root, search_paths, files);
            let r = vec![e];
            assert(env_views(r@) =~= seq![env_view(e)]);
            r
        },
        None => Vec::new(),
    }
}

} // verus!
