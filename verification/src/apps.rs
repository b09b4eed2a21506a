//! The app registry: what each `INSTALLED_APPS` entry names, read from the
//! project's Python sources without running them. An entry is imported as a
//! module first; failing that, its last segment is taken as an `AppConfig`
//! class of the module before it. `AppConfig` classes give the app's `name`,
//! `label` and `path` when they assign string literals.
use vstd::prelude::*;
use vstd::string::StrSliceExecFns;

use crate::facts::{
    add_reasons, duplicate_reasons, reason_views, AppConfigFact, AppFact, Confidence, Fact, Field,
    InstalledAppFact, ModuleResolution, ModuleSearchPathEntry, Reason, ReasonSource, ReasonView, ResolvedModule,
    SourceView,
};
use crate::libraries::basename;
use crate::modules::resolve_module;
use crate::names::{is_dotted_name, name_error_message, PyModuleName};
use crate::paths::{is_absolute_path, joined, opt_view, parent_of, path_is_absolute, path_join, path_parent};
use crate::pyast::{find_source, source_of, Expr, ModuleSource, Stmt};
use crate::registry::first_occurrences;
use crate::template_dirs::{extend_unique_reasons, with_unique};
use crate::settings::{assigned_value, assigned_value_spec, string_literal, string_literal_spec};
use crate::text::{concat, contains_str, str_eq, views};

verus! {

broadcast use vstd::seq::Seq::group_seq_extra;

// ---- AppConfig classes ----

/// The name a base class expression gives: a name, or an attribute's last part.
pub open spec fn base_name(e: Expr) -> Option<Seq<char>> {
    match e {
        Expr::Name { id } => Some(id@),
        Expr::Attribute { attr, .. } => Some(attr@),
        _ => None,
    }
}

fn base_class_name(e: &Expr) -> (r: Option<&str>)
    ensures
        match r {
            Some(n) => base_name(*e) == Some(n@),
            None => base_name(*e) is None,
        },
{
    match e {
        Expr::Name { id } => Some(id.as_str()),
        Expr::Attribute { attr, .. } => Some(attr.as_str()),
        _ => None,
    }
}

/// The statement is a class named `n`.
pub open spec fn class_named(s: Stmt, n: Seq<char>) -> bool {
    s matches Stmt::ClassDef { name, .. } && name@ == n
}

/// One of the bases of the class statement `s` names `x`.
pub open spec fn has_base(s: Stmt, x: Seq<char>) -> bool {
    s matches Stmt::ClassDef { bases, .. } && exists|j: int| 0 <= j < bases@.len() && base_name(#[trigger] bases@[j]) == Some(x)
}

/// A class named `n` in `body` derives from `AppConfig` in at most `depth`
/// steps through the classes of `body`.
pub open spec fn inherits_config(body: Seq<Stmt>, n: Seq<char>, depth: nat) -> bool
    decreases depth,
{
    depth > 0 && exists|i: int, x: Seq<char>|
        0 <= i < body.len() && class_named(#[trigger] body[i], n) && #[trigger] has_base(body[i], x) && (x == "AppConfig"@
            || inherits_config(body, x, (depth - 1) as nat))
}

/// A class named `n` in `body` derives from `AppConfig`, directly or through
/// other classes of `body`.
pub open spec fn is_config_class(body: Seq<Stmt>, n: Seq<char>) -> bool {
    exists|d: nat| #[trigger] inherits_config(body, n, d)
}

proof fn lemma_inherits_monotone(body: Seq<Stmt>, n: Seq<char>, d: nat, e: nat)
    requires
        inherits_config(body, n, d),
        d <= e,
    ensures
        inherits_config(body, n, e),
    decreases d,
{
    let (i, x) = choose|i: int, x: Seq<char>|
        0 <= i < body.len() && class_named(#[trigger] body[i], n) && #[trigger] has_base(body[i], x) && (x
            == "AppConfig"@ || inherits_config(body, x, (d - 1) as nat));
    if x != "AppConfig"@ {
        lemma_inherits_monotone(body, x, (d - 1) as nat, (e - 1) as nat);
    }
    assert(0 <= i < body.len() && class_named(body[i], n) && has_base(body[i], x) && (x == "AppConfig"@
        || inherits_config(body, x, (e - 1) as nat)));
}

/// When every class with a base in `names` (or `AppConfig`) is named in
/// `names`, every class that derives from `AppConfig` is.
proof fn lemma_closed_names(body: Seq<Stmt>, names: Seq<Seq<char>>, n: Seq<char>, d: nat)
    requires
        forall|i: int, x: Seq<char>|
            0 <= i < body.len() && #[trigger] has_base(body[i], x) && (x == "AppConfig"@ || names.contains(x)) ==> (
            body[i] matches Stmt::ClassDef { name, .. } && names.contains(name@)),
        inherits_config(body, n, d),
    ensures
        names.contains(n),
    decreases d,
{
    let (i, x) = choose|i: int, x: Seq<char>|
        0 <= i < body.len() && class_named(#[trigger] body[i], n) && #[trigger] has_base(body[i], x) && (x
            == "AppConfig"@ || inherits_config(body, x, (d - 1) as nat));
    if x != "AppConfig"@ {
        lemma_closed_names(body, names, x, (d - 1) as nat);
    }
}

/// The base names `AppConfig` or one of `names`.
pub open spec fn config_base(e: Expr, names: Seq<Seq<char>>) -> bool {
    match base_name(e) {
        Some(x) => x == "AppConfig"@ || names.contains(x),
        None => false,
    }
}

/// Whether some base of the class statement names `AppConfig` or one of `names`.
fn has_config_base(bases: &Vec<Expr>, names: &Vec<String>) -> (r: bool)
    ensures
        r == exists|j: int| 0 <= j < bases@.len() && config_base(#[trigger] bases@[j], views(names@)),
{
    let mut j: usize = 0;
    while j < bases.len()
        invariant
            j <= bases.len(),
            forall|k: int| 0 <= k < j ==> !config_base(#[trigger] bases@[k], views(names@)),
        decreases bases.len() - j,
    {
        match base_class_name(&bases[j]) {
            Some(b) => {
                if str_eq(b, "AppConfig") || contains_str(names, b) {
                    return true;
                }
            },
            None => {},
        }
        j = j + 1;
    }
    false
}

/// The names of the classes of `body` that derive from `AppConfig`, directly
/// or through other classes of `body`, each once.
pub fn app_config_class_names(body: &Vec<Stmt>) -> (r: Vec<String>)
    ensures
        views(r@).no_duplicates(),
        forall|n: Seq<char>| views(r@).contains(n) <==> is_config_class(body@, n),
{
    let ghost b = body@;
    let ghost class_names = Seq::new(body@.len(), |i: int| match body@[i] {
        Stmt::ClassDef { name, .. } => name@,
        _ => "AppConfig"@,
    });
    let mut names: Vec<String> = Vec::new();
    assert(views(names@) =~= Seq::<Seq<char>>::empty());
    loop
        invariant
            b == body@,
            class_names.len() == b.len(),
            forall|k: int| 0 <= k < b.len() ==> (#[trigger] b[k] matches Stmt::ClassDef { name, .. } ==> class_names[k] == name@),
            views(names@).no_duplicates(),
            forall|k: int| 0 <= k < names@.len() ==> is_config_class(b, #[trigger] views(names@)[k]),
            forall|k: int| 0 <= k < names@.len() ==> class_names.contains(#[trigger] views(names@)[k]),
            names@.len() <= body@.len(),
        ensures
            views(names@).no_duplicates(),
            forall|n: Seq<char>| views(names@).contains(n) <==> is_config_class(b, n),
        decreases body@.len() - names@.len(),
    {
        let before_len = names.len();
        let ghost start = views(names@);
        let mut i: usize = 0;
        while i < body.len()
            invariant
                b == body@,
                class_names.len() == b.len(),
                forall|k: int| 0 <= k < b.len() ==> (#[trigger] b[k] matches Stmt::ClassDef { name, .. } ==> class_names[k] == name@),
                i <= body.len(),
                views(names@).no_duplicates(),
                forall|k: int| 0 <= k < names@.len() ==> is_config_class(b, #[trigger] views(names@)[k]),
                forall|k: int| 0 <= k < names@.len() ==> class_names.contains(#[trigger] views(names@)[k]),
                forall|n: Seq<char>| start.contains(n) ==> views(names@).contains(n),
                names@.len() >= before_len,
                before_len == start.len(),
                views(names@).take(before_len as int) == start,
                forall|k: int, x: Seq<char>|
                    0 <= k < i && #[trigger] has_base(b[k], x) && (x == "AppConfig"@ || start.contains(x)) ==> (
                    b[k] matches Stmt::ClassDef { name, .. } && views(names@).contains(name@)),
            decreases body.len() - i,
        {
            match &body[i] {
                Stmt::ClassDef { name, bases, .. } => {
                    let ghost pre = views(names@);
                    let derives = has_config_base(bases, &names);
                    if derives {
                        if !contains_str(&names, name.as_str()) {
                            proof {
                                let j = choose|j: int| 0 <= j < bases@.len() && config_base(#[trigger] bases@[j], pre);
                                let x = base_name(bases@[j]).unwrap();
                                assert(has_base(b[i as int], x));
                                if x == "AppConfig"@ {
                                    assert(inherits_config(b, name@, 1));
                                } else {
                                    let k = choose|k: int| 0 <= k < pre.len() && pre[k] == x;
                                    assert(is_config_class(b, pre[k]));
                                    let d = choose|d: nat| #[trigger] inherits_config(b, x, d);
                                    assert(inherits_config(b, name@, d + 1));
                                }
                                assert(class_names[i as int] == name@);
                            }
                            names.push(name.clone());
                            assert(views(names@) =~= pre.push(name@));
                        }
                    }
                    proof {
                        assert forall|n: Seq<char>| pre.contains(n) implies views(names@).contains(n) by {
                            let k = choose|k: int| 0 <= k < pre.len() && pre[k] == n;
                            assert(views(names@)[k] == n);
                        }
                        if derives {
                            if pre.contains(name@) {
                            } else {
                                assert(views(names@)[pre.len() as int] == name@);
                            }
                        }
                        assert forall|k: int, x: Seq<char>|
                            0 <= k < i + 1 && #[trigger] has_base(b[k], x) && (x == "AppConfig"@ || start.contains(x))
                            implies (b[k] matches Stmt::ClassDef { name, .. } && views(names@).contains(name@)) by {
                            if k == i {
                                let j = choose|j: int| 0 <= j < bases@.len() && base_name(#[trigger] bases@[j]) == Some(x);
                                assert(base_name(bases@[j]) == Some(x));
                                if x != "AppConfig"@ {
                                    assert(pre.contains(x));
                                }
                                assert(config_base(bases@[j], pre));
                            }
                        }
                    }
                },
                _ => {},
            }
            i = i + 1;
        }
        proof {
            views(names@).unique_seq_to_set();
            class_names.lemma_cardinality_of_set();
            assert(views(names@).to_set().subset_of(class_names.to_set()));
            vstd::set_lib::lemma_len_subset(views(names@).to_set(), class_names.to_set());
        }
        if names.len() == before_len {
            proof {
                assert(views(names@) =~= start);
                assert(i == body.len());
                assert forall|k: int, x: Seq<char>|
                    0 <= k < b.len() && #[trigger] has_base(b[k], x) && (x == "AppConfig"@ || views(names@).contains(x))
                    implies (b[k] matches Stmt::ClassDef { name, .. } && views(names@).contains(name@)) by {
                    assert(start.contains(x) || x == "AppConfig"@);
                }
                assert forall|n: Seq<char>| views(names@).contains(n) <==> is_config_class(b, n) by {
                    if is_config_class(b, n) {
                        let d = choose|d: nat| #[trigger] inherits_config(b, n, d);
                        lemma_closed_names(b, views(names@), n, d);
                    }
                    if views(names@).contains(n) {
                        let k = choose|k: int| 0 <= k < views(names@).len() && views(names@)[k] == n;
                        assert(is_config_class(b, views(names@)[k]));
                    }
                }
            }
            break;
        }
    }
    names
}

/// The value last assigned to `target` among `body`'s statements.
pub open spec fn last_assigned(body: Seq<Stmt>, target: Seq<char>) -> Option<Expr>
    decreases body.len(),
{
    if body.len() == 0 {
        None
    } else {
        match assigned_value_spec(&body.last(), target) {
            Some(e) => Some(*e),
            None => last_assigned(body.drop_last(), target),
        }
    }
}

/// The value last assigned to `target` in `body`.
pub fn last_assignment<'a>(body: &'a Vec<Stmt>, target: &str) -> (r: Option<&'a Expr>)
    ensures
        match r {
            Some(e) => last_assigned(body@, target@) == Some(*e),
            None => last_assigned(body@, target@) is None,
        },
{
    let mut i = body.len();
    while i > 0
        invariant
            i <= body.len(),
            last_assigned(body@, target@) == last_assigned(body@.take(i as int), target@),
        decreases i,
    {
        assert(body@.take(i as int).drop_last() =~= body@.take(i - 1));
        assert(body@.take(i as int).last() == body@[i - 1]);
        match assigned_value(&body[i - 1], target) {
            Some(e) => {
                return Some(e);
            },
            None => {},
        }
        i = i - 1;
    }
    None
}

/// A reason about the file `file`, on the app configuration.
pub open spec fn config_reason(file: Seq<char>, message: Seq<char>) -> ReasonView {
    ReasonView { field: Field::AppsConfig, source: SourceView::File(file), message }
}

fn config_file_reason(file: &str, message: &str) -> (r: Reason)
    ensures
        r@ == config_reason(file@, message@),
{
    Reason::file(Field::AppsConfig, file, message)
}

/// The index of the first class of `body` named `n`.
pub open spec fn first_class(body: Seq<Stmt>, n: Seq<char>) -> Option<int>
    decreases body.len(),
{
    if body.len() == 0 {
        None
    } else {
        match first_class(body.drop_last(), n) {
            Some(k) => Some(k),
            None => if class_named(body.last(), n) {
                Some(body.len() - 1)
            } else {
                None
            },
        }
    }
}

proof fn lemma_first_class(body: Seq<Stmt>, n: Seq<char>)
    ensures
        match first_class(body, n) {
            Some(k) => 0 <= k < body.len() && class_named(body[k], n),
            None => true,
        },
    decreases body.len(),
{
    if body.len() > 0 {
        lemma_first_class(body.drop_last(), n);
    }
}

fn find_first_class(body: &Vec<Stmt>, n: &str) -> (r: Option<usize>)
    ensures
        match r {
            Some(k) => first_class(body@, n@) == Some(k as int),
            None => first_class(body@, n@) is None,
        },
{
    let mut i: usize = 0;
    while i < body.len()
        invariant
            i <= body.len(),
            first_class(body@.take(i as int), n@) is None,
        decreases body.len() - i,
    {
        assert(body@.take(i + 1).drop_last() =~= body@.take(i as int));
        let named = match &body[i] {
            Stmt::ClassDef { name, .. } => str_eq(name.as_str(), n),
            _ => false,
        };
        if named {
            proof {
                lemma_first_class_prefix(body@, n@, (i + 1) as int);
            }
            return Some(i);
        }
        i = i + 1;
    }
    assert(body@.take(i as int) =~= body@);
    None
}

/// The first class in a prefix is the first class overall.
proof fn lemma_first_class_prefix(body: Seq<Stmt>, n: Seq<char>, m: int)
    requires
        0 <= m <= body.len(),
        first_class(body.take(m), n) is Some,
    ensures
        first_class(body, n) == first_class(body.take(m), n),
    decreases body.len() - m,
{
    if m < body.len() {
        assert(body.take(m + 1).drop_last() =~= body.take(m));
        lemma_first_class_prefix(body, n, m + 1);
    } else {
        assert(body.take(m) =~= body);
    }
}

/// The reason for an `AppConfig.default` that is no boolean literal.
pub open spec fn default_reason(file: Seq<char>, class: Seq<char>) -> ReasonView {
    config_reason(
        file,
        "AppConfig.default on `"@ + class + "` must be a boolean literal for static default selection"@,
    )
}

/// Whether the class at `i` is a default `AppConfig`, through its own
/// `default` assignment or, failing one, through its bases in order (a base
/// being the first class of that name); classes already under consideration
/// (`active`) say nothing. An assignment that is no boolean literal is an error.
pub open spec fn class_default(body: Seq<Stmt>, i: int, file: Seq<char>, active: Seq<Seq<char>>) -> Result<
    Option<bool>,
    ReasonView,
>
    decreases body.len() - active.len(), 0int,
{
    match body[i] {
        Stmt::ClassDef { name, bases, body: class_body } => if active.contains(name@) || active.len() >= body.len() {
            Ok(None)
        } else {
            match last_assigned(class_body@, "default"@) {
                Some(e) => match e {
                    Expr::BooleanLiteral { value } => Ok(Some(value)),
                    _ => Err(default_reason(file, name@)),
                },
                None => bases_default(body, bases@, 0, file, active.push(name@)),
            }
        },
        _ => Ok(None),
    }
}

/// What the bases from `j` on say of being a default `AppConfig`.
pub open spec fn bases_default(
    body: Seq<Stmt>,
    bases: Seq<Expr>,
    j: int,
    file: Seq<char>,
    active: Seq<Seq<char>>,
) -> Result<Option<bool>, ReasonView>
    decreases body.len() - active.len(), bases.len() - j,
{
    if j < 0 || j >= bases.len() {
        Ok(None)
    } else {
        match base_name(bases[j]) {
            None => bases_default(body, bases, j + 1, file, active),
            Some(b) => match first_class(body, b) {
                None => bases_default(body, bases, j + 1, file, active),
                Some(p) => if 0 <= p < body.len() {
                    match class_default(body, p, file, active) {
                        Err(e) => Err(e),
                        Ok(Some(d)) => Ok(Some(d)),
                        Ok(None) => bases_default(body, bases, j + 1, file, active),
                    }
                } else {
                    Ok(None)
                },
            },
        }
    }
}

/// The names of the classes of `body`.
pub open spec fn class_name_list(body: Seq<Stmt>) -> Seq<Seq<char>> {
    Seq::new(
        body.len(),
        |i: int|
            match body[i] {
                Stmt::ClassDef { name, .. } => name@,
                _ => Seq::empty(),
            },
    )
}

/// The classes under consideration are distinct class names of `body`.
pub open spec fn active_ok(body: Seq<Stmt>, active: Seq<Seq<char>>) -> bool {
    &&& active.no_duplicates()
    &&& forall|k: int| 0 <= k < active.len() ==> class_name_list(body).contains(#[trigger] active[k])
}

proof fn lemma_active_room(body: Seq<Stmt>, active: Seq<Seq<char>>, i: int)
    requires
        active_ok(body, active),
        0 <= i < body.len(),
        body[i] is ClassDef,
        !active.contains(class_name_list(body)[i]),
    ensures
        active.len() < body.len(),
        active_ok(body, active.push(class_name_list(body)[i])),
{
    let grown = active.push(class_name_list(body)[i]);
    assert(grown.no_duplicates()) by {
        assert forall|a: int, c: int| 0 <= a < c < grown.len() implies grown[a] != grown[c] by {
            if c == active.len() {
                assert(active.contains(active[a]));
            }
        }
    }
    grown.unique_seq_to_set();
    class_name_list(body).lemma_cardinality_of_set();
    assert forall|k: int| 0 <= k < grown.len() implies class_name_list(body).contains(#[trigger] grown[k]) by {
        if k == active.len() {
            assert(class_name_list(body)[i] == grown[k]);
        }
    }
    assert(grown.to_set().subset_of(class_name_list(body).to_set()));
    vstd::set_lib::lemma_len_subset(grown.to_set(), class_name_list(body).to_set());
}

fn class_default_exec(body: &Vec<Stmt>, i: usize, file: &str, active: &Vec<String>) -> (r: Result<Option<bool>, Reason>)
    requires
        i < body@.len(),
        active_ok(body@, views(active@)),
    ensures
        match r {
            Ok(d) => class_default(body@, i as int, file@, views(active@)) == Ok::<Option<bool>, ReasonView>(d),
            Err(e) => class_default(body@, i as int, file@, views(active@)) == Err::<Option<bool>, ReasonView>(e@),
        },
    decreases body@.len() - views(active@).len(), 0int,
{
    match &body[i] {
        Stmt::ClassDef { name, bases, body: class_body } => {
            if contains_str(active, name.as_str()) {
                return Ok(None);
            }
            proof {
                assert(class_name_list(body@)[i as int] == name@);
                lemma_active_room(body@, views(active@), i as int);
            }
            match last_assignment(class_body, "default") {
                Some(e) => match e {
                    Expr::BooleanLiteral { value } => Ok(Some(*value)),
                    _ => {
                        let m1 = concat("AppConfig.default on `", name.as_str());
                        let message = concat(m1.as_str(), "` must be a boolean literal for static default selection");
                        Err(config_file_reason(file, message.as_str()))
                    },
                },
                None => {
                    let mut grown = crate::text::clone_strings(active);
                    grown.push(name.clone());
                    assert(views(grown@) =~= views(active@).push(name@));
                    bases_default_exec(body, bases, 0, file, &grown)
                },
            }
        },
        _ => Ok(None),
    }
}

fn bases_default_exec(body: &Vec<Stmt>, bases: &Vec<Expr>, j: usize, file: &str, active: &Vec<String>) -> (r: Result<
    Option<bool>,
    Reason,
>)
    requires
        active_ok(body@, views(active@)),
        views(active@).len() <= body@.len(),
    ensures
        match r {
            Ok(d) => bases_default(body@, bases@, j as int, file@, views(active@)) == Ok::<Option<bool>, ReasonView>(d),
            Err(e) => bases_default(body@, bases@, j as int, file@, views(active@)) == Err::<Option<bool>, ReasonView>(
                e@,
            ),
        },
    decreases body@.len() - views(active@).len(), bases@.len() - j,
{
    if j >= bases.len() {
        return Ok(None);
    }
    match base_class_name(&bases[j]) {
        None => bases_default_exec(body, bases, j + 1, file, active),
        Some(b) => match find_first_class(body, b) {
            None => bases_default_exec(body, bases, j + 1, file, active),
            Some(p) => {
                proof {
                    lemma_first_class(body@, b@);
                }
                match class_default_exec(body, p, file, active) {
                    Err(e) => Err(e),
                    Ok(Some(d)) => Ok(Some(d)),
                    Ok(None) => bases_default_exec(body, bases, j + 1, file, active),
                }
            },
        },
    }
}

/// How the default `AppConfig` of an `apps.py` is chosen.
pub enum DefaultChoice {
    NoDefault,
    Selected(int),
    Unclear(ReasonView),
}

/// The candidates for the default among the first `n` statements (class
/// indices), and those that set `default = True`; or the first error.
pub open spec fn default_candidates(body: Seq<Stmt>, file: Seq<char>, n: int) -> Result<(Seq<int>, Seq<int>), ReasonView>
    decreases n,
{
    if n <= 0 {
        Ok((Seq::empty(), Seq::empty()))
    } else {
        match default_candidates(body, file, n - 1) {
            Err(e) => Err(e),
            Ok((c, x)) => match body[n - 1] {
                Stmt::ClassDef { name, .. } => if is_config_class(body, name@) {
                    match class_default(body, n - 1, file, Seq::empty()) {
                        Err(e) => Err(e),
                        Ok(Some(false)) => Ok((c, x)),
                        Ok(Some(true)) => Ok((c.push(n - 1), x.push(n - 1))),
                        Ok(None) => Ok((c.push(n - 1), x)),
                    }
                } else {
                    Ok((c, x))
                },
                _ => Ok((c, x)),
            },
        }
    }
}

/// The default `AppConfig` of a module body, as Django picks it: the only
/// candidate; else the only one with `default = True`; several with it are
/// unclear; otherwise none.
pub open spec fn default_choice(body: Seq<Stmt>, file: Seq<char>) -> DefaultChoice {
    match default_candidates(body, file, body.len() as int) {
        Err(e) => DefaultChoice::Unclear(e),
        Ok((c, x)) => if c.len() == 0 {
            DefaultChoice::NoDefault
        } else if c.len() == 1 {
            DefaultChoice::Selected(c[0])
        } else if x.len() == 1 {
            DefaultChoice::Selected(x[0])
        } else if x.len() > 1 {
            DefaultChoice::Unclear(config_reason(file, "more than one AppConfig class sets default = True"@))
        } else {
            DefaultChoice::NoDefault
        },
    }
}

/// The default `AppConfig` chosen among the classes of a module body.
pub enum DefaultAppConfigSelection {
    NoDefault,
    Selected(usize),
    Unclear(Reason),
}

pub fn select_default_app_config(body: &Vec<Stmt>, config_file: &str) -> (r: DefaultAppConfigSelection)
    ensures
        match (r, default_choice(body@, config_file@)) {
            (DefaultAppConfigSelection::NoDefault, DefaultChoice::NoDefault) => true,
            (DefaultAppConfigSelection::Selected(k), DefaultChoice::Selected(c)) => k == c,
            (DefaultAppConfigSelection::Unclear(e), DefaultChoice::Unclear(v)) => e@ == v,
            _ => false,
        },
{
    let names = app_config_class_names(body);
    let mut candidates: Vec<usize> = Vec::new();
    let mut explicit: Vec<usize> = Vec::new();
    let empty: Vec<String> = Vec::new();
    assert(views(empty@) =~= Seq::<Seq<char>>::empty());
    assert(candidates@.map_values(|k: usize| k as int) =~= Seq::<int>::empty());
    assert(explicit@.map_values(|k: usize| k as int) =~= Seq::<int>::empty());
    let mut i: usize = 0;
    while i < body.len()
        invariant
            i <= body.len(),
            views(empty@) == Seq::<Seq<char>>::empty(),
            forall|n: Seq<char>| views(names@).contains(n) <==> is_config_class(body@, n),
            default_candidates(body@, config_file@, i as int) == Ok::<(Seq<int>, Seq<int>), ReasonView>(
                (candidates@.map_values(|k: usize| k as int), explicit@.map_values(|k: usize| k as int)),
            ),
        decreases body.len() - i,
    {
        match &body[i] {
            Stmt::ClassDef { name, .. } => {
                if contains_str(&names, name.as_str()) {
                    proof {
                        assert(active_ok(body@, views(empty@)));
                    }
                    match class_default_exec(body, i, config_file, &empty) {
                        Err(e) => {
                            proof {
                                lemma_candidates_error(body@, config_file@, (i + 1) as int);
                            }
                            return DefaultAppConfigSelection::Unclear(e);
                        },
                        Ok(Some(false)) => {},
                        Ok(Some(true)) => {
                            let ghost c0 = candidates@;
                            let ghost x0 = explicit@;
                            candidates.push(i);
                            explicit.push(i);
                            assert(candidates@.map_values(|k: usize| k as int) =~= c0.map_values(|k: usize| k as int).push(i as int));
                            assert(explicit@.map_values(|k: usize| k as int) =~= x0.map_values(|k: usize| k as int).push(i as int));
                        },
                        Ok(None) => {
                            let ghost c0 = candidates@;
                            candidates.push(i);
                            assert(candidates@.map_values(|k: usize| k as int) =~= c0.map_values(|k: usize| k as int).push(i as int));
                        },
                    }
                }
            },
            _ => {},
        }
        i = i + 1;
    }
    if candidates.len() == 0 {
        DefaultAppConfigSelection::NoDefault
    } else if candidates.len() == 1 {
        DefaultAppConfigSelection::Selected(candidates[0])
    } else if explicit.len() == 1 {
        DefaultAppConfigSelection::Selected(explicit[0])
    } else if explicit.len() > 1 {
        DefaultAppConfigSelection::Unclear(config_file_reason(config_file, "more than one AppConfig class sets default = True"))
    } else {
        DefaultAppConfigSelection::NoDefault
    }
}

/// Once an error is found, it stays.
proof fn lemma_candidates_error(body: Seq<Stmt>, file: Seq<char>, n: int)
    requires
        0 < n <= body.len(),
        default_candidates(body, file, n) is Err,
    ensures
        default_candidates(body, file, body.len() as int) == default_candidates(body, file, n),
    decreases body.len() - n,
{
    if n < body.len() {
        lemma_candidates_error(body, file, n + 1);
    }
}

// ---- facts of an installed app ----

/// A fact of a module name or a path, by views: confidence, value,
/// candidates and reasons.
pub type FactView = (Confidence, Option<Seq<char>>, Seq<Seq<char>>, Seq<ReasonView>);

pub open spec fn module_fact_view(f: Fact<PyModuleName>) -> FactView {
    (
        f.confidence_spec(),
        match f.value_spec() {
            Some(m) => Some(m@),
            None => None,
        },
        f.candidates_spec().map_values(|m: PyModuleName| m@),
        reason_views(f.reasons_spec()),
    )
}

pub open spec fn string_fact_view(f: Fact<String>) -> FactView {
    (
        f.confidence_spec(),
        match f.value_spec() {
            Some(s) => Some(s@),
            None => None,
        },
        f.candidates_spec().map_values(|s: String| s@),
        reason_views(f.reasons_spec()),
    )
}

pub open spec fn unknown_view(rs: Seq<ReasonView>) -> FactView {
    (Confidence::Unknown, None, Seq::empty(), rs)
}

pub open spec fn known_view(v: Seq<char>) -> FactView {
    (Confidence::Known, Some(v), Seq::empty(), Seq::empty())
}

pub open spec fn partial_view(v: Seq<char>, rs: Seq<ReasonView>) -> FactView {
    (Confidence::Partial, Some(v), Seq::empty(), rs)
}

/// The fact with a reason added: known becomes partial.
pub open spec fn with_reason_view(f: FactView, r: ReasonView) -> FactView {
    (if f.0 == Confidence::Known { Confidence::Partial } else { f.0 }, f.1, f.2, f.3.push(r))
}

/// The fact with reasons added.
pub open spec fn with_reasons_view(f: FactView, rs: Seq<ReasonView>) -> FactView {
    if rs.len() == 0 {
        f
    } else {
        (if f.0 == Confidence::Known { Confidence::Partial } else { f.0 }, f.1, f.2, f.3 + rs)
    }
}

/// A module lookup by views: confidence, the files found, the reasons.
pub type LookupView = (Confidence, Seq<Seq<char>>, Seq<ReasonView>);

pub open spec fn lookup_view(f: Fact<ResolvedModule>) -> LookupView {
    (
        f.confidence_spec(),
        match f {
            Fact::Known { value } => seq![value.file@],
            Fact::Partial { value, .. } => seq![value.file@],
            Fact::Unknown { .. } => Seq::empty(),
            Fact::Ambiguous { candidates, .. } => candidates@.map_values(|m: ResolvedModule| m.file@),
        },
        reason_views(f.reasons_spec()),
    )
}

/// The module fact that a lookup gives the module `m`: known, partial with
/// the lookup's reasons when partial or ambiguous, else unknown.
pub open spec fn lookup_module_view(m: Seq<char>, l: LookupView) -> FactView {
    match l.0 {
        Confidence::Known => known_view(m),
        Confidence::Unknown => unknown_view(l.2),
        _ => partial_view(m, l.2),
    }
}

fn module_fact_from_resolution(module: &PyModuleName, resolution: &Fact<ResolvedModule>) -> (r: Fact<PyModuleName>)
    ensures
        module_fact_view(r) == lookup_module_view(module@, lookup_view(*resolution)),
{
    match resolution {
        Fact::Known { .. } => Fact::Known { value: module.duplicate() },
        Fact::Partial { reasons, .. } => Fact::Partial { value: module.duplicate(), reasons: duplicate_reasons(reasons) },
        Fact::Ambiguous { reasons, .. } => Fact::Partial { value: module.duplicate(), reasons: duplicate_reasons(reasons) },
        Fact::Unknown { reasons } => Fact::Unknown { reasons: duplicate_reasons(reasons) },
    }
}

/// The directory of an app whose module is in `file`: the file's parent.
pub open spec fn app_dir_of(file: Seq<char>) -> Seq<char> {
    match parent_of(file) {
        Some(p) => p,
        None => file,
    }
}

fn app_path_from_resolved(resolved: &ResolvedModule) -> (r: String)
    ensures
        r@ == app_dir_of(resolved.file@),
{
    match path_parent(resolved.file.as_str()) {
        Some(p) => p,
        None => resolved.file.clone(),
    }
}

/// The path fact that a lookup gives: the directory of the file found; for
/// several files, their directories each once.
pub open spec fn lookup_path_view(l: LookupView) -> FactView {
    match l.0 {
        Confidence::Known => known_view(app_dir_of(l.1[0])),
        Confidence::Partial => partial_view(app_dir_of(l.1[0]), l.2),
        Confidence::Unknown => unknown_view(l.2),
        Confidence::Ambiguous => (
            Confidence::Ambiguous,
            None,
            first_occurrences(l.1.map_values(|f: Seq<char>| app_dir_of(f))),
            l.2,
        ),
    }
}

fn app_path_fact_from_resolution(resolution: &Fact<ResolvedModule>) -> (r: Fact<String>)
    ensures
        string_fact_view(r) == lookup_path_view(lookup_view(*resolution)),
{
    match resolution {
        Fact::Known { value } => Fact::Known { value: app_path_from_resolved(value) },
        Fact::Partial { value, reasons } => Fact::Partial {
            value: app_path_from_resolved(value),
            reasons: duplicate_reasons(reasons),
        },
        Fact::Unknown { reasons } => Fact::Unknown { reasons: duplicate_reasons(reasons) },
        Fact::Ambiguous { candidates, reasons } => {
            let ghost dirs = candidates@.map_values(|m: ResolvedModule| m.file@).map_values(|f: Seq<char>| app_dir_of(f));
            let mut unique: Vec<String> = Vec::new();
            let mut i: usize = 0;
            while i < candidates.len()
                invariant
                    i <= candidates.len(),
                    dirs == candidates@.map_values(|m: ResolvedModule| m.file@).map_values(|f: Seq<char>| app_dir_of(f)),
                    views(unique@) == first_occurrences(dirs.take(i as int)),
                decreases candidates.len() - i,
            {
                assert(dirs.take(i + 1).drop_last() =~= dirs.take(i as int));
                let dir = app_path_from_resolved(&candidates[i]);
                if !contains_str(&unique, dir.as_str()) {
                    let ghost before = views(unique@);
                    unique.push(dir);
                    assert(views(unique@) =~= before.push(dirs[i as int]));
                }
                i = i + 1;
            }
            assert(dirs.take(i as int) =~= dirs);
            let r = Fact::Ambiguous { candidates: unique, reasons: duplicate_reasons(reasons) };
            assert(string_fact_view(r).2 =~= views(unique@));
            r
        },
    }
}

/// What `AppConfig.name` gives: the module it names when it is a string
/// literal that is a dotted name.
pub open spec fn config_name_view(e: Option<Expr>, file: Seq<char>) -> FactView {
    match e {
        None => unknown_view(seq![config_reason(file, "AppConfig.name is not assigned"@)]),
        Some(e) => match string_literal_spec(e) {
            None => unknown_view(seq![config_reason(file, "AppConfig.name must be a string literal"@)]),
            Some(s) => if is_dotted_name(s) {
                known_view(s)
            } else {
                unknown_view(
                    seq![config_reason(file, "AppConfig.name is not a valid Python module path: "@ + name_error_message(s))],
                )
            },
        },
    }
}

fn app_config_name(expr: Option<&Expr>, file: &str) -> (r: Fact<PyModuleName>)
    ensures
        module_fact_view(r) == config_name_view(
            match expr {
                Some(e) => Some(*e),
                None => None,
            },
            file@,
        ),
{
    let e = match expr {
        None => {
            let r = Fact::Unknown { reasons: vec![config_file_reason(file, "AppConfig.name is not assigned")] };
            assert(module_fact_view(r).3 =~= seq![config_reason(file@, "AppConfig.name is not assigned"@)]);
            return r;
        },
        Some(e) => e,
    };
    let name = match string_literal(e) {
        None => {
            let r = Fact::Unknown { reasons: vec![config_file_reason(file, "AppConfig.name must be a string literal")] };
            assert(module_fact_view(r).3 =~= seq![config_reason(file@, "AppConfig.name must be a string literal"@)]);
            return r;
        },
        Some(n) => n,
    };
    match PyModuleName::parse(name.as_str()) {
        Ok(m) => {
            let r = Fact::Known { value: m };
            assert(module_fact_view(r).2 =~= Seq::<Seq<char>>::empty());
            assert(module_fact_view(r).3 =~= Seq::<ReasonView>::empty());
            r
        },
        Err(error) => {
            let message = concat("AppConfig.name is not a valid Python module path: ", error.message().as_str());
            let r = Fact::Unknown { reasons: vec![config_file_reason(file, message.as_str())] };
            assert(module_fact_view(r).3 =~= seq![
                config_reason(file@, "AppConfig.name is not a valid Python module path: "@ + name_error_message(name@)),
            ]);
            r
        },
    }
}

/// The label a module name gives: its last segment.
pub open spec fn default_label_view(name: FactView) -> FactView {
    (
        name.0,
        match name.1 {
            Some(m) => Some(basename(m)),
            None => None,
        },
        name.2.map_values(|m: Seq<char>| basename(m)),
        name.3,
    )
}

fn default_label_from_name(name: &Fact<PyModuleName>) -> (r: Fact<String>)
    ensures
        string_fact_view(r) == default_label_view(module_fact_view(*name)),
{
    match name {
        Fact::Known { value } => {
            let r = Fact::Known { value: crate::libraries::module_basename(value).to_string() };
            assert(string_fact_view(r).2 =~= default_label_view(module_fact_view(*name)).2);
            r
        },
        Fact::Partial { value, reasons } => {
            let r = Fact::Partial {
                value: crate::libraries::module_basename(value).to_string(),
                reasons: duplicate_reasons(reasons),
            };
            assert(string_fact_view(r).2 =~= default_label_view(module_fact_view(*name)).2);
            r
        },
        Fact::Unknown { reasons } => {
            let r = Fact::Unknown { reasons: duplicate_reasons(reasons) };
            assert(string_fact_view(r).2 =~= default_label_view(module_fact_view(*name)).2);
            r
        },
        Fact::Ambiguous { candidates, reasons } => {
            let mut labels: Vec<String> = Vec::new();
            let mut i: usize = 0;
            while i < candidates.len()
                invariant
                    i <= candidates.len(),
                    views(labels@) == candidates@.take(i as int).map_values(|m: PyModuleName| m@).map_values(
                        |m: Seq<char>| basename(m),
                    ),
                decreases candidates.len() - i,
            {
                let ghost before = views(labels@);
                labels.push(crate::libraries::module_basename(&candidates[i]).to_string());
                assert(views(labels@) =~= before.push(basename(candidates@[i as int]@)));
                assert(candidates@.take(i + 1).map_values(|m: PyModuleName| m@).map_values(|m: Seq<char>| basename(m))
                    =~= candidates@.take(i as int).map_values(|m: PyModuleName| m@).map_values(
                    |m: Seq<char>| basename(m),
                ).push(basename(candidates@[i as int]@)));
                i = i + 1;
            }
            assert(candidates@.take(i as int) =~= candidates@);
            let r = Fact::Ambiguous { candidates: labels, reasons: duplicate_reasons(reasons) };
            assert(string_fact_view(r).2 =~= default_label_view(module_fact_view(*name)).2);
            r
        },
    }
}

/// What `AppConfig.label` gives: a string literal, else the name's last segment.
pub open spec fn config_label_view(e: Option<Expr>, name: FactView, file: Seq<char>) -> FactView {
    match e {
        Some(e) => match string_literal_spec(e) {
            Some(s) => known_view(s),
            None => with_reasons_view(
                default_label_view(name),
                seq![config_reason(file, "AppConfig.label must be a string literal; using the app module basename"@)],
            ),
        },
        None => default_label_view(name),
    }
}

/// `label` is the last dotted segment of `name`: it holds no dot, and `name`
/// is `label` or ends with a dot followed by `label`.
pub open spec fn is_last_segment(label: Seq<char>, name: Seq<char>) -> bool {
    &&& !label.contains('.')
    &&& label == name || (name.len() > label.len() && name[name.len() - label.len() - 1] == '.' && name.skip(
        name.len() - label.len(),
    ) == label)
}

proof fn lemma_basename_is_last_segment(m: Seq<char>)
    ensures
        is_last_segment(basename(m), m),
{
    crate::libraries::lemma_segment_start(m);
    let k = crate::libraries::segment_start(m);
    let l = basename(m);
    assert(!l.contains('.')) by {
        if l.contains('.') {
            let i = choose|i: int| 0 <= i < l.len() && l[i] == '.';
            assert(m[k + i] == '.');
        }
    }
    if k == 0 {
        assert(l =~= m);
    } else {
        assert(m.skip(m.len() - l.len()) =~= l);
    }
}

/// Without a string literal `label`, an AppConfig's label is the last dotted
/// segment of its name (of each candidate name, when the name is ambiguous).
pub proof fn law_default_label_is_last_segment(e: Option<Expr>, name: FactView, file: Seq<char>)
    requires
        e is None || string_literal_spec(e->0) is None,
    ensures
        name.1 matches Some(m) ==> config_label_view(e, name, file).1 matches Some(l) && is_last_segment(l, m),
        name.1 is None ==> config_label_view(e, name, file).1 is None,
        config_label_view(e, name, file).2.len() == name.2.len(),
        forall|i: int|
            0 <= i < name.2.len() ==> is_last_segment(#[trigger] config_label_view(e, name, file).2[i], name.2[i]),
{
    match name.1 {
        Some(m) => lemma_basename_is_last_segment(m),
        None => {},
    }
    assert forall|i: int| 0 <= i < name.2.len() implies is_last_segment(
        #[trigger] config_label_view(e, name, file).2[i],
        name.2[i],
    ) by {
        lemma_basename_is_last_segment(name.2[i]);
    }
}

fn app_config_label(expr: Option<&Expr>, name: &Fact<PyModuleName>, file: &str) -> (r: Fact<String>)
    ensures
        string_fact_view(r) == config_label_view(
            match expr {
                Some(e) => Some(*e),
                None => None,
            },
            module_fact_view(*name),
            file@,
        ),
{
    match expr {
        Some(e) => {
            match string_literal(e) {
                Some(label) => {
                    let r = Fact::Known { value: label };
                    assert(string_fact_view(r).2 =~= Seq::<Seq<char>>::empty());
                    assert(string_fact_view(r).3 =~= Seq::<ReasonView>::empty());
                    r
                },
                None => {
                    let reason = config_file_reason(file, "AppConfig.label must be a string literal; using the app module basename");
                    let base = default_label_from_name(name);
                    let ghost bv = string_fact_view(base);
                    let r = add_reasons(base, vec![reason]);
                    assert(string_fact_view(r).3 =~= bv.3 + seq![reason@]);
                    r
                },
            }
        },
        None => default_label_from_name(name),
    }
}

/// A reason about the path `path`, on the app's directory.
pub open spec fn path_reason(path: Seq<char>, message: Seq<char>) -> ReasonView {
    ReasonView { field: Field::AppsPath, source: SourceView::Path(path), message }
}

/// What `AppConfig.path` gives: the directory it names (relative ones under
/// the project root) when it exists; else `default` with a reason.
pub open spec fn config_path_view(
    e: Option<Expr>,
    default: FactView,
    root: Seq<char>,
    file: Seq<char>,
    dirs: Seq<Seq<char>>,
) -> FactView {
    match e {
        None => default,
        Some(e) => match string_literal_spec(e) {
            None => with_reason_view(
                default,
                config_reason(file, "AppConfig.path must be a string literal; using the resolved app package path"@),
            ),
            Some(s) => {
                let p = if is_absolute_path(s) {
                    s
                } else {
                    joined(root, s)
                };
                if dirs.contains(p) {
                    known_view(p)
                } else {
                    with_reason_view(
                        default,
                        path_reason(
                            p,
                            "AppConfig.path does not exist or is not a directory; using the resolved app package path"@,
                        ),
                    )
                }
            },
        },
    }
}

fn app_config_path(
    expr: Option<&Expr>,
    default_path: Fact<String>,
    project_root: &str,
    file: &str,
    dirs: &Vec<String>,
) -> (r: Fact<String>)
    ensures
        string_fact_view(r) == config_path_view(
            match expr {
                Some(e) => Some(*e),
                None => None,
            },
            string_fact_view(default_path),
            project_root@,
            file@,
            views(dirs@),
        ),
{
    let e = match expr {
        None => return default_path,
        Some(e) => e,
    };
    let ghost dv = string_fact_view(default_path);
    let path = match string_literal(e) {
        None => {
            let reason = config_file_reason(file, "AppConfig.path must be a string literal; using the resolved app package path");
            let ghost rv = reason@;
            let r = default_path.with_reason(reason);
            assert(string_fact_view(r).3 =~= dv.3.push(rv));
            return r;
        },
        Some(p) => p,
    };
    let normalized = if path_is_absolute(path.as_str()) {
        path
    } else {
        path_join(project_root, path.as_str())
    };
    if contains_str(dirs, normalized.as_str()) {
        let r = Fact::Known { value: normalized };
        assert(string_fact_view(r).2 =~= Seq::<Seq<char>>::empty());
        assert(string_fact_view(r).3 =~= Seq::<ReasonView>::empty());
        r
    } else {
        let reason = Reason::path(
            Field::AppsPath,
            normalized.as_str(),
            "AppConfig.path does not exist or is not a directory; using the resolved app package path",
        );
        let ghost rv = reason@;
        let r = default_path.with_reason(reason);
        assert(string_fact_view(r).3 =~= dv.3.push(rv));
        r
    }
}

/// The app module fact of an `AppConfig`: unknown without a name or a lookup
/// of it; else what the lookup gives, with the name's reasons.
pub open spec fn app_module_view(name: FactView, lookup: Option<LookupView>) -> FactView {
    match name.1 {
        None => unknown_view(name.3),
        Some(m) => match lookup {
            None => unknown_view(name.3),
            Some(l) => with_reasons_view(lookup_module_view(m, l), name.3),
        },
    }
}

proof fn lemma_add_reasons_view<T>(f: Fact<T>, rs: Seq<Reason>, r: Fact<T>)
    requires
        r.value_spec() == f.value_spec(),
        r.candidates_spec() == f.candidates_spec(),
        r.reasons_spec() == f.reasons_spec() + rs,
        r.confidence_spec() == (if f is Known && rs.len() > 0 {
            Confidence::Partial
        } else {
            f.confidence_spec()
        }),
    ensures
        reason_views(r.reasons_spec()) == reason_views(f.reasons_spec()) + reason_views(rs),
{
    assert(reason_views(r.reasons_spec()) =~= reason_views(f.reasons_spec()) + reason_views(rs));
}

fn app_module_fact_from_name(name: &Fact<PyModuleName>, resolution: Option<&ModuleResolution>) -> (r: Fact<PyModuleName>)
    ensures
        module_fact_view(r) == app_module_view(
            module_fact_view(*name),
            match resolution {
                Some(res) => Some(lookup_view(res.resolved)),
                None => None,
            },
        ),
{
    let module = match name.value() {
        None => {
            let r = Fact::Unknown { reasons: duplicate_slice(name.reasons()) };
            return r;
        },
        Some(m) => m,
    };
    let resolution = match resolution {
        None => {
            let r = Fact::Unknown { reasons: duplicate_slice(name.reasons()) };
            return r;
        },
        Some(res) => res,
    };
    let fact = module_fact_from_resolution(module, &resolution.resolved);
    let extra = duplicate_slice(name.reasons());
    let ghost fv = module_fact_view(fact);
    let ghost ev = reason_views(extra@);
    let r = add_reasons(fact, extra);
    proof {
        lemma_add_reasons_view(fact, extra@, r);
        assert(module_fact_view(r).2 =~= fv.2);
    }
    r
}

proof fn lemma_view_add(before: FactView, after: FactView, rs: Seq<ReasonView>)
    requires
        after.1 == before.1,
        after.2 == before.2,
        after.3 == before.3 + rs,
        after.0 == (if before.0 == Confidence::Known && rs.len() > 0 {
            Confidence::Partial
        } else {
            before.0
        }),
    ensures
        after == with_reasons_view(before, rs),
{
    if rs.len() == 0 {
        assert(after.3 =~= before.3);
    }
}

fn duplicate_slice(v: &[Reason]) -> (r: Vec<Reason>)
    ensures
        r@ == v@,
{
    let mut out: Vec<Reason> = Vec::new();
    let mut i: usize = 0;
    while i < v.len()
        invariant
            i <= v@.len(),
            out@ == v@.take(i as int),
        decreases v@.len() - i,
    {
        out.push(v[i].duplicate());
        assert(out@ =~= v@.take(i + 1));
        i = i + 1;
    }
    assert(v@.take(i as int) =~= v@);
    out
}

// ---- installed apps ----

/// An `AppConfig` by views.
pub struct ConfigView {
    pub module: Seq<char>,
    pub file: Seq<char>,
    pub class_name: Seq<char>,
    pub name: FactView,
    pub label: FactView,
    pub path: FactView,
}

/// An installed app by views.
pub struct InstalledAppView {
    pub entry: Seq<char>,
    pub module: FactView,
    pub path: FactView,
    pub config: Option<ConfigView>,
}

pub open spec fn config_view(c: AppConfigFact) -> ConfigView {
    ConfigView {
        module: c.module@,
        file: c.file@,
        class_name: c.class_name@,
        name: module_fact_view(c.name),
        label: string_fact_view(c.label),
        path: string_fact_view(c.path),
    }
}

pub open spec fn installed_view(a: InstalledAppFact) -> InstalledAppView {
    InstalledAppView {
        entry: a.entry@,
        module: module_fact_view(a.module),
        path: string_fact_view(a.path),
        config: match a.config {
            Some(c) => Some(config_view(c)),
            None => None,
        },
    }
}

/// The app that the `AppConfig` class `class` of the module `config_module`
/// (in `file`) describes: its module is what its `name` resolves to, its path
/// that of the resolved module unless `path` names an existing directory, its
/// label `label` or the name's last segment; the config module's lookup
/// reasons go to the module and the path.
pub open spec fn config_app_view(
    entry: Seq<char>,
    config_module: Seq<char>,
    class: Stmt,
    file: Seq<char>,
    config_reasons: Seq<ReasonView>,
    root: Seq<char>,
    search_paths: Seq<ModuleSearchPathEntry>,
    files: Seq<Seq<char>>,
    dirs: Seq<Seq<char>>,
) -> InstalledAppView {
    match class {
        Stmt::ClassDef { name: class_name, body: class_body, .. } => {
            let name = config_name_view(last_assigned(class_body@, "name"@), file);
            let lookup = match name.1 {
                Some(m) => Some(crate::modules::resolution_view(m, search_paths, files)),
                None => None,
            };
            let module = with_reasons_view(app_module_view(name, lookup), config_reasons);
            let default_path = match lookup {
                None => unknown_view(name.3),
                Some(l) => lookup_path_view(l),
            };
            let path = with_reasons_view(
                config_path_view(last_assigned(class_body@, "path"@), default_path, root, file, dirs),
                config_reasons,
            );
            let label = config_label_view(last_assigned(class_body@, "label"@), name, file);
            InstalledAppView {
                entry,
                module,
                path,
                config: Some(ConfigView { module: config_module, file, class_name: class_name@, name, label, path }),
            }
        },
        _ => InstalledAppView { entry, module: unknown_view(Seq::empty()), path: unknown_view(Seq::empty()), config: None },
    }
}

fn duplicate_module_fact(f: &Fact<PyModuleName>) -> (r: Fact<PyModuleName>)
    ensures
        module_fact_view(r) == module_fact_view(*f),
{
    match f {
        Fact::Known { value } => Fact::Known { value: value.duplicate() },
        Fact::Partial { value, reasons } => Fact::Partial { value: value.duplicate(), reasons: duplicate_reasons(reasons) },
        Fact::Unknown { reasons } => Fact::Unknown { reasons: duplicate_reasons(reasons) },
        Fact::Ambiguous { candidates, reasons } => {
            let mut out: Vec<PyModuleName> = Vec::new();
            let mut i: usize = 0;
            while i < candidates.len()
                invariant
                    i <= candidates.len(),
                    out@ == candidates@.take(i as int),
                decreases candidates.len() - i,
            {
                out.push(candidates[i].duplicate());
                assert(out@ =~= candidates@.take(i + 1));
                i = i + 1;
            }
            assert(candidates@.take(i as int) =~= candidates@);
            Fact::Ambiguous { candidates: out, reasons: duplicate_reasons(reasons) }
        },
    }
}

fn duplicate_string_fact(f: &Fact<String>) -> (r: Fact<String>)
    ensures
        string_fact_view(r) == string_fact_view(*f),
{
    match f {
        Fact::Known { value } => Fact::Known { value: value.clone() },
        Fact::Partial { value, reasons } => Fact::Partial { value: value.clone(), reasons: duplicate_reasons(reasons) },
        Fact::Unknown { reasons } => Fact::Unknown { reasons: duplicate_reasons(reasons) },
        Fact::Ambiguous { candidates, reasons } => {
            let out = crate::text::clone_strings(candidates);
            let r = Fact::Ambiguous { candidates: out, reasons: duplicate_reasons(reasons) };
            assert(string_fact_view(r).2 =~= string_fact_view(*f).2);
            r
        },
    }
}

/// The app the `AppConfig` class at `class_index` of `body` describes.
fn app_config_installed_app(
    entry: &str,
    config_module: PyModuleName,
    body: &Vec<Stmt>,
    class_index: usize,
    config_file: &str,
    config_resolution_reasons: Vec<Reason>,
    project_root: &str,
    search_paths: &Vec<ModuleSearchPathEntry>,
    files: &Vec<String>,
    dirs: &Vec<String>,
) -> (r: InstalledAppFact)
    requires
        class_index < body@.len(),
        body@[class_index as int] is ClassDef,
    ensures
        installed_view(r) == config_app_view(
            entry@,
            config_module@,
            body@[class_index as int],
            config_file@,
            reason_views(config_resolution_reasons@),
            project_root@,
            search_paths@,
            views(files@),
            views(dirs@),
        ),
{
    let (class_name, class_body) = match &body[class_index] {
        Stmt::ClassDef { name, body: class_body, .. } => (name, class_body),
        _ => {
            return InstalledAppFact {
                entry: entry.to_string(),
                module: Fact::Unknown { reasons: Vec::new() },
                path: Fact::Unknown { reasons: Vec::new() },
                config: None,
            };
        },
    };
    let name = app_config_name(last_assignment(class_body, "name"), config_file);
    let ghost nv = module_fact_view(name);
    let app_resolution = match name.value() {
        Some(m) => {
            let res = resolve_module(m.duplicate(), search_paths, project_root, files);
            proof {
                crate::modules::lemma_resolution_view(*m, search_paths@, project_root@, views(files@), res);
            }
            Some(res)
        },
        None => None,
    };
    let ghost lookup = match nv.1 {
        Some(m) => Some(crate::modules::resolution_view(m, search_paths@, views(files@))),
        None => None,
    };
    let module0 = app_module_fact_from_name(
        &name,
        match &app_resolution {
            Some(res) => Some(res),
            None => None,
        },
    );
    let ghost m0 = module_fact_view(module0);
    let cr1 = duplicate_reasons(&config_resolution_reasons);
    let app_module = add_reasons(module0, cr1);
    proof {
        lemma_add_reasons_view(module0, cr1@, app_module);
        assert(module_fact_view(app_module).2 =~= m0.2);
        lemma_view_add(m0, module_fact_view(app_module), reason_views(cr1@));
        assert(nv == config_name_view(last_assigned(class_body@, "name"@), config_file@));
        assert(m0 == app_module_view(nv, lookup));
    }
    let default_path = match &app_resolution {
        None => Fact::Unknown { reasons: duplicate_slice(name.reasons()) },
        Some(res) => app_path_fact_from_resolution(&res.resolved),
    };
    assert(string_fact_view(default_path) == match lookup {
        None => unknown_view(nv.3),
        Some(l) => lookup_path_view(l),
    }) by {
        match app_resolution {
            Some(res) => {
                assert(lookup_view(res.resolved) == crate::modules::resolved_view(res.resolved));
            },
            None => {},
        }
    }
    let path0 = app_config_path(last_assignment(class_body, "path"), default_path, project_root, config_file, dirs);
    let ghost p0 = string_fact_view(path0);
    let path = add_reasons(path0, config_resolution_reasons);
    proof {
        lemma_add_reasons_view(path0, config_resolution_reasons@, path);
        assert(string_fact_view(path).2 =~= p0.2);
        lemma_view_add(p0, string_fact_view(path), reason_views(config_resolution_reasons@));
    }
    let label = app_config_label(last_assignment(class_body, "label"), &name, config_file);
    let config = AppConfigFact {
        module: config_module,
        file: config_file.to_string(),
        class_name: class_name.clone(),
        name,
        label,
        path: duplicate_string_fact(&path),
    };
    InstalledAppFact { entry: entry.to_string(), module: app_module, path, config: Some(config) }
}

/// The app with a reason added to its module and its path.
pub open spec fn app_with_reason_view(a: InstalledAppView, r: ReasonView) -> InstalledAppView {
    InstalledAppView {
        entry: a.entry,
        module: with_reason_view(a.module, r),
        path: with_reason_view(a.path, r),
        config: a.config,
    }
}

fn installed_app_with_reason(app: InstalledAppFact, reason: Reason) -> (r: InstalledAppFact)
    ensures
        installed_view(r) == app_with_reason_view(installed_view(app), reason@),
{
    let InstalledAppFact { entry, module, path, config } = app;
    let ghost mv = module_fact_view(module);
    let ghost pv = string_fact_view(path);
    let ghost rv = reason@;
    let module = module.with_reason(reason.duplicate());
    let path = path.with_reason(reason);
    assert(module_fact_view(module).3 =~= mv.3.push(rv));
    assert(string_fact_view(path).3 =~= pv.3.push(rv));
    InstalledAppFact { entry, module, path, config }
}

// ---- the default AppConfig of a package ----

/// The classes of the candidates are classes of the body.
proof fn lemma_candidates_classes(body: Seq<Stmt>, file: Seq<char>, n: int)
    requires
        n <= body.len(),
    ensures
        default_candidates(body, file, n) matches Ok((c, x)) ==> {
            &&& forall|k: int| 0 <= k < c.len() ==> 0 <= #[trigger] c[k] < body.len() && body[c[k]] is ClassDef
            &&& forall|k: int| 0 <= k < x.len() ==> 0 <= #[trigger] x[k] < body.len() && body[x[k]] is ClassDef
        },
    decreases n,
{
    if n > 0 {
        lemma_candidates_classes(body, file, n - 1);
    }
}

/// The class `default_choice` selects is a class of the body.
proof fn lemma_choice_class(body: Seq<Stmt>, file: Seq<char>)
    ensures
        default_choice(body, file) matches DefaultChoice::Selected(i) ==> 0 <= i < body.len() && body[i] is ClassDef,
{
    lemma_candidates_classes(body, file, body.len() as int);
}

/// The app a package entry gives when its directory holds `apps.py` (at
/// `file`): the module `<app>.apps` must be a valid name and its source must
/// be read and parsed, else a reason says why on the app's module and path;
/// the default `AppConfig` then describes the app, none leaves it as it was,
/// and an unclear choice adds its reason.
pub open spec fn default_config_view(
    entry: Seq<char>,
    app_module: Seq<char>,
    file: Seq<char>,
    base: InstalledAppView,
    source: Option<ModuleSource>,
    root: Seq<char>,
    search_paths: Seq<ModuleSearchPathEntry>,
    files: Seq<Seq<char>>,
    dirs: Seq<Seq<char>>,
) -> InstalledAppView {
    let config_module = app_module + ".apps"@;
    if !is_dotted_name(config_module) {
        app_with_reason_view(
            base,
            config_reason(file, "default AppConfig module path is invalid: "@ + name_error_message(config_module)),
        )
    } else {
        match source {
            None => app_with_reason_view(base, config_reason(file, "failed to read default AppConfig module: "@)),
            Some(ModuleSource::Unreadable(e)) => app_with_reason_view(
                base,
                config_reason(file, "failed to read default AppConfig module: "@ + e@),
            ),
            Some(ModuleSource::Unparsable(e)) => app_with_reason_view(
                base,
                config_reason(file, "failed to parse default AppConfig module: "@ + e@),
            ),
            Some(ModuleSource::Parsed(body)) => match default_choice(body@, file) {
                DefaultChoice::NoDefault => base,
                DefaultChoice::Selected(i) => config_app_view(
                    entry,
                    config_module,
                    body@[i],
                    file,
                    Seq::empty(),
                    root,
                    search_paths,
                    files,
                    dirs,
                ),
                DefaultChoice::Unclear(r) => app_with_reason_view(base, r),
            },
        }
    }
}

fn resolve_default_app_config(
    entry: &str,
    app_module: &PyModuleName,
    config_file: &str,
    base_app: InstalledAppFact,
    project_root: &str,
    search_paths: &Vec<ModuleSearchPathEntry>,
    files: &Vec<String>,
    dirs: &Vec<String>,
    sources: &Vec<(String, ModuleSource)>,
) -> (r: InstalledAppFact)
    ensures
        installed_view(r) == default_config_view(
            entry@,
            app_module@,
            config_file@,
            installed_view(base_app),
            source_of(sources@, config_file@),
            project_root@,
            search_paths@,
            views(files@),
            views(dirs@),
        ),
{
    let raw = concat(app_module.as_str(), ".apps");
    let config_module = match PyModuleName::parse(raw.as_str()) {
        Ok(m) => m,
        Err(error) => {
            let message = concat("default AppConfig module path is invalid: ", error.message().as_str());
            return installed_app_with_reason(base_app, config_file_reason(config_file, message.as_str()));
        },
    };
    match find_source(sources, config_file) {
        None => installed_app_with_reason(
            base_app,
            config_file_reason(config_file, "failed to read default AppConfig module: "),
        ),
        Some(ModuleSource::Unreadable(e)) => {
            let message = concat("failed to read default AppConfig module: ", e.as_str());
            installed_app_with_reason(base_app, config_file_reason(config_file, message.as_str()))
        },
        Some(ModuleSource::Unparsable(e)) => {
            let message = concat("failed to parse default AppConfig module: ", e.as_str());
            installed_app_with_reason(base_app, config_file_reason(config_file, message.as_str()))
        },
        Some(ModuleSource::Parsed(body)) => {
            proof {
                lemma_choice_class(body@, config_file@);
            }
            match select_default_app_config(body, config_file) {
                DefaultAppConfigSelection::NoDefault => base_app,
                DefaultAppConfigSelection::Selected(i) => app_config_installed_app(
                    entry,
                    config_module,
                    body,
                    i,
                    config_file,
                    Vec::new(),
                    project_root,
                    search_paths,
                    files,
                    dirs,
                ),
                DefaultAppConfigSelection::Unclear(reason) => installed_app_with_reason(base_app, reason),
            }
        },
    }
}

// ---- one entry of INSTALLED_APPS ----

/// An app of which nothing is known, for the reasons `rs`.
pub open spec fn unknown_app_view(entry: Seq<char>, rs: Seq<ReasonView>) -> InstalledAppView {
    InstalledAppView { entry, module: unknown_view(rs), path: unknown_view(rs), config: None }
}

fn unknown_installed_app(entry: &str, reasons: Vec<Reason>) -> (r: InstalledAppFact)
    ensures
        installed_view(r) == unknown_app_view(entry@, reason_views(reasons@)),
{
    let r = InstalledAppFact {
        entry: entry.to_string(),
        module: Fact::Unknown { reasons: duplicate_reasons(&reasons) },
        path: Fact::Unknown { reasons },
        config: None,
    };
    assert(installed_view(r).module.2 =~= Seq::<Seq<char>>::empty());
    assert(installed_view(r).path.2 =~= Seq::<Seq<char>>::empty());
    r
}

/// The app an entry that imports as the module `module` gives: the module,
/// as sure as the lookup `l`, and its directory. A package (found as
/// `__init__.py`) whose directory holds `apps.py` is then described by that
/// file's default `AppConfig`.
pub open spec fn direct_app_view(
    entry: Seq<char>,
    module: Seq<char>,
    l: LookupView,
    root: Seq<char>,
    search_paths: Seq<ModuleSearchPathEntry>,
    files: Seq<Seq<char>>,
    dirs: Seq<Seq<char>>,
    sources: Seq<(String, ModuleSource)>,
) -> InstalledAppView {
    let base = InstalledAppView {
        entry,
        module: lookup_module_view(module, l),
        path: lookup_path_view(l),
        config: None,
    };
    if (l.0 == Confidence::Known || l.0 == Confidence::Partial) && crate::paths::file_name_of(l.1[0]) == Some(
        "__init__.py"@,
    ) {
        let config_file = joined(app_dir_of(l.1[0]), "apps.py"@);
        if files.contains(config_file) {
            default_config_view(
                entry,
                module,
                config_file,
                base,
                source_of(sources, config_file),
                root,
                search_paths,
                files,
                dirs,
            )
        } else {
            base
        }
    } else {
        base
    }
}

fn direct_installed_app(
    entry: &str,
    module: &PyModuleName,
    resolution: &ModuleResolution,
    project_root: &str,
    search_paths: &Vec<ModuleSearchPathEntry>,
    files: &Vec<String>,
    dirs: &Vec<String>,
    sources: &Vec<(String, ModuleSource)>,
) -> (r: InstalledAppFact)
    ensures
        installed_view(r) == direct_app_view(
            entry@,
            module@,
            lookup_view(resolution.resolved),
            project_root@,
            search_paths@,
            views(files@),
            views(dirs@),
            sources@,
        ),
{
    let module_fact = module_fact_from_resolution(module, &resolution.resolved);
    let path = app_path_fact_from_resolution(&resolution.resolved);
    let app = InstalledAppFact { entry: entry.to_string(), module: module_fact, path, config: None };
    let resolved = match resolution.resolved.value() {
        Some(resolved) => resolved,
        None => {
            return app;
        },
    };
    let is_package = match crate::paths::path_file_name(resolved.file.as_str()) {
        Some(n) => str_eq(n.as_str(), "__init__.py"),
        None => false,
    };
    if !is_package {
        return app;
    }
    let app_path = app_path_from_resolved(resolved);
    let config_file = path_join(app_path.as_str(), "apps.py");
    if !contains_str(files, config_file.as_str()) {
        return app;
    }
    resolve_default_app_config(
        entry,
        module,
        config_file.as_str(),
        app,
        project_root,
        search_paths,
        files,
        dirs,
        sources,
    )
}

/// An entry that does not import as a module, read as `<module>.<class>`: the
/// `AppConfig` class `<class>` of `<module>` describes the app. `Err` holds
/// the reasons when that fails: those the direct lookup gave (`direct`), then
/// why the class could not be had. An entry without a dot, or whose last
/// segment is blank, fails with `direct` alone.
pub open spec fn config_entry_view(
    entry: Seq<char>,
    direct: Seq<ReasonView>,
    root: Seq<char>,
    search_paths: Seq<ModuleSearchPathEntry>,
    files: Seq<Seq<char>>,
    dirs: Seq<Seq<char>>,
    sources: Seq<(String, ModuleSource)>,
) -> Result<InstalledAppView, Seq<ReasonView>> {
    let k = crate::libraries::segment_start(entry);
    let raw = entry.subrange(0, k - 1);
    let class_name = entry.subrange(k, entry.len() as int);
    if k == 0 || crate::modules::trimmed(class_name).len() == 0 {
        Err(direct)
    } else if !is_dotted_name(raw) {
        Err(
            direct.push(
                ReasonView {
                    field: Field::AppsConfig,
                    source: SourceView::Unknown,
                    message: "AppConfig module path is invalid: "@ + name_error_message(raw),
                },
            ),
        )
    } else {
        let l = crate::modules::resolution_view(raw, search_paths, files);
        if l.0 == Confidence::Unknown || l.0 == Confidence::Ambiguous {
            Err(direct + l.2)
        } else {
            let file = l.1[0];
            match source_of(sources, file) {
                None => Err(direct.push(config_reason(file, "failed to read AppConfig module: "@))),
                Some(ModuleSource::Unreadable(e)) => Err(
                    direct.push(config_reason(file, "failed to read AppConfig module: "@ + e@)),
                ),
                Some(ModuleSource::Unparsable(e)) => Err(
                    direct.push(config_reason(file, "failed to parse AppConfig module: "@ + e@)),
                ),
                Some(ModuleSource::Parsed(body)) => if is_config_class(body@, class_name) && first_class(
                    body@,
                    class_name,
                ) is Some {
                    Ok(
                        config_app_view(
                            entry,
                            raw,
                            body@[first_class(body@, class_name).unwrap()],
                            file,
                            l.2,
                            root,
                            search_paths,
                            files,
                            dirs,
                        ),
                    )
                } else {
                    Err(
                        direct.push(
                            config_reason(
                                file,
                                "AppConfig class `"@ + class_name
                                    + "` was not found or does not inherit from AppConfig"@,
                            ),
                        ),
                    )
                },
            }
        }
    }
}

fn resolve_app_config_entry(
    entry: &str,
    direct_reasons: Vec<Reason>,
    project_root: &str,
    search_paths: &Vec<ModuleSearchPathEntry>,
    files: &Vec<String>,
    dirs: &Vec<String>,
    sources: &Vec<(String, ModuleSource)>,
) -> (r: Result<InstalledAppFact, Vec<Reason>>)
    ensures
        match (
            r,
            config_entry_view(
                entry@,
                reason_views(direct_reasons@),
                project_root@,
                search_paths@,
                views(files@),
                views(dirs@),
                sources@,
            ),
        ) {
            (Ok(a), Ok(v)) => installed_view(a) == v,
            (Err(rs), Err(v)) => reason_views(rs@) == v,
            _ => false,
        },
{
    let ghost direct = reason_views(direct_reasons@);
    let k = crate::libraries::segment_start_exec(entry);
    if k == 0 {
        return Err(direct_reasons);
    }
    proof {
        crate::libraries::lemma_segment_start(entry@);
    }
    let raw = entry.substring_char(0, k - 1);
    let class_name = entry.substring_char(k, entry.unicode_len());
    if crate::modules::trim(class_name).unicode_len() == 0 {
        return Err(direct_reasons);
    }
    let config_module = match PyModuleName::parse(raw) {
        Ok(m) => m,
        Err(error) => {
            let mut reasons = direct_reasons;
            let message = concat("AppConfig module path is invalid: ", error.message().as_str());
            reasons.push(Reason::new(Field::AppsConfig, ReasonSource::Unknown, message));
            assert(reason_views(reasons@) =~= direct.push(reasons@.last()@));
            return Err(reasons);
        },
    };
    let resolution = resolve_module(config_module.duplicate(), search_paths, project_root, files);
    proof {
        crate::modules::lemma_resolution_view(config_module, search_paths@, project_root@, views(files@), resolution);
        assert(lookup_view(resolution.resolved) == crate::modules::resolved_view(resolution.resolved));
    }
    let (config_file, config_reasons) = match &resolution.resolved {
        Fact::Known { value } => (value.file.clone(), Vec::new()),
        Fact::Partial { value, reasons } => (value.file.clone(), duplicate_reasons(reasons)),
        Fact::Unknown { reasons } => {
            let mut all = direct_reasons;
            let mut extra = duplicate_reasons(reasons);
            all.append(&mut extra);
            assert(reason_views(all@) =~= direct + reason_views(reasons@));
            return Err(all);
        },
        Fact::Ambiguous { reasons, .. } => {
            let mut all = direct_reasons;
            let mut extra = duplicate_reasons(reasons);
            all.append(&mut extra);
            assert(reason_views(all@) =~= direct + reason_views(reasons@));
            return Err(all);
        },
    };
    let file = config_file.as_str();
    let fail = |message: String| -> (rs: Vec<Reason>)
        ensures
            reason_views(rs@) == direct.push(config_reason(file@, message@)),
        {
            let mut reasons = direct_reasons;
            reasons.push(config_file_reason(file, message.as_str()));
            assert(reason_views(reasons@) =~= direct.push(config_reason(file@, message@)));
            reasons
        };
    match find_source(sources, file) {
        None => Err(fail("failed to read AppConfig module: ".to_string())),
        Some(ModuleSource::Unreadable(e)) => Err(fail(concat("failed to read AppConfig module: ", e.as_str()))),
        Some(ModuleSource::Unparsable(e)) => Err(fail(concat("failed to parse AppConfig module: ", e.as_str()))),
        Some(ModuleSource::Parsed(body)) => {
            let names = app_config_class_names(body);
            let found = if contains_str(&names, class_name) {
                find_first_class(body, class_name)
            } else {
                None
            };
            match found {
                Some(i) => {
                    proof {
                        lemma_first_class(body@, class_name@);
                    }
                    Ok(
                        app_config_installed_app(
                            entry,
                            config_module,
                            body,
                            i,
                            file,
                            config_reasons,
                            project_root,
                            search_paths,
                            files,
                            dirs,
                        ),
                    )
                },
                None => {
                    let head = concat("AppConfig class `", class_name);
                    Err(fail(concat(head.as_str(), "` was not found or does not inherit from AppConfig")))
                },
            }
        },
    }
}

/// The app an `INSTALLED_APPS` entry names. An entry that is no dotted name
/// is unknown. One that imports as a module is that module (see
/// [`direct_app_view`]); failing that, it is read as `<module>.<class>` (see
/// [`config_entry_view`]), and when that fails too the app is unknown for the
/// reasons gathered.
pub open spec fn entry_view(
    entry: Seq<char>,
    root: Seq<char>,
    search_paths: Seq<ModuleSearchPathEntry>,
    files: Seq<Seq<char>>,
    dirs: Seq<Seq<char>>,
    sources: Seq<(String, ModuleSource)>,
) -> InstalledAppView {
    if !is_dotted_name(entry) {
        unknown_app_view(
            entry,
            seq![
                ReasonView {
                    field: Field::AppsInstalled,
                    source: SourceView::Unknown,
                    message: "installed app entry is not a valid Python module path: "@ + name_error_message(entry),
                },
            ],
        )
    } else {
        let l = crate::modules::resolution_view(entry, search_paths, files);
        if l.0 == Confidence::Unknown {
            match config_entry_view(entry, l.2, root, search_paths, files, dirs, sources) {
                Ok(a) => a,
                Err(rs) => unknown_app_view(entry, rs),
            }
        } else {
            direct_app_view(entry, entry, l, root, search_paths, files, dirs, sources)
        }
    }
}

fn resolve_installed_app_entry(
    entry: &str,
    project_root: &str,
    search_paths: &Vec<ModuleSearchPathEntry>,
    files: &Vec<String>,
    dirs: &Vec<String>,
    sources: &Vec<(String, ModuleSource)>,
) -> (r: InstalledAppFact)
    ensures
        installed_view(r) == entry_view(entry@, project_root@, search_paths@, views(files@), views(dirs@), sources@),
{
    let entry_module = match PyModuleName::parse(entry) {
        Ok(m) => m,
        Err(error) => {
            let message = concat("installed app entry is not a valid Python module path: ", error.message().as_str());
            let reasons = vec![Reason::new(Field::AppsInstalled, ReasonSource::Unknown, message)];
            assert(reason_views(reasons@) =~= seq![reasons@[0]@]);
            return unknown_installed_app(entry, reasons);
        },
    };
    let direct = resolve_module(entry_module.duplicate(), search_paths, project_root, files);
    proof {
        crate::modules::lemma_resolution_view(entry_module, search_paths@, project_root@, views(files@), direct);
        assert(lookup_view(direct.resolved) == crate::modules::resolved_view(direct.resolved));
    }
    match &direct.resolved {
        Fact::Unknown { reasons } => {
            match resolve_app_config_entry(
                entry,
                duplicate_reasons(reasons),
                project_root,
                search_paths,
                files,
                dirs,
                sources,
            ) {
                Ok(app) => app,
                Err(rs) => unknown_installed_app(entry, rs),
            }
        },
        _ => direct_installed_app(entry, &entry_module, &direct, project_root, search_paths, files, dirs, sources),
    }
}

// ---- the registry ----

/// The reasons an installed app carries: those of its module, its path, and
/// its `AppConfig`'s name, label and path, each once.
pub open spec fn app_reasons(a: InstalledAppView) -> Seq<ReasonView> {
    let rs = with_unique(with_unique(Seq::empty(), a.module.3), a.path.3);
    match a.config {
        Some(c) => with_unique(with_unique(with_unique(rs, c.name.3), c.label.3), c.path.3),
        None => rs,
    }
}

fn installed_app_reasons(app: &InstalledAppFact) -> (r: Vec<Reason>)
    ensures
        reason_views(r@) == app_reasons(installed_view(*app)),
{
    let mut reasons: Vec<Reason> = Vec::new();
    assert(reason_views(reasons@) =~= Seq::<ReasonView>::empty());
    extend_unique_reasons(&mut reasons, &duplicate_slice(app.module.reasons()));
    extend_unique_reasons(&mut reasons, &duplicate_slice(app.path.reasons()));
    match &app.config {
        Some(config) => {
            extend_unique_reasons(&mut reasons, &duplicate_slice(config.name.reasons()));
            extend_unique_reasons(&mut reasons, &duplicate_slice(config.label.reasons()));
            extend_unique_reasons(&mut reasons, &duplicate_slice(config.path.reasons()));
        },
        None => {},
    }
    reasons
}

/// The reasons of all the apps, app after app.
pub open spec fn all_app_reasons(apps: Seq<InstalledAppView>) -> Seq<ReasonView>
    decreases apps.len(),
{
    if apps.len() == 0 {
        Seq::empty()
    } else {
        all_app_reasons(apps.drop_last()) + app_reasons(apps.last())
    }
}

/// An app of the registry by views.
pub struct AppView {
    pub entry: Seq<char>,
    pub module: Seq<char>,
    pub path: Seq<char>,
    pub config: Option<ConfigView>,
}

pub open spec fn app_view(a: AppFact) -> AppView {
    AppView {
        entry: a.entry@,
        module: a.module@,
        path: a.path@,
        config: match a.config {
            Some(c) => Some(config_view(c)),
            None => None,
        },
    }
}

/// An installed app enters the registry when its module and its path are
/// both had.
pub open spec fn promoted(a: InstalledAppView) -> Option<AppView> {
    match (a.module.1, a.path.1) {
        (Some(m), Some(p)) => Some(AppView { entry: a.entry, module: m, path: p, config: a.config }),
        _ => None,
    }
}

/// The apps of the registry, in the order of the installed apps.
pub open spec fn promoted_all(apps: Seq<InstalledAppView>) -> Seq<AppView>
    decreases apps.len(),
{
    if apps.len() == 0 {
        Seq::empty()
    } else {
        match promoted(apps.last()) {
            Some(p) => promoted_all(apps.drop_last()).push(p),
            None => promoted_all(apps.drop_last()),
        }
    }
}

fn duplicate_config(c: &AppConfigFact) -> (r: AppConfigFact)
    ensures
        config_view(r) == config_view(*c),
{
    AppConfigFact {
        module: c.module.duplicate(),
        file: c.file.clone(),
        class_name: c.class_name.clone(),
        name: duplicate_module_fact(&c.name),
        label: duplicate_string_fact(&c.label),
        path: duplicate_string_fact(&c.path),
    }
}

fn promote_installed_app(app: &InstalledAppFact) -> (r: Option<AppFact>)
    ensures
        match r {
            Some(p) => promoted(installed_view(*app)) == Some(app_view(p)),
            None => promoted(installed_view(*app)) is None,
        },
{
    let module = match app.module.value() {
        Some(m) => m.duplicate(),
        None => {
            return None;
        },
    };
    let path = match app.path.value() {
        Some(p) => p.clone(),
        None => {
            return None;
        },
    };
    let config = match &app.config {
        Some(c) => Some(duplicate_config(c)),
        None => None,
    };
    Some(AppFact { entry: app.entry.clone(), module, path, config })
}

/// The installed apps and the registry that a settings file's
/// `INSTALLED_APPS` gives.
#[derive(Debug)]
pub struct AppRegistryFacts {
    pub installed_apps: Fact<Vec<InstalledAppFact>>,
    pub app_registry: Fact<Vec<AppFact>>,
}

pub open spec fn installed_views(s: Seq<InstalledAppFact>) -> Seq<InstalledAppView> {
    s.map_values(|a: InstalledAppFact| installed_view(a))
}

pub open spec fn app_views(s: Seq<AppFact>) -> Seq<AppView> {
    s.map_values(|a: AppFact| app_view(a))
}

/// A list fact by views: confidence, items, reasons.
pub type ListView<V> = (Confidence, Option<Seq<V>>, Seq<ReasonView>);

pub open spec fn installed_list_view(f: Fact<Vec<InstalledAppFact>>) -> ListView<InstalledAppView> {
    (
        f.confidence_spec(),
        match f.value_spec() {
            Some(v) => Some(installed_views(v@)),
            None => None,
        },
        reason_views(f.reasons_spec()),
    )
}

pub open spec fn app_list_view(f: Fact<Vec<AppFact>>) -> ListView<AppView> {
    (
        f.confidence_spec(),
        match f.value_spec() {
            Some(v) => Some(app_views(v@)),
            None => None,
        },
        reason_views(f.reasons_spec()),
    )
}

/// The list `items`: known without reasons, partial with them.
pub open spec fn known_or_partial_view<V>(items: Seq<V>, rs: Seq<ReasonView>) -> ListView<V> {
    (if rs.len() == 0 { Confidence::Known } else { Confidence::Partial }, Some(items), rs)
}

pub open spec fn entry_views(
    entries: Seq<Seq<char>>,
    root: Seq<char>,
    search_paths: Seq<ModuleSearchPathEntry>,
    files: Seq<Seq<char>>,
    dirs: Seq<Seq<char>>,
    sources: Seq<(String, ModuleSource)>,
) -> Seq<InstalledAppView> {
    entries.map_values(|e: Seq<char>| entry_view(e, root, search_paths, files, dirs, sources))
}

/// The installed apps and the registry for the entries `entries`, with the
/// reasons `input` the entries came with: each entry gives an installed app;
/// the registry holds those whose module and path are had; both lists carry
/// `input` and then every app's reasons.
pub open spec fn registry_view(
    entries: Seq<Seq<char>>,
    input: Seq<ReasonView>,
    root: Seq<char>,
    search_paths: Seq<ModuleSearchPathEntry>,
    files: Seq<Seq<char>>,
    dirs: Seq<Seq<char>>,
    sources: Seq<(String, ModuleSource)>,
) -> (ListView<InstalledAppView>, ListView<AppView>) {
    let apps = entry_views(entries, root, search_paths, files, dirs, sources);
    let rs = input + all_app_reasons(apps);
    (known_or_partial_view(apps, rs), known_or_partial_view(promoted_all(apps), rs))
}

fn resolve_installed_app_entries(
    entries: &Vec<String>,
    input_reasons: Vec<Reason>,
    project_root: &str,
    search_paths: &Vec<ModuleSearchPathEntry>,
    files: &Vec<String>,
    dirs: &Vec<String>,
    sources: &Vec<(String, ModuleSource)>,
) -> (r: AppRegistryFacts)
    ensures
        (installed_list_view(r.installed_apps), app_list_view(r.app_registry)) == registry_view(
            views(entries@),
            reason_views(input_reasons@),
            project_root@,
            search_paths@,
            views(files@),
            views(dirs@),
            sources@,
        ),
{
    let ghost input = reason_views(input_reasons@);
    let ghost ev = entry_views(views(entries@), project_root@, search_paths@, views(files@), views(dirs@), sources@);
    let mut apps: Vec<InstalledAppFact> = Vec::new();
    let mut reasons = input_reasons;
    let mut i: usize = 0;
    assert(installed_views(apps@) =~= ev.take(0));
    assert(reason_views(reasons@) =~= input + all_app_reasons(installed_views(apps@)));
    while i < entries.len()
        invariant
            i <= entries.len(),
            ev == entry_views(views(entries@), project_root@, search_paths@, views(files@), views(dirs@), sources@),
            installed_views(apps@) == ev.take(i as int),
            reason_views(reasons@) == input + all_app_reasons(installed_views(apps@)),
        decreases entries.len() - i,
    {
        let app = resolve_installed_app_entry(entries[i].as_str(), project_root, search_paths, files, dirs, sources);
        let ghost before = installed_views(apps@);
        let ghost rs0 = reason_views(reasons@);
        let mut extra = installed_app_reasons(&app);
        let ghost ex = reason_views(extra@);
        reasons.append(&mut extra);
        apps.push(app);
        assert(installed_views(apps@) =~= before.push(installed_view(app)));
        assert(installed_views(apps@).drop_last() =~= before);
        assert(ev.take(i + 1) =~= ev.take(i as int).push(ev[i as int]));
        assert(reason_views(reasons@) =~= rs0 + ex);
        assert(input + all_app_reasons(installed_views(apps@)) =~= (input + all_app_reasons(before)) + ex);
        i = i + 1;
    }
    assert(ev.take(i as int) =~= ev);
    let ghost iv = installed_views(apps@);
    let mut registry: Vec<AppFact> = Vec::new();
    let mut j: usize = 0;
    assert(app_views(registry@) =~= promoted_all(iv.take(0)));
    while j < apps.len()
        invariant
            j <= apps.len(),
            iv == installed_views(apps@),
            app_views(registry@) == promoted_all(iv.take(j as int)),
        decreases apps.len() - j,
    {
        assert(iv.take(j + 1).drop_last() =~= iv.take(j as int));
        assert(iv.take(j + 1).last() == installed_view(apps@[j as int]));
        match promote_installed_app(&apps[j]) {
            Some(p) => {
                let ghost before = app_views(registry@);
                registry.push(p);
                assert(app_views(registry@) =~= before.push(app_view(p)));
            },
            None => {},
        }
        j = j + 1;
    }
    assert(iv.take(j as int) =~= iv);
    let installed_reasons = duplicate_reasons(&reasons);
    let r = AppRegistryFacts {
        installed_apps: crate::facts::known_or_partial(apps, installed_reasons),
        app_registry: crate::facts::known_or_partial(registry, reasons),
    };
    assert(installed_list_view(r.installed_apps).2 =~= reason_views(reasons@));
    assert(app_list_view(r.app_registry).2 =~= reason_views(reasons@));
    r
}

/// The installed apps and the app registry that the `INSTALLED_APPS` fact
/// `installed_apps` gives, looked up in `search_paths` among the existing
/// `files` and directories `dirs`, with the Python sources read in `sources`.
/// A known or partial list resolves entry by entry (see [`registry_view`]);
/// an unknown or ambiguous one leaves both lists unknown for its reasons.
pub fn resolve_app_registry(
    installed_apps: &Fact<Vec<String>>,
    project_root: &str,
    search_paths: &Vec<ModuleSearchPathEntry>,
    files: &Vec<String>,
    dirs: &Vec<String>,
    sources: &Vec<(String, ModuleSource)>,
) -> (r: AppRegistryFacts)
    ensures
        match installed_apps.value_spec() {
            Some(entries) => (installed_list_view(r.installed_apps), app_list_view(r.app_registry))
                == registry_view(
                views(entries@),
                reason_views(installed_apps.reasons_spec()),
                project_root@,
                search_paths@,
                views(files@),
                views(dirs@),
                sources@,
            ),
            None => {
                &&& installed_list_view(r.installed_apps) == (
                    Confidence::Unknown,
                    None::<Seq<InstalledAppView>>,
                    reason_views(installed_apps.reasons_spec()),
                )
                &&& app_list_view(r.app_registry) == (
                    Confidence::Unknown,
                    None::<Seq<AppView>>,
                    reason_views(installed_apps.reasons_spec()),
                )
            },
        },
{
    match installed_apps {
        Fact::Known { value } => {
            let none: Vec<Reason> = Vec::new();
            assert(reason_views(none@) =~= reason_views(installed_apps.reasons_spec()));
            resolve_installed_app_entries(value, none, project_root, search_paths, files, dirs, sources)
        },
        Fact::Partial { value, reasons } => resolve_installed_app_entries(
            value,
            duplicate_reasons(reasons),
            project_root,
            search_paths,
            files,
            dirs,
            sources,
        ),
        Fact::Unknown { reasons } => AppRegistryFacts {
            installed_apps: Fact::Unknown { reasons: duplicate_reasons(reasons) },
            app_registry: Fact::Unknown { reasons: duplicate_reasons(reasons) },
        },
        Fact::Ambiguous { reasons, .. } => AppRegistryFacts {
            installed_apps: Fact::Unknown { reasons: duplicate_reasons(reasons) },
            app_registry: Fact::Unknown { reasons: duplicate_reasons(reasons) },
        },
    }
}

// ---- laws ----

/// Every app an entry gives carries that entry.
proof fn lemma_entry_view_entry(
    entry: Seq<char>,
    root: Seq<char>,
    search_paths: Seq<ModuleSearchPathEntry>,
    files: Seq<Seq<char>>,
    dirs: Seq<Seq<char>>,
    sources: Seq<(String, ModuleSource)>,
)
    ensures
        entry_view(entry, root, search_paths, files, dirs, sources).entry == entry,
{
}

/// Each entry of `INSTALLED_APPS` gives exactly one installed app, in order,
/// carrying that entry: an entry that cannot be resolved does not stop the
/// others.
pub proof fn law_one_installed_app_per_entry(
    entries: Seq<Seq<char>>,
    input: Seq<ReasonView>,
    root: Seq<char>,
    search_paths: Seq<ModuleSearchPathEntry>,
    files: Seq<Seq<char>>,
    dirs: Seq<Seq<char>>,
    sources: Seq<(String, ModuleSource)>,
)
    ensures
        registry_view(entries, input, root, search_paths, files, dirs, sources).0.1 matches Some(apps) && apps.len()
            == entries.len() && forall|i: int| 0 <= i < entries.len() ==> (#[trigger] apps[i]).entry == entries[i],
{
    let apps = entry_views(entries, root, search_paths, files, dirs, sources);
    assert forall|i: int| 0 <= i < entries.len() implies (#[trigger] apps[i]).entry == entries[i] by {
        lemma_entry_view_entry(entries[i], root, search_paths, files, dirs, sources);
    }
}

/// The apps of the registry are the installed apps whose module and path are
/// had, in order.
proof fn lemma_promoted_all(apps: Seq<InstalledAppView>)
    ensures
        promoted_all(apps).len() <= apps.len(),
        forall|j: int|
            #![trigger promoted_all(apps)[j]]
            0 <= j < promoted_all(apps).len() ==> exists|i: int|
                0 <= i < apps.len() && promoted(#[trigger] apps[i]) == Some(promoted_all(apps)[j]),
        forall|i: int| 0 <= i < apps.len() && #[trigger] promoted(apps[i]) is Some ==> promoted_all(apps).contains(
            promoted(apps[i])->0,
        ),
    decreases apps.len(),
{
    if apps.len() > 0 {
        let rest = apps.drop_last();
        lemma_promoted_all(rest);
        let pr = promoted_all(apps);
        let pr0 = promoted_all(rest);
        assert forall|j: int| #![trigger pr[j]] 0 <= j < pr.len() implies exists|i: int|
            0 <= i < apps.len() && promoted(#[trigger] apps[i]) == Some(pr[j]) by {
            if j < pr0.len() {
                let i = choose|i: int| 0 <= i < rest.len() && promoted(#[trigger] rest[i]) == Some(pr0[j]);
                assert(apps[i] == rest[i]);
            } else {
                assert(promoted(apps[apps.len() - 1]) == Some(pr[j]));
            }
        }
        assert forall|i: int| 0 <= i < apps.len() && #[trigger] promoted(apps[i]) is Some implies pr.contains(
            promoted(apps[i])->0,
        ) by {
            if i < rest.len() {
                assert(apps[i] == rest[i]);
                let k = choose|k: int| 0 <= k < pr0.len() && pr0[k] == promoted(rest[i])->0;
                assert(pr[k] == pr0[k]);
            } else {
                assert(pr[pr.len() - 1] == promoted(apps[i])->0);
            }
        }
    }
}

/// The registry holds an app exactly for each installed app whose module and
/// path are both had, and nothing else; both lists carry the same reasons and
/// are equally sure.
pub proof fn law_registry_is_the_resolved_installed_apps(
    entries: Seq<Seq<char>>,
    input: Seq<ReasonView>,
    root: Seq<char>,
    search_paths: Seq<ModuleSearchPathEntry>,
    files: Seq<Seq<char>>,
    dirs: Seq<Seq<char>>,
    sources: Seq<(String, ModuleSource)>,
)
    ensures
        ({
            let (installed, registry) = registry_view(entries, input, root, search_paths, files, dirs, sources);
            &&& installed.0 == registry.0
            &&& installed.2 == registry.2
            &&& installed.1 matches Some(apps) && registry.1 matches Some(reg) && {
                &&& reg.len() <= apps.len()
                &&& forall|j: int|
                    #![trigger reg[j]]
                    0 <= j < reg.len() ==> exists|i: int|
                        0 <= i < apps.len() && promoted(#[trigger] apps[i]) == Some(reg[j])
                &&& forall|i: int|
                    0 <= i < apps.len() && (#[trigger] apps[i]).module.1 is Some && apps[i].path.1 is Some
                        ==> reg.contains(promoted(apps[i])->0)
            }
        }),
{
    let apps = entry_views(entries, root, search_paths, files, dirs, sources);
    lemma_promoted_all(apps);
    assert forall|i: int|
        0 <= i < apps.len() && (#[trigger] apps[i]).module.1 is Some && apps[i].path.1 is Some implies promoted_all(
        apps,
    ).contains(promoted(apps[i])->0) by {
        assert(promoted(apps[i]) is Some);
    }
}

} // verus!
