//! Reading Django settings without running them: literal `INSTALLED_APPS` and
//! `TEMPLATES`, simple template directory path expressions, star imports and
//! list mutations. Shapes it cannot follow make a fact partial or unknown.
use vstd::prelude::*;

use crate::paths::{
    ancestor, clean_path, cleaned, is_absolute_path, joined, nth_parent, opt_view, parent_of,
    path_is_absolute, path_join, path_parent,
};
use crate::facts::{
    finalize_setting_fact, SettingsFacts,
    add_reasons, append_vec_fact, extend_vec_fact, extend_vec_items, extended, insert_vec_fact,
    insert_vec_fact_from_fact, inserted, known_or_partial, Confidence, Fact, Field, Reason,
    ReasonSource,
};
use crate::facts::{
    TemplateBackendFact, TemplateDirFact, TemplateDirSource, TemplateLibraryFact,
    TemplateLibrarySource,
};
use crate::names::{name_error_message, LibraryName, PyModuleName};
use crate::pyast::{DictItem, Expr, Operator, Stmt};
use crate::path_order::{sort_unique_paths, sorted_unique_paths};
use crate::text::{concat, str_eq, views};

verus! {

broadcast use vstd::std_specs::vec::group_vec_axioms;

/// `expr` is the name `expected`.
pub open spec fn is_name_spec(expr: Expr, expected: Seq<char>) -> bool {
    expr matches Expr::Name { id } && id@ == expected
}

pub fn is_name(expr: &Expr, expected: &str) -> (r: bool)
    ensures
        r == is_name_spec(*expr, expected@),
{
    match expr {
        Expr::Name { id } => str_eq(id.as_str(), expected),
        _ => false,
    }
}

/// The value of a string literal.
pub open spec fn string_literal_spec(expr: Expr) -> Option<Seq<char>> {
    match expr {
        Expr::StringLiteral { value } => Some(value@),
        _ => None,
    }
}

pub fn string_literal(expr: &Expr) -> (r: Option<String>)
    ensures
        opt_view(r) == string_literal_spec(*expr),
{
    match expr {
        Expr::StringLiteral { value } => Some(value.clone()),
        _ => None,
    }
}

/// The elements of a list or tuple display.
pub open spec fn collection_elements_spec(expr: Expr) -> Option<Seq<Expr>> {
    match expr {
        Expr::List { elts } => Some(elts@),
        Expr::Tuple { elts } => Some(elts@),
        _ => None,
    }
}

pub fn collection_elements(expr: &Expr) -> (r: Option<&Vec<Expr>>)
    ensures
        match r {
            Some(v) => collection_elements_spec(*expr) == Some(v@),
            None => collection_elements_spec(*expr) is None,
        },
{
    match expr {
        Expr::List { elts } => Some(elts),
        Expr::Tuple { elts } => Some(elts),
        _ => None,
    }
}

/// `item` has the string literal key `key`.
pub open spec fn item_has_key(item: DictItem, key: Seq<char>) -> bool {
    match item.key {
        Some(k) => string_literal_spec(k) == Some(key),
        None => false,
    }
}

/// The value of the first item with string key `key`.
pub open spec fn dict_value_spec(items: Seq<DictItem>, key: Seq<char>) -> Option<Expr>
    decreases items.len(),
{
    if items.len() == 0 {
        None
    } else if item_has_key(items[0], key) {
        Some(items[0].value)
    } else {
        dict_value_spec(items.skip(1), key)
    }
}

proof fn lemma_dict_value_skip(items: Seq<DictItem>, key: Seq<char>, i: int)
    requires
        0 <= i <= items.len(),
        forall|j: int| 0 <= j < i ==> !item_has_key(#[trigger] items[j], key),
    ensures
        dict_value_spec(items, key) == dict_value_spec(items.skip(i), key),
    decreases i,
{
    if i > 0 {
        assert(!item_has_key(items[0], key));
        assert forall|j: int| 0 <= j < i - 1 implies !item_has_key(#[trigger] items.skip(1)[j], key) by {
            assert(items.skip(1)[j] == items[j + 1]);
        }
        lemma_dict_value_skip(items.skip(1), key, i - 1);
        assert(items.skip(1).skip(i - 1) =~= items.skip(i));
    } else {
        assert(items.skip(0) =~= items);
    }
}

pub fn dict_value<'a>(items: &'a Vec<DictItem>, key: &str) -> (r: Option<&'a Expr>)
    ensures
        match r {
            Some(v) => dict_value_spec(items@, key@) == Some(*v),
            None => dict_value_spec(items@, key@) is None,
        },
{
    let mut i: usize = 0;
    while i < items.len()
        invariant
            i <= items.len(),
            forall|j: int| 0 <= j < i ==> !item_has_key(#[trigger] items@[j], key@),
        decreases items.len() - i,
    {
        let item = &items[i];
        let matches = match &item.key {
            Some(k) => match string_literal(k) {
                Some(s) => str_eq(s.as_str(), key),
                None => false,
            },
            None => false,
        };
        if matches {
            proof {
                lemma_dict_value_skip(items@, key@, i as int);
                assert(item_has_key(items@[i as int], key@));
                assert(items@.skip(i as int)[0] == items@[i as int]);
            }
            return Some(&item.value);
        }
        i = i + 1;
    }
    proof {
        lemma_dict_value_skip(items@, key@, items@.len() as int);
        assert(items@.skip(items@.len() as int).len() == 0);
    }
    None
}

/// The value of an integer literal that fits a `usize`.
pub open spec fn integer_literal_spec(expr: Expr) -> Option<usize> {
    match expr {
        Expr::IntLiteral { value } => value,
        _ => None,
    }
}

pub fn integer_literal(expr: &Expr) -> (r: Option<usize>)
    ensures
        r == integer_literal_spec(*expr),
{
    match expr {
        Expr::IntLiteral { value } => *value,
        _ => None,
    }
}

/// The dotted name an expression spells: `os.path.join` for nested attributes
/// on a name.
pub open spec fn dotted_name_spec(expr: Expr) -> Option<Seq<char>>
    decreases expr,
{
    match expr {
        Expr::Name { id } => Some(id@),
        Expr::Attribute { value, attr } => match dotted_name_spec(*value) {
            Some(d) => Some(d + "."@ + attr@),
            None => None,
        },
        _ => None,
    }
}

pub fn dotted_name(expr: &Expr) -> (r: Option<String>)
    ensures
        opt_view(r) == dotted_name_spec(*expr),
    decreases expr,
{
    match expr {
        Expr::Name { id } => Some(id.clone()),
        Expr::Attribute { value, attr } => match dotted_name(value) {
            Some(d) => {
                let with_dot = concat(d.as_str(), ".");
                Some(concat(with_dot.as_str(), attr.as_str()))
            },
            None => None,
        },
        _ => None,
    }
}

/// `os.pardir` and `os.curdir` (also under `os.path`).
pub open spec fn path_constant_spec(expr: Expr) -> Option<Seq<char>> {
    match dotted_name_spec(expr) {
        Some(d) => if d == "os.pardir"@ || d == "os.path.pardir"@ {
            Some(".."@)
        } else if d == "os.curdir"@ || d == "os.path.curdir"@ {
            Some("."@)
        } else {
            None
        },
        None => None,
    }
}

pub fn path_constant(expr: &Expr) -> (r: Option<String>)
    ensures
        opt_view(r) == path_constant_spec(*expr),
{
    match dotted_name(expr) {
        Some(d) => {
            if str_eq(d.as_str(), "os.pardir") || str_eq(d.as_str(), "os.path.pardir") {
                Some("..".to_string())
            } else if str_eq(d.as_str(), "os.curdir") || str_eq(d.as_str(), "os.path.curdir") {
                Some(".".to_string())
            } else {
                None
            }
        },
        None => None,
    }
}

/// The paths assigned to names so far, later assignments winning.
pub open spec fn path_map(v: Seq<(String, String)>) -> Map<Seq<char>, Seq<char>>
    decreases v.len(),
{
    if v.len() == 0 {
        Map::empty()
    } else {
        path_map(v.drop_last()).insert(v.last().0@, v.last().1@)
    }
}

proof fn lemma_path_map_lookup(v: Seq<(String, String)>, key: Seq<char>, j: int)
    requires
        0 <= j < v.len(),
        v[j].0@ == key,
        forall|k: int| j < k < v.len() ==> (#[trigger] v[k]).0@ != key,
    ensures
        path_map(v).contains_key(key),
        path_map(v)[key] == v[j].1@,
    decreases v.len(),
{
    if j < v.len() - 1 {
        lemma_path_map_lookup(v.drop_last(), key, j);
    }
}

proof fn lemma_path_map_missing(v: Seq<(String, String)>, key: Seq<char>)
    requires
        forall|k: int| 0 <= k < v.len() ==> (#[trigger] v[k]).0@ != key,
    ensures
        !path_map(v).contains_key(key),
    decreases v.len(),
{
    if v.len() > 0 {
        lemma_path_map_missing(v.drop_last(), key);
    }
}

/// The path last assigned to `name`.
pub fn lookup_path(values: &Vec<(String, String)>, name: &str) -> (r: Option<String>)
    ensures
        opt_view(r) == (if path_map(values@).contains_key(name@) {
            Some(path_map(values@)[name@])
        } else {
            None
        }),
{
    let mut i: usize = values.len();
    while i > 0
        invariant
            i <= values.len(),
            forall|k: int| i <= k < values.len() ==> (#[trigger] values@[k]).0@ != name@,
        decreases i,
    {
        i = i - 1;
        if str_eq(values[i].0.as_str(), name) {
            proof {
                lemma_path_map_lookup(values@, name@, i as int);
            }
            return Some(values[i].1.clone());
        }
    }
    proof {
        lemma_path_map_missing(values@, name@);
    }
    None
}

/// `e` is `left + right`.
pub open spec fn is_add(e: Expr) -> bool {
    e matches Expr::BinOp { op, .. } && op == Operator::Add
}

/// The path an expression evaluates to, where the evaluation can follow it:
/// string literals, `__file__`, names bound to paths, `os.pardir` and friends,
/// `+` of strings, `/` of paths, `.parent`, `.parents[n]`, `Path(..)`,
/// `.resolve()`, `.joinpath(..)` and `os.path.join`, `abspath`, `realpath`,
/// `normpath` and `dirname`.
pub open spec fn eval_path(e: Expr, vals: Map<Seq<char>, Seq<char>>, file: Seq<char>) -> Option<
    Seq<char>,
>
    decreases e, 3int, 0int,
{
    match e {
        Expr::StringLiteral { value } => Some(value@),
        Expr::Name { id } => if id@ == "__file__"@ {
            Some(file)
        } else if vals.contains_key(id@) {
            Some(vals[id@])
        } else {
            None
        },
        Expr::Attribute { value, attr } => if path_constant_spec(e) is Some {
            path_constant_spec(e)
        } else if attr@ == "parent"@ {
            match eval_path(*value, vals, file) {
                Some(p) => parent_of(p),
                None => None,
            }
        } else {
            None
        },
        Expr::BinOp { left, op, right } => if op == Operator::Add {
            eval_path_string(e, vals, file)
        } else if op == Operator::Div {
            match (eval_path(*left, vals, file), eval_path(*right, vals, file)) {
                (Some(l), Some(r)) => Some(joined(l, r)),
                _ => None,
            }
        } else {
            None
        },
        Expr::Subscript { value, slice } => match *value {
            Expr::Attribute { value: inner, attr } => if attr@ == "parents"@ {
                match (eval_path(*inner, vals, file), integer_literal_spec(*slice)) {
                    (Some(p), Some(k)) => nth_parent(p, (k + 1) as nat),
                    _ => None,
                }
            } else {
                None
            },
            _ => None,
        },
        Expr::Call { func, args, .. } => eval_call(e, vals, file),
        _ => None,
    }
}

/// The string a path expression evaluates to, concatenating `+` operands.
pub open spec fn eval_path_string(e: Expr, vals: Map<Seq<char>, Seq<char>>, file: Seq<char>) -> Option<
    Seq<char>,
>
    decreases e, if is_add(e) {
        0int
    } else {
        4int
    }, 0int,
{
    match e {
        Expr::StringLiteral { value } => Some(value@),
        Expr::Name { id } => if id@ == "__file__"@ {
            Some(file)
        } else if vals.contains_key(id@) {
            Some(vals[id@])
        } else {
            None
        },
        Expr::Attribute { .. } => if path_constant_spec(e) is Some {
            path_constant_spec(e)
        } else {
            eval_path(e, vals, file)
        },
        Expr::BinOp { left, op, right } => if op == Operator::Add {
            match (eval_path_string(*left, vals, file), eval_path_string(*right, vals, file)) {
                (Some(l), Some(r)) => Some(l + r),
                _ => None,
            }
        } else {
            eval_path(e, vals, file)
        },
        _ => eval_path(e, vals, file),
    }
}

/// The path `base` joined with the paths of the arguments of the call `e` from
/// the `k`-th on.
pub open spec fn eval_join_args(
    e: Expr,
    k: int,
    base: Seq<char>,
    vals: Map<Seq<char>, Seq<char>>,
    file: Seq<char>,
) -> Option<Seq<char>>
    decreases e, 1int, (match e {
        Expr::Call { args, .. } => args@.len() - k,
        _ => 0,
    }),
{
    match e {
        Expr::Call { args, .. } => if 0 <= k < args@.len() {
            match eval_path(args@[k], vals, file) {
                Some(part) => eval_join_args(e, k + 1, joined(base, part), vals, file),
                None => None,
            }
        } else {
            Some(base)
        },
        _ => None,
    }
}

/// The path of the first argument of the call `e`.
pub open spec fn eval_first_arg(e: Expr, vals: Map<Seq<char>, Seq<char>>, file: Seq<char>) -> Option<
    Seq<char>,
>
    decreases e, 1int, 0int,
{
    match e {
        Expr::Call { args, .. } => if args@.len() > 0 {
            eval_path(args@[0], vals, file)
        } else {
            None
        },
        _ => None,
    }
}

/// The path a call evaluates to.
pub open spec fn eval_call(e: Expr, vals: Map<Seq<char>, Seq<char>>, file: Seq<char>) -> Option<
    Seq<char>,
>
    decreases e, 2int, 0int,
{
    match e {
        Expr::Call { func, args, .. } => {
            let dotted = dotted_name_spec(*func);
            if is_name_spec(*func, "Path"@) {
                eval_first_arg(e, vals, file)
            } else if *func matches Expr::Attribute { value, attr } && attr@ == "resolve"@ {
                match *func {
                    Expr::Attribute { value, .. } => eval_path(*value, vals, file),
                    _ => None,
                }
            } else if *func matches Expr::Attribute { value, attr } && attr@ == "joinpath"@ {
                match *func {
                    Expr::Attribute { value, .. } => match eval_path(*value, vals, file) {
                        Some(base) => eval_join_args(e, 0, base, vals, file),
                        None => None,
                    },
                    _ => None,
                }
            } else if dotted == Some("os.path.join"@) {
                match eval_first_arg(e, vals, file) {
                    Some(base) => eval_join_args(e, 1, base, vals, file),
                    None => None,
                }
            } else if dotted == Some("os.path.abspath"@) || dotted == Some("os.path.realpath"@) {
                match eval_first_arg(e, vals, file) {
                    Some(p) => if is_absolute_path(p) {
                        Some(p)
                    } else {
                        None
                    },
                    None => None,
                }
            } else if dotted == Some("os.path.normpath"@) {
                match eval_first_arg(e, vals, file) {
                    Some(p) => Some(cleaned(p)),
                    None => None,
                }
            } else if dotted == Some("os.path.dirname"@) {
                match eval_first_arg(e, vals, file) {
                    Some(p) => parent_of(p),
                    None => None,
                }
            } else {
                None
            }
        },
        _ => None,
    }
}

/// `base` joined with each of `parts` in turn.
pub open spec fn joined_in_turn(base: Seq<char>, parts: Seq<Seq<char>>) -> Seq<char>
    decreases parts.len(),
{
    if parts.len() == 0 {
        base
    } else {
        joined_in_turn(joined(base, parts[0]), parts.drop_first())
    }
}

proof fn lemma_join_args_in_turn(
    e: Expr,
    k: int,
    base: Seq<char>,
    vals: Map<Seq<char>, Seq<char>>,
    file: Seq<char>,
    parts: Seq<Seq<char>>,
)
    requires
        e matches Expr::Call { args, .. } && args@.len() == parts.len() && 0 <= k <= parts.len() && (forall|i: int|
            0 <= i < parts.len() ==> eval_path(#[trigger] args@[i], vals, file) == Some(parts[i])),
    ensures
        eval_join_args(e, k, base, vals, file) == Some(joined_in_turn(base, parts.skip(k))),
    decreases parts.len() - k,
{
    if k < parts.len() {
        let args = match e {
            Expr::Call { args, .. } => args,
            _ => arbitrary(),
        };
        assert(eval_path(args@[k], vals, file) == Some(parts[k]));
        lemma_join_args_in_turn(e, k + 1, joined(base, parts[k]), vals, file, parts);
        assert(parts.skip(k).drop_first() =~= parts.skip(k + 1));
        assert(parts.skip(k)[0] == parts[k]);
    } else {
        assert(parts.skip(k) =~= Seq::<Seq<char>>::empty());
    }
}

/// `os.path.join(a0, a1, ..., an)` evaluates to the path of `a0` joined with
/// the path of every further argument in turn, the last one included.
pub proof fn law_os_path_join_joins_every_argument(
    func: Expr,
    args: Vec<Expr>,
    keywords: Vec<crate::pyast::Keyword>,
    vals: Map<Seq<char>, Seq<char>>,
    file: Seq<char>,
    parts: Seq<Seq<char>>,
)
    requires
        dotted_name_spec(func) == Some("os.path.join"@),
        args@.len() == parts.len(),
        parts.len() >= 1,
        forall|i: int| 0 <= i < parts.len() ==> eval_path(#[trigger] args@[i], vals, file) == Some(parts[i]),
    ensures
        eval_path(Expr::Call { func: Box::new(func), args, keywords }, vals, file) == Some(
            joined_in_turn(parts[0], parts.drop_first()),
        ),
{
    let e = Expr::Call { func: Box::new(func), args, keywords };
    reveal_strlit("os.path.join");
    reveal_strlit("resolve");
    reveal_strlit("joinpath");
    reveal_strlit(".");
    match func {
        Expr::Attribute { value, attr } => {
            let d = dotted_name_spec(*value)->0;
            let full = d + "."@ + attr@;
            assert(full == "os.path.join"@);
            if attr@ == "resolve"@ {
                assert(full[full.len() - 1] == 'e');
            }
            if attr@ == "joinpath"@ {
                assert(full[full.len() - 1] == 'h');
            }
        },
        _ => {},
    }
    reveal_strlit("Path");
    assert(!is_name_spec(func, "Path"@)) by {
        if is_name_spec(func, "Path"@) {
            assert("os.path.join"@.len() != "Path"@.len());
        }
    }
    assert(eval_first_arg(e, vals, file) == Some(parts[0]));
    lemma_join_args_in_turn(e, 1, parts[0], vals, file, parts);
    assert(parts.skip(1) =~= parts.drop_first());
    assert(eval_call(e, vals, file) == eval_join_args(e, 1, parts[0], vals, file));
    assert(eval_path(e, vals, file) == eval_call(e, vals, file));
}

/// `p.joinpath(a1, ..., an)` evaluates to the path of `p` joined with the
/// path of every argument in turn, the last one included.
pub proof fn law_joinpath_joins_every_argument(
    value: Expr,
    attr: String,
    args: Vec<Expr>,
    keywords: Vec<crate::pyast::Keyword>,
    vals: Map<Seq<char>, Seq<char>>,
    file: Seq<char>,
    base: Seq<char>,
    parts: Seq<Seq<char>>,
)
    requires
        attr@ == "joinpath"@,
        eval_path(value, vals, file) == Some(base),
        args@.len() == parts.len(),
        forall|i: int| 0 <= i < parts.len() ==> eval_path(#[trigger] args@[i], vals, file) == Some(parts[i]),
    ensures
        eval_path(
            Expr::Call { func: Box::new(Expr::Attribute { value: Box::new(value), attr }), args, keywords },
            vals,
            file,
        ) == Some(joined_in_turn(base, parts)),
{
    let e = Expr::Call { func: Box::new(Expr::Attribute { value: Box::new(value), attr }), args, keywords };
    reveal_strlit("resolve");
    reveal_strlit("joinpath");
    assert(attr@ != "resolve"@) by {
        assert(attr@.len() != "resolve"@.len());
    }
    lemma_join_args_in_turn(e, 0, base, vals, file, parts);
    assert(parts.skip(0) =~= parts);
    assert(eval_call(e, vals, file) == eval_join_args(e, 0, base, vals, file));
    assert(eval_path(e, vals, file) == eval_call(e, vals, file));
}

/// Evaluates a path expression: see [`eval_path`].
pub fn evaluate_path(e: &Expr, vals: &Vec<(String, String)>, file: &str) -> (r: Option<String>)
    ensures
        opt_view(r) == eval_path(*e, path_map(vals@), file@),
    decreases e, 3int, 0int,
{
    match e {
        Expr::StringLiteral { value } => Some(value.clone()),
        Expr::Name { id } => {
            if str_eq(id.as_str(), "__file__") {
                Some(file.to_string())
            } else {
                lookup_path(vals, id.as_str())
            }
        },
        Expr::Attribute { value, attr } => {
            let constant = path_constant(e);
            if constant.is_some() {
                constant
            } else if str_eq(attr.as_str(), "parent") {
                match evaluate_path(value, vals, file) {
                    Some(p) => path_parent(p.as_str()),
                    None => None,
                }
            } else {
                None
            }
        },
        Expr::BinOp { left, op, right } => {
            match op {
                Operator::Add => evaluate_path_string(e, vals, file),
                Operator::Div => {
                    match evaluate_path(left, vals, file) {
                        Some(l) => match evaluate_path(right, vals, file) {
                            Some(r) => Some(path_join(l.as_str(), r.as_str())),
                            None => None,
                        },
                        None => None,
                    }
                },
                Operator::Other => None,
            }
        },
        Expr::Subscript { value, slice } => {
            match &**value {
                Expr::Attribute { value: inner, attr } => {
                    if str_eq(attr.as_str(), "parents") {
                        match evaluate_path(inner, vals, file) {
                            Some(p) => match integer_literal(slice) {
                                Some(k) => {
                                    if k == usize::MAX {
                                        // `k + 1` does not fit a `usize`.
                                        ancestor_beyond(p, k)
                                    } else {
                                        ancestor(p, k + 1)
                                    }
                                },
                                None => None,
                            },
                            None => None,
                        }
                    } else {
                        None
                    }
                },
                _ => None,
            }
        },
        Expr::Call { .. } => evaluate_call(e, vals, file),
        _ => None,
    }
}

/// The `k + 1`-th ancestor of `path`.
fn ancestor_beyond(path: String, k: usize) -> (r: Option<String>)
    ensures
        opt_view(r) == nth_parent(path@, (k + 1) as nat),
{
    match path_parent(path.as_str()) {
        Some(p) => {
            let r = ancestor(p, k);
            assert(nth_parent(path@, (k + 1) as nat) == nth_parent(p@, k as nat));
            r
        },
        None => None,
    }
}

/// Evaluates a path expression as a string: see [`eval_path_string`].
pub fn evaluate_path_string(e: &Expr, vals: &Vec<(String, String)>, file: &str) -> (r: Option<
    String,
>)
    ensures
        opt_view(r) == eval_path_string(*e, path_map(vals@), file@),
    decreases e, if is_add(*e) {
        0int
    } else {
        4int
    }, 0int,
{
    match e {
        Expr::StringLiteral { value } => Some(value.clone()),
        Expr::Name { id } => {
            if str_eq(id.as_str(), "__file__") {
                Some(file.to_string())
            } else {
                lookup_path(vals, id.as_str())
            }
        },
        Expr::Attribute { .. } => {
            let constant = path_constant(e);
            if constant.is_some() {
                constant
            } else {
                evaluate_path(e, vals, file)
            }
        },
        Expr::BinOp { left, op, right } => {
            match op {
                Operator::Add => {
                    match evaluate_path_string(left, vals, file) {
                        Some(l) => match evaluate_path_string(right, vals, file) {
                            Some(r) => Some(concat(l.as_str(), r.as_str())),
                            None => None,
                        },
                        None => None,
                    }
                },
                _ => evaluate_path(e, vals, file),
            }
        },
        _ => evaluate_path(e, vals, file),
    }
}

/// The path of the first argument of a call.
fn evaluate_first_arg(e: &Expr, vals: &Vec<(String, String)>, file: &str) -> (r: Option<String>)
    ensures
        opt_view(r) == eval_first_arg(*e, path_map(vals@), file@),
    decreases e, 1int, 0int,
{
    match e {
        Expr::Call { args, .. } => {
            if args.len() > 0 {
                evaluate_path(&args[0], vals, file)
            } else {
                None
            }
        },
        _ => None,
    }
}

/// `base` joined with the paths of the call's arguments from the `k`-th on.
fn evaluate_join_args(e: &Expr, k: usize, base: String, vals: &Vec<(String, String)>, file: &str) -> (r:
    Option<String>)
    ensures
        opt_view(r) == eval_join_args(*e, k as int, base@, path_map(vals@), file@),
    decreases e, 1int, (match *e {
        Expr::Call { args, .. } => args@.len() - k,
        _ => 0,
    }),
{
    match e {
        Expr::Call { args, .. } => {
            if k < args.len() {
                match evaluate_path(&args[k], vals, file) {
                    Some(part) => {
                        let next = path_join(base.as_str(), part.as_str());
                        evaluate_join_args(e, k + 1, next, vals, file)
                    },
                    None => None,
                }
            } else {
                Some(base)
            }
        },
        _ => None,
    }
}

/// Evaluates a call: see [`eval_call`].
fn evaluate_call(e: &Expr, vals: &Vec<(String, String)>, file: &str) -> (r: Option<String>)
    ensures
        opt_view(r) == eval_call(*e, path_map(vals@), file@),
    decreases e, 2int, 0int,
{
    match e {
        Expr::Call { func, .. } => {
            if is_name(func, "Path") {
                return evaluate_first_arg(e, vals, file);
            }
            match &**func {
                Expr::Attribute { value, attr } => {
                    if str_eq(attr.as_str(), "resolve") {
                        return evaluate_path(value, vals, file);
                    }
                    if str_eq(attr.as_str(), "joinpath") {
                        return match evaluate_path(value, vals, file) {
                            Some(base) => evaluate_join_args(e, 0, base, vals, file),
                            None => None,
                        };
                    }
                },
                _ => {},
            }
            let dotted = dotted_name(func);
            let name = match &dotted {
                Some(d) => d.as_str(),
                None => "",
            };
            let is_dotted = dotted.is_some();
            if is_dotted && str_eq(name, "os.path.join") {
                match evaluate_first_arg(e, vals, file) {
                    Some(base) => evaluate_join_args(e, 1, base, vals, file),
                    None => None,
                }
            } else if is_dotted && (str_eq(name, "os.path.abspath") || str_eq(
                name,
                "os.path.realpath",
            )) {
                match evaluate_first_arg(e, vals, file) {
                    Some(p) => if path_is_absolute(p.as_str()) {
                        Some(p)
                    } else {
                        None
                    },
                    None => None,
                }
            } else if is_dotted && str_eq(name, "os.path.normpath") {
                match evaluate_first_arg(e, vals, file) {
                    Some(p) => Some(clean_path(p.as_str())),
                    None => None,
                }
            } else if is_dotted && str_eq(name, "os.path.dirname") {
                match evaluate_first_arg(e, vals, file) {
                    Some(p) => path_parent(p.as_str()),
                    None => None,
                }
            } else {
                None
            }
        },
        _ => None,
    }
}

/// `r` is a reason about `field` found in `file`, saying `message`.
pub open spec fn is_file_reason(r: Reason, field: Field, file: Seq<char>, message: Seq<char>) -> bool {
    &&& r.field == field
    &&& r.source matches ReasonSource::File(f) && f@ == file
    &&& r.message@ == message
}

/// A reason about `field` found in `file`.
pub fn reason(field: Field, file: &str, message: &str) -> (r: Reason)
    ensures
        is_file_reason(r, field, file@, message@),
{
    Reason::file(field, file, message)
}

/// `r` is unknown for exactly one reason: `message` about `field` in `file`.
pub open spec fn unknown_for<T>(r: Fact<T>, field: Field, file: Seq<char>, message: Seq<char>) -> bool {
    r matches Fact::Unknown { reasons } && reasons@.len() == 1 && is_file_reason(
        reasons@[0],
        field,
        file,
        message,
    )
}

/// The values of the string literals among `elts`, in order.
pub open spec fn literal_strings(elts: Seq<Expr>) -> Seq<Seq<char>>
    decreases elts.len(),
{
    if elts.len() == 0 {
        Seq::empty()
    } else {
        let rest = literal_strings(elts.drop_last());
        match string_literal_spec(elts.last()) {
            Some(v) => rest.push(v),
            None => rest,
        }
    }
}

/// How many of `elts` are not string literals.
pub open spec fn non_literal_count(elts: Seq<Expr>) -> nat
    decreases elts.len(),
{
    if elts.len() == 0 {
        0
    } else {
        non_literal_count(elts.drop_last()) + if string_literal_spec(elts.last()) is Some {
            0nat
        } else {
            1nat
        }
    }
}

/// `reasons` are `n` reasons about `field` in `file`, all saying `message`.
pub open spec fn repeated_reasons(
    reasons: Seq<Reason>,
    n: nat,
    field: Field,
    file: Seq<char>,
    message: Seq<char>,
) -> bool {
    &&& reasons.len() == n
    &&& forall|i: int| 0 <= i < n ==> is_file_reason(#[trigger] reasons[i], field, file, message)
}

/// `r` holds the strings `values`: known when `bad` is zero, else partial with
/// `bad` reasons about `field` in `file` saying `message`.
pub open spec fn gathered(
    r: Fact<Vec<String>>,
    values: Seq<Seq<char>>,
    bad: nat,
    field: Field,
    file: Seq<char>,
    message: Seq<char>,
) -> bool {
    match r {
        Fact::Known { value } => bad == 0 && views(value@) == values,
        Fact::Partial { value, reasons } => bad > 0 && views(value@) == values && repeated_reasons(
            reasons@,
            bad,
            field,
            file,
            message,
        ),
        _ => false,
    }
}

/// The fact for `expr` read as a literal list or tuple of strings named `setting`.
pub open spec fn string_list_fact(
    expr: Expr,
    field: Field,
    file: Seq<char>,
    setting: Seq<char>,
    r: Fact<Vec<String>>,
) -> bool {
    match collection_elements_spec(expr) {
        None => unknown_for(r, field, file, setting + " must be a literal list or tuple of strings"@),
        Some(elts) => gathered(
            r,
            literal_strings(elts),
            non_literal_count(elts),
            field,
            file,
            setting + " contains a non-string entry"@,
        ),
    }
}

proof fn lemma_all_literals(elts: Seq<Expr>, vs: Seq<Seq<char>>)
    requires
        elts.len() == vs.len(),
        forall|i: int| 0 <= i < elts.len() ==> string_literal_spec(#[trigger] elts[i]) == Some(vs[i]),
    ensures
        literal_strings(elts) == vs,
        non_literal_count(elts) == 0,
    decreases elts.len(),
{
    if elts.len() > 0 {
        lemma_all_literals(elts.drop_last(), vs.drop_last());
        assert(string_literal_spec(elts[elts.len() - 1]) == Some(vs[vs.len() - 1]));
        assert(vs =~= vs.drop_last().push(vs.last()));
    } else {
        assert(vs =~= Seq::<Seq<char>>::empty());
    }
}

/// A setting read as a list of strings gives the same fact for a tuple
/// display as for the list display of the same elements.
pub proof fn law_tuple_display_reads_like_list(
    elts: Vec<Expr>,
    field: Field,
    file: Seq<char>,
    setting: Seq<char>,
    r: Fact<Vec<String>>,
)
    ensures
        string_list_fact(Expr::Tuple { elts }, field, file, setting, r) == string_list_fact(
            Expr::List { elts },
            field,
            file,
            setting,
            r,
        ),
{
}

/// A list or tuple display of string literals gives the known list of those
/// strings, in order.
pub proof fn law_literal_collection_is_known(
    expr: Expr,
    elts: Vec<Expr>,
    values: Seq<Seq<char>>,
    field: Field,
    file: Seq<char>,
    setting: Seq<char>,
    r: Fact<Vec<String>>,
)
    requires
        expr == (Expr::List { elts }) || expr == (Expr::Tuple { elts }),
        elts@.len() == values.len(),
        forall|i: int| 0 <= i < values.len() ==> string_literal_spec(#[trigger] elts@[i]) == Some(values[i]),
        string_list_fact(expr, field, file, setting, r),
    ensures
        r matches Fact::Known { value } && views(value@) == values,
{
    lemma_all_literals(elts@, values);
}

/// Reads `expr` as a literal list or tuple of strings; other entries are left
/// out and make the fact partial.
pub fn extract_string_list(expr: &Expr, field: Field, file: &str, setting_name: &str) -> (r: Fact<
    Vec<String>,
>)
    ensures
        string_list_fact(*expr, field, file@, setting_name@, r),
{
    let elements = match collection_elements(expr) {
        Some(e) => e,
        None => {
            let message = concat(setting_name, " must be a literal list or tuple of strings");
            return Fact::Unknown { reasons: vec![reason(field, file, message.as_str())] };
        },
    };
    let message = concat(setting_name, " contains a non-string entry");
    let mut values: Vec<String> = Vec::new();
    let mut reasons: Vec<Reason> = Vec::new();
    let mut i: usize = 0;
    while i < elements.len()
        invariant
            i <= elements.len(),
            message@ == setting_name@ + " contains a non-string entry"@,
            views(values@) == literal_strings(elements@.take(i as int)),
            repeated_reasons(
                reasons@,
                non_literal_count(elements@.take(i as int)),
                field,
                file@,
                message@,
            ),
        decreases elements.len() - i,
    {
        assert(elements@.take(i + 1).drop_last() =~= elements@.take(i as int));
        assert(elements@.take(i + 1).last() == elements@[i as int]);
        match string_literal(&elements[i]) {
            Some(v) => {
                let ghost before = views(values@);
                values.push(v);
                assert(views(values@) =~= before.push(v@));
            },
            None => {
                reasons.push(reason(field, file, message.as_str()));
            },
        }
        i = i + 1;
    }
    assert(elements@.take(elements.len() as int) =~= elements@);
    known_or_partial(values, reasons)
}

/// A change that a statement makes to a list setting.
pub enum ListMutation<'a> {
    Append(&'a Expr),
    Extend(&'a Expr),
    Insert { index: usize, value: &'a Expr },
    Unsupported,
}

/// The mutation a call `NAME.append(x)`, `.extend(x)`, `.insert(i, x)` or
/// `.update(..)` makes to `target`; any call on `target` with keyword arguments
/// is unsupported; `None` for other expressions.
pub open spec fn call_list_mutation_spec<'a>(expr: &'a Expr, target: Seq<char>) -> Option<ListMutation<'a>> {
    match expr {
        Expr::Call { func, args, keywords } => match &**func {
            Expr::Attribute { value, attr } => if !is_name_spec(**value, target) {
                None
            } else if keywords@.len() > 0 {
                Some(ListMutation::Unsupported)
            } else if attr@ == "append"@ {
                if args@.len() == 1 {
                    Some(ListMutation::Append(&args@[0]))
                } else {
                    Some(ListMutation::Unsupported)
                }
            } else if attr@ == "extend"@ {
                if args@.len() == 1 {
                    Some(ListMutation::Extend(&args@[0]))
                } else {
                    Some(ListMutation::Unsupported)
                }
            } else if attr@ == "insert"@ {
                if args@.len() == 2 {
                    match integer_literal_spec(args@[0]) {
                        Some(index) => Some(ListMutation::Insert { index, value: &args@[1] }),
                        None => Some(ListMutation::Unsupported),
                    }
                } else {
                    Some(ListMutation::Unsupported)
                }
            } else if attr@ == "update"@ {
                Some(ListMutation::Unsupported)
            } else {
                None
            },
            _ => None,
        },
        _ => None,
    }
}

pub fn call_list_mutation<'a>(expr: &'a Expr, target: &str) -> (r: Option<ListMutation<'a>>)
    ensures
        r == call_list_mutation_spec(expr, target@),
{
    match expr {
        Expr::Call { func, args, keywords } => match &**func {
            Expr::Attribute { value, attr } => {
                if !is_name(value, target) {
                    return None;
                }
                let a = attr.as_str();
                if keywords.len() > 0 {
                    return Some(ListMutation::Unsupported);
                }
                if str_eq(a, "append") {
                    if args.len() == 1 {
                        Some(ListMutation::Append(&args[0]))
                    } else {
                        Some(ListMutation::Unsupported)
                    }
                } else if str_eq(a, "extend") {
                    if args.len() == 1 {
                        Some(ListMutation::Extend(&args[0]))
                    } else {
                        Some(ListMutation::Unsupported)
                    }
                } else if str_eq(a, "insert") {
                    if args.len() == 2 {
                        match integer_literal(&args[0]) {
                            Some(index) => Some(ListMutation::Insert { index, value: &args[1] }),
                            None => Some(ListMutation::Unsupported),
                        }
                    } else {
                        Some(ListMutation::Unsupported)
                    }
                } else if str_eq(a, "update") {
                    Some(ListMutation::Unsupported)
                } else {
                    None
                }
            },
            _ => None,
        },
        _ => None,
    }
}

/// The mutation a statement makes to the list `target`: `target += x` extends
/// it (another augmented assignment is unsupported), and a call statement may
/// append, extend or insert.
pub open spec fn list_mutation_spec<'a>(stmt: &'a Stmt, target: Seq<char>) -> Option<ListMutation<'a>> {
    match stmt {
        Stmt::AugAssign { target: t, op, value } => if is_name_spec(*t, target) {
            if *op == Operator::Add {
                Some(ListMutation::Extend(value))
            } else {
                Some(ListMutation::Unsupported)
            }
        } else {
            None
        },
        Stmt::Expr { value } => call_list_mutation_spec(value, target),
        _ => None,
    }
}

pub fn list_mutation<'a>(stmt: &'a Stmt, target: &str) -> (r: Option<ListMutation<'a>>)
    ensures
        r == list_mutation_spec(stmt, target@),
{
    match stmt {
        Stmt::AugAssign { target: t, op, value } => {
            if is_name(t, target) {
                match op {
                    Operator::Add => Some(ListMutation::Extend(value)),
                    _ => Some(ListMutation::Unsupported),
                }
            } else {
                None
            }
        },
        Stmt::Expr { value } => call_list_mutation(value, target),
        _ => None,
    }
}

proof fn lemma_views_add(a: Seq<String>, b: Seq<String>)
    ensures
        views(a + b) == views(a) + views(b),
{
    assert(views(a + b) =~= views(a) + views(b));
}

proof fn lemma_views_insert(a: Seq<String>, i: int, x: String)
    requires
        0 <= i <= a.len(),
    ensures
        views(a.insert(i, x)) == views(a).insert(i, x@),
{
    assert(views(a.insert(i, x)) =~= views(a).insert(i, x@));
}

/// `rs` is `prefix` followed by one reason about `field` in `file` saying `message`.
pub open spec fn one_more_reason(
    rs: Seq<Reason>,
    prefix: Seq<Reason>,
    field: Field,
    file: Seq<char>,
    message: Seq<char>,
) -> bool {
    &&& rs.len() > 0
    &&& rs == prefix.push(rs.last())
    &&& is_file_reason(rs.last(), field, file, message)
}

/// `r` is `cur` with one more reason; a known fact becomes partial.
pub open spec fn added_reason<T>(
    cur: Fact<T>,
    field: Field,
    file: Seq<char>,
    message: Seq<char>,
    r: Fact<T>,
) -> bool {
    &&& r.value_spec() == cur.value_spec()
    &&& r.candidates_spec() == cur.candidates_spec()
    &&& one_more_reason(r.reasons_spec(), cur.reasons_spec(), field, file, message)
    &&& r.confidence_spec() == (if cur is Known {
        Confidence::Partial
    } else {
        cur.confidence_spec()
    })
}

/// `r` is the list `cur` with the strings `items` appended, where `bad` entries
/// were left out of `items` for reasons about `field` in `file` saying
/// `message`; a list without value takes a reason saying `unavailable` instead.
pub open spec fn strings_extended(
    cur: Fact<Vec<String>>,
    items: Seq<Seq<char>>,
    bad: nat,
    field: Field,
    file: Seq<char>,
    message: Seq<char>,
    unavailable: Seq<char>,
    r: Fact<Vec<String>>,
) -> bool {
    match cur {
        Fact::Known { value } => if bad == 0 {
            r matches Fact::Known { value: v } && views(v@) == views(value@) + items
        } else {
            r matches Fact::Partial { value: v, reasons: rs } && views(v@) == views(value@) + items
                && repeated_reasons(rs@, bad, field, file, message)
        },
        Fact::Partial { value, reasons } => r matches Fact::Partial { value: v, reasons: rs }
            && views(v@) == views(value@) + items && rs@.take(reasons@.len() as int) == reasons@
            && repeated_reasons(rs@.skip(reasons@.len() as int), bad, field, file, message),
        Fact::Unknown { reasons } => r matches Fact::Unknown { reasons: rs } && one_more_reason(
            rs@,
            reasons@,
            field,
            file,
            unavailable,
        ),
        Fact::Ambiguous { candidates, reasons } => r matches Fact::Ambiguous {
            candidates: cs,
            reasons: rs,
        } && cs == candidates && one_more_reason(rs@, reasons@, field, file, unavailable),
    }
}

/// `r` is the list `cur` with the string `item` inserted at `index` (clamped to
/// its length); a list without value takes a reason saying `unavailable`.
pub open spec fn strings_inserted(
    cur: Fact<Vec<String>>,
    index: usize,
    item: Seq<char>,
    field: Field,
    file: Seq<char>,
    unavailable: Seq<char>,
    r: Fact<Vec<String>>,
) -> bool {
    match cur {
        Fact::Known { value } => r matches Fact::Known { value: v } && views(v@) == views(
            value@,
        ).insert(crate::facts::clamped(index, value@.len()), item),
        Fact::Partial { value, reasons } => r matches Fact::Partial { value: v, reasons: rs }
            && views(v@) == views(value@).insert(crate::facts::clamped(index, value@.len()), item)
            && rs@ == reasons@,
        Fact::Unknown { reasons } => r matches Fact::Unknown { reasons: rs } && one_more_reason(
            rs@,
            reasons@,
            field,
            file,
            unavailable,
        ),
        Fact::Ambiguous { candidates, reasons } => r matches Fact::Ambiguous {
            candidates: cs,
            reasons: rs,
        } && cs == candidates && one_more_reason(rs@, reasons@, field, file, unavailable),
    }
}

/// What `INSTALLED_APPS` is after the mutation `m`, given what it was.
pub open spec fn installed_apps_after(
    current: Option<Fact<Vec<String>>>,
    m: ListMutation,
    file: Seq<char>,
    r: Fact<Vec<String>>,
) -> bool {
    let f = Field::SettingsInstalledApps;
    match current {
        None => unknown_for(r, f, file, "INSTALLED_APPS mutation appears before assignment or import"@),
        Some(cur) => match m {
            ListMutation::Append(v) => match string_literal_spec(*v) {
                None => added_reason(cur, f, file, "INSTALLED_APPS append value must be a string literal"@, r),
                Some(app) => strings_extended(
                    cur,
                    seq![app],
                    0,
                    f,
                    file,
                    Seq::empty(),
                    "cannot apply INSTALLED_APPS append because the current value is unknown or ambiguous"@,
                    r,
                ),
            },
            ListMutation::Extend(v) => match collection_elements_spec(*v) {
                None => added_reason(
                    cur,
                    f,
                    file,
                    "INSTALLED_APPS mutation"@ + " must be a literal list or tuple of strings"@,
                    r,
                ),
                Some(elts) => strings_extended(
                    cur,
                    literal_strings(elts),
                    non_literal_count(elts),
                    f,
                    file,
                    "INSTALLED_APPS mutation"@ + " contains a non-string entry"@,
                    "cannot apply INSTALLED_APPS extend because the current value is unknown or ambiguous"@,
                    r,
                ),
            },
            ListMutation::Insert { index, value } => match string_literal_spec(*value) {
                None => added_reason(cur, f, file, "INSTALLED_APPS insert value must be a string literal"@, r),
                Some(app) => strings_inserted(
                    cur,
                    index,
                    app,
                    f,
                    file,
                    "cannot apply INSTALLED_APPS insert because the current value is unknown or ambiguous"@,
                    r,
                ),
            },
            ListMutation::Unsupported => added_reason(
                cur,
                f,
                file,
                "unsupported dynamic mutation of INSTALLED_APPS"@,
                r,
            ),
        },
    }
}

/// Applies a mutation of `INSTALLED_APPS` to its current fact.
pub fn apply_installed_apps_mutation(
    current: Option<Fact<Vec<String>>>,
    mutation: ListMutation,
    file: &str,
) -> (r: Fact<Vec<String>>)
    ensures
        installed_apps_after(current, mutation, file@, r),
{
    let f = Field::SettingsInstalledApps;
    let current = match current {
        Some(c) => c,
        None => {
            return Fact::Unknown {
                reasons: vec![
                    reason(f, file, "INSTALLED_APPS mutation appears before assignment or import"),
                ],
            };
        },
    };
    let ghost cur = current;
    match mutation {
        ListMutation::Append(value) => {
            match string_literal(value) {
                Some(app) => {
                    let unavailable = reason(
                        f,
                        file,
                        "cannot apply INSTALLED_APPS append because the current value is unknown or ambiguous",
                    );
                    let r = append_vec_fact(current, app, Vec::new(), unavailable);
                    proof {
                        match cur {
                            Fact::Known { value } => {
                                lemma_views_add(value@, seq![app]);
                                assert(views(seq![app]) =~= seq![app@]);
                            },
                            Fact::Partial { value, .. } => {
                                lemma_views_add(value@, seq![app]);
                                assert(views(seq![app]) =~= seq![app@]);
                                assert(r.reasons_spec().skip(cur.reasons_spec().len() as int).len() == 0);
                                assert(r.reasons_spec().take(cur.reasons_spec().len() as int) =~= cur.reasons_spec());
                            },
                            _ => {},
                        }
                    }
                    assert(installed_apps_after(Some(cur), mutation, file@, r));
                    r
                },
                None => {
                    let r = current.with_reason(
                        reason(f, file, "INSTALLED_APPS append value must be a string literal"),
                    );
                    assert(installed_apps_after(Some(cur), mutation, file@, r));
                    r
                },
            }
        },
        ListMutation::Extend(value) => {
            let items = extract_string_list(value, f, file, "INSTALLED_APPS mutation");
            let unavailable = reason(
                f,
                file,
                "cannot apply INSTALLED_APPS extend because the current value is unknown or ambiguous",
            );
            match items {
                Fact::Known { value: vals } => {
                    let r = extend_vec_items(current, vals, Vec::new(), unavailable);
                    proof {
                        match cur {
                            Fact::Known { value } => {
                                lemma_views_add(value@, vals@);
                            },
                            Fact::Partial { value, .. } => {
                                lemma_views_add(value@, vals@);
                                assert(r.reasons_spec().skip(cur.reasons_spec().len() as int).len() == 0);
                                assert(r.reasons_spec().take(cur.reasons_spec().len() as int) =~= cur.reasons_spec());
                            },
                            _ => {},
                        }
                    }
                    assert(installed_apps_after(Some(cur), mutation, file@, r));
                    r
                },
                Fact::Partial { value: vals, reasons } => {
                    let ghost item_reasons = reasons@;
                    let r = extend_vec_items(current, vals, reasons, unavailable);
                    proof {
                        match cur {
                            Fact::Known { value } => {
                                lemma_views_add(value@, vals@);
                            },
                            Fact::Partial { value, reasons: old } => {
                                lemma_views_add(value@, vals@);
                                assert(r.reasons_spec().take(old@.len() as int) =~= old@);
                                assert(r.reasons_spec().skip(old@.len() as int) =~= item_reasons);
                            },
                            _ => {},
                        }
                    }
                    assert(installed_apps_after(Some(cur), mutation, file@, r));
                    r
                },
                Fact::Unknown { reasons } => {
                    let ghost rs = reasons@;
                    let r = add_reasons(current, reasons);
                    proof {
                        assert(cur.reasons_spec() + rs =~= cur.reasons_spec().push(rs[0]));
                    }
                    assert(installed_apps_after(Some(cur), mutation, file@, r));
                    r
                },
                Fact::Ambiguous { reasons, .. } => {
                    assert(false);
                    add_reasons(current, reasons)
                },
            }
        },
        ListMutation::Insert { index, value } => {
            match string_literal(value) {
                Some(app) => {
                    let unavailable = reason(
                        f,
                        file,
                        "cannot apply INSTALLED_APPS insert because the current value is unknown or ambiguous",
                    );
                    let r = insert_vec_fact(current, index, app, Vec::new(), unavailable);
                    proof {
                        match cur {
                            Fact::Known { value } => {
                                lemma_views_insert(value@, crate::facts::clamped(index, value@.len()), app);
                            },
                            Fact::Partial { value, reasons } => {
                                lemma_views_insert(value@, crate::facts::clamped(index, value@.len()), app);
                                assert(r.reasons_spec() =~= reasons@);
                            },
                            _ => {},
                        }
                    }
                    assert(installed_apps_after(Some(cur), mutation, file@, r));
                    r
                },
                None => current.with_reason(
                    reason(f, file, "INSTALLED_APPS insert value must be a string literal"),
                ),
            }
        },
        ListMutation::Unsupported => current.with_reason(
            reason(f, file, "unsupported dynamic mutation of INSTALLED_APPS"),
        ),
    }
}

/// `rs` are reasons about `field` in `file` with the messages `messages`, in order.
pub open spec fn file_reasons(
    rs: Seq<Reason>,
    field: Field,
    file: Seq<char>,
    messages: Seq<Seq<char>>,
) -> bool {
    &&& rs.len() == messages.len()
    &&& forall|i: int|
        0 <= i < rs.len() ==> is_file_reason(#[trigger] rs[i], field, file, messages[i])
}

/// `r` is a list whose value satisfies `values_ok`: known when there are no
/// `problems`, else partial with one reason about `field` in `file` per problem.
pub open spec fn list_gathered<T>(
    r: Fact<Vec<T>>,
    values_ok: spec_fn(Seq<T>) -> bool,
    problems: Seq<Seq<char>>,
    field: Field,
    file: Seq<char>,
) -> bool {
    match r {
        Fact::Known { value } => problems.len() == 0 && values_ok(value@),
        Fact::Partial { value, reasons } => problems.len() > 0 && values_ok(value@) && file_reasons(
            reasons@,
            field,
            file,
            problems,
        ),
        _ => false,
    }
}

proof fn lemma_file_reasons_push(
    rs: Seq<Reason>,
    r: Reason,
    field: Field,
    file: Seq<char>,
    messages: Seq<Seq<char>>,
    m: Seq<char>,
)
    requires
        file_reasons(rs, field, file, messages),
        is_file_reason(r, field, file, m),
    ensures
        file_reasons(rs.push(r), field, file, messages.push(m)),
{
    assert forall|i: int| 0 <= i < rs.push(r).len() implies is_file_reason(
        #[trigger] rs.push(r)[i],
        field,
        file,
        messages.push(m)[i],
    ) by {
        if i < rs.len() {
            assert(rs.push(r)[i] == rs[i]);
        }
    }
}

// ---- DIRS ----

/// The paths that the entries of `elts` evaluate to, unevaluable ones left out.
pub open spec fn evaluated_paths(elts: Seq<Expr>, vals: Map<Seq<char>, Seq<char>>, file: Seq<char>) -> Seq<
    Seq<char>,
>
    decreases elts.len(),
{
    if elts.len() == 0 {
        Seq::empty()
    } else {
        let rest = evaluated_paths(elts.drop_last(), vals, file);
        match eval_path(elts.last(), vals, file) {
            Some(p) => rest.push(p),
            None => rest,
        }
    }
}

/// One problem message per entry of `elts` that does not evaluate to a path.
pub open spec fn unevaluated(elts: Seq<Expr>, vals: Map<Seq<char>, Seq<char>>, file: Seq<char>) -> Seq<
    Seq<char>,
>
    decreases elts.len(),
{
    if elts.len() == 0 {
        Seq::empty()
    } else {
        let rest = unevaluated(elts.drop_last(), vals, file);
        match eval_path(elts.last(), vals, file) {
            Some(_) => rest,
            None => rest.push("TEMPLATES DIRS contains an unsupported path expression"@),
        }
    }
}

/// The directories `dirs` are the settings directories `paths`.
pub open spec fn settings_dirs(dirs: Seq<TemplateDirFact>, paths: Seq<Seq<char>>) -> bool {
    &&& dirs.len() == paths.len()
    &&& forall|i: int|
        0 <= i < dirs.len() ==> (#[trigger] dirs[i]).path@ == paths[i] && dirs[i].source
            == TemplateDirSource::SettingsDir
}

/// The fact for the `DIRS` entry `expr` of a backend.
pub open spec fn template_dirs_fact(
    expr: Expr,
    vals: Map<Seq<char>, Seq<char>>,
    file: Seq<char>,
    r: Fact<Vec<TemplateDirFact>>,
) -> bool {
    match collection_elements_spec(expr) {
        None => unknown_for(
            r,
            Field::SettingsTemplateDirs,
            file,
            "TEMPLATES DIRS must be a literal list or tuple"@,
        ),
        Some(elts) => list_gathered(
            r,
            |d: Seq<TemplateDirFact>| settings_dirs(d, evaluated_paths(elts, vals, file)),
            unevaluated(elts, vals, file),
            Field::SettingsTemplateDirs,
            file,
        ),
    }
}

/// Reads the `DIRS` entry of a backend: each path it can evaluate.
pub fn extract_template_dirs(expr: &Expr, vals: &Vec<(String, String)>, file: &str) -> (r: Fact<
    Vec<TemplateDirFact>,
>)
    ensures
        template_dirs_fact(*expr, path_map(vals@), file@, r),
{
    let elements = match collection_elements(expr) {
        Some(e) => e,
        None => {
            return Fact::Unknown {
                reasons: vec![
                    reason(
                        Field::SettingsTemplateDirs,
                        file,
                        "TEMPLATES DIRS must be a literal list or tuple",
                    ),
                ],
            };
        },
    };
    let ghost m = path_map(vals@);
    let mut dirs: Vec<TemplateDirFact> = Vec::new();
    let mut reasons: Vec<Reason> = Vec::new();
    let mut i: usize = 0;
    while i < elements.len()
        invariant
            i <= elements.len(),
            m == path_map(vals@),
            settings_dirs(dirs@, evaluated_paths(elements@.take(i as int), m, file@)),
            file_reasons(
                reasons@,
                Field::SettingsTemplateDirs,
                file@,
                unevaluated(elements@.take(i as int), m, file@),
            ),
        decreases elements.len() - i,
    {
        assert(elements@.take(i + 1).drop_last() =~= elements@.take(i as int));
        assert(elements@.take(i + 1).last() == elements@[i as int]);
        match evaluate_path(&elements[i], vals, file) {
            Some(path) => {
                dirs.push(TemplateDirFact { path, source: TemplateDirSource::SettingsDir });
            },
            None => {
                let r = reason(
                    Field::SettingsTemplateDirs,
                    file,
                    "TEMPLATES DIRS contains an unsupported path expression",
                );
                proof {
                    lemma_file_reasons_push(
                        reasons@,
                        r,
                        Field::SettingsTemplateDirs,
                        file@,
                        unevaluated(elements@.take(i as int), m, file@),
                        "TEMPLATES DIRS contains an unsupported path expression"@,
                    );
                }
                reasons.push(r);
            },
        }
        i = i + 1;
    }
    assert(elements@.take(elements.len() as int) =~= elements@);
    known_or_partial(dirs, reasons)
}

// ---- OPTIONS.libraries ----

/// What one entry of `OPTIONS.libraries` gives.
pub enum LibraryEntry {
    Library(Seq<char>, Seq<char>),
    Problem(Seq<char>),
}

pub open spec fn library_entry(item: DictItem) -> LibraryEntry {
    match item.key {
        None => LibraryEntry::Problem("TEMPLATES OPTIONS.libraries contains dictionary unpacking"@),
        Some(k) => match string_literal_spec(k) {
            None => LibraryEntry::Problem(
                "TEMPLATES OPTIONS.libraries contains a non-string load name"@,
            ),
            Some(load_name) => match string_literal_spec(item.value) {
                None => LibraryEntry::Problem(
                    "TEMPLATES OPTIONS.libraries contains a non-string module path"@,
                ),
                Some(module) => if !crate::names::is_dotted_name(load_name) {
                    LibraryEntry::Problem(
                        "invalid TEMPLATES OPTIONS.libraries load name: "@ + name_error_message(
                            load_name,
                        ),
                    )
                } else if !crate::names::is_dotted_name(module) {
                    LibraryEntry::Problem(
                        "invalid TEMPLATES OPTIONS.libraries module path: "@ + name_error_message(
                            module,
                        ),
                    )
                } else {
                    LibraryEntry::Library(load_name, module)
                },
            },
        },
    }
}

/// The libraries the entries give, in order.
pub open spec fn entry_libraries(items: Seq<DictItem>) -> Seq<(Seq<char>, Seq<char>)>
    decreases items.len(),
{
    if items.len() == 0 {
        Seq::empty()
    } else {
        let rest = entry_libraries(items.drop_last());
        match library_entry(items.last()) {
            LibraryEntry::Library(l, m) => rest.push((l, m)),
            LibraryEntry::Problem(_) => rest,
        }
    }
}

/// The problems the entries give, in order.
pub open spec fn entry_problems(items: Seq<DictItem>) -> Seq<Seq<char>>
    decreases items.len(),
{
    if items.len() == 0 {
        Seq::empty()
    } else {
        let rest = entry_problems(items.drop_last());
        match library_entry(items.last()) {
            LibraryEntry::Library(_, _) => rest,
            LibraryEntry::Problem(p) => rest.push(p),
        }
    }
}

/// The library facts are the settings libraries `libs` (load name, module).
pub open spec fn settings_libraries(facts: Seq<TemplateLibraryFact>, libs: Seq<(Seq<char>, Seq<char>)>) -> bool {
    &&& facts.len() == libs.len()
    &&& forall|i: int|
        0 <= i < facts.len() ==> (#[trigger] facts[i]).load_name@ == libs[i].0 && facts[i].module@
            == libs[i].1 && facts[i].source == TemplateLibrarySource::SettingsLibraries
}

/// The fact for `OPTIONS.libraries` of the options dictionary `options`.
pub open spec fn option_libraries_fact(
    options: Seq<DictItem>,
    file: Seq<char>,
    r: Fact<Vec<TemplateLibraryFact>>,
) -> bool {
    match dict_value_spec(options, "libraries"@) {
        None => r matches Fact::Known { value } && value@.len() == 0,
        Some(v) => match v {
            Expr::Dict { items } => list_gathered(
                r,
                |f: Seq<TemplateLibraryFact>| settings_libraries(f, entry_libraries(items@)),
                entry_problems(items@),
                Field::SettingsTemplateOptions,
                file,
            ),
            _ => unknown_for(
                r,
                Field::SettingsTemplateOptions,
                file,
                "TEMPLATES OPTIONS.libraries must be a dictionary literal"@,
            ),
        },
    }
}

/// Reads `OPTIONS.libraries`: load names mapped to module paths.
pub fn extract_option_libraries(options: &Vec<DictItem>, file: &str) -> (r: Fact<
    Vec<TemplateLibraryFact>,
>)
    ensures
        option_libraries_fact(options@, file@, r),
{
    let value = match dict_value(options, "libraries") {
        Some(v) => v,
        None => return Fact::Known { value: Vec::new() },
    };
    let items = match value {
        Expr::Dict { items } => items,
        _ => {
            return Fact::Unknown {
                reasons: vec![
                    reason(
                        Field::SettingsTemplateOptions,
                        file,
                        "TEMPLATES OPTIONS.libraries must be a dictionary literal",
                    ),
                ],
            };
        },
    };
    let f = Field::SettingsTemplateOptions;
    let mut facts: Vec<TemplateLibraryFact> = Vec::new();
    let mut reasons: Vec<Reason> = Vec::new();
    let mut i: usize = 0;
    while i < items.len()
        invariant
            i <= items.len(),
            f == Field::SettingsTemplateOptions,
            settings_libraries(facts@, entry_libraries(items@.take(i as int))),
            file_reasons(reasons@, f, file@, entry_problems(items@.take(i as int))),
        decreases items.len() - i,
    {
        assert(items@.take(i + 1).drop_last() =~= items@.take(i as int));
        assert(items@.take(i + 1).last() == items@[i as int]);
        let ghost before_problems = entry_problems(items@.take(i as int));
        let item = &items[i];
        let problem: Option<String> = match &item.key {
            None => Some("TEMPLATES OPTIONS.libraries contains dictionary unpacking".to_string()),
            Some(k) => match string_literal(k) {
                None => Some(
                    "TEMPLATES OPTIONS.libraries contains a non-string load name".to_string(),
                ),
                Some(load_name) => match string_literal(&item.value) {
                    None => Some(
                        "TEMPLATES OPTIONS.libraries contains a non-string module path".to_string(),
                    ),
                    Some(module) => {
                        match LibraryName::parse(load_name.as_str()) {
                            Err(e) => {
                                let msg = e.message();
                                Some(
                                    concat(
                                        "invalid TEMPLATES OPTIONS.libraries load name: ",
                                        msg.as_str(),
                                    ),
                                )
                            },
                            Ok(load) => match PyModuleName::parse(module.as_str()) {
                                Err(e) => {
                                    let msg = e.message();
                                    Some(
                                        concat(
                                            "invalid TEMPLATES OPTIONS.libraries module path: ",
                                            msg.as_str(),
                                        ),
                                    )
                                },
                                Ok(m) => {
                                    facts.push(
                                        TemplateLibraryFact {
                                            load_name: load,
                                            module: m,
                                            source: TemplateLibrarySource::SettingsLibraries,
                                        },
                                    );
                                    None
                                },
                            },
                        }
                    },
                },
            },
        };
        match problem {
            Some(message) => {
                let r = reason(f, file, message.as_str());
                proof {
                    lemma_file_reasons_push(reasons@, r, f, file@, before_problems, message@);
                }
                reasons.push(r);
            },
            None => {},
        }
        i = i + 1;
    }
    assert(items@.take(items.len() as int) =~= items@);
    known_or_partial(facts, reasons)
}

// ---- OPTIONS.builtins ----

/// What one entry of `OPTIONS.builtins` gives: a module path or a problem.
pub open spec fn builtin_entry(e: Expr) -> Result<Seq<char>, Seq<char>> {
    match string_literal_spec(e) {
        None => Err("TEMPLATES OPTIONS.builtins contains a non-string module path"@),
        Some(m) => if crate::names::is_dotted_name(m) {
            Ok(m)
        } else {
            Err("invalid TEMPLATES OPTIONS.builtins module path: "@ + name_error_message(m))
        },
    }
}

pub open spec fn entry_builtins(elts: Seq<Expr>) -> Seq<Seq<char>>
    decreases elts.len(),
{
    if elts.len() == 0 {
        Seq::empty()
    } else {
        let rest = entry_builtins(elts.drop_last());
        match builtin_entry(elts.last()) {
            Ok(m) => rest.push(m),
            Err(_) => rest,
        }
    }
}

pub open spec fn builtin_problems(elts: Seq<Expr>) -> Seq<Seq<char>>
    decreases elts.len(),
{
    if elts.len() == 0 {
        Seq::empty()
    } else {
        let rest = builtin_problems(elts.drop_last());
        match builtin_entry(elts.last()) {
            Ok(_) => rest,
            Err(p) => rest.push(p),
        }
    }
}

pub open spec fn module_views(v: Seq<PyModuleName>) -> Seq<Seq<char>> {
    v.map_values(|m: PyModuleName| m@)
}

/// The fact for `OPTIONS.builtins` of the options dictionary `options`.
pub open spec fn option_builtins_fact(options: Seq<DictItem>, file: Seq<char>, r: Fact<Vec<PyModuleName>>) -> bool {
    match dict_value_spec(options, "builtins"@) {
        None => r matches Fact::Known { value } && value@.len() == 0,
        Some(v) => match collection_elements_spec(v) {
            None => unknown_for(
                r,
                Field::SettingsTemplateOptions,
                file,
                "TEMPLATES OPTIONS.builtins must be a literal list or tuple"@,
            ),
            Some(elts) => list_gathered(
                r,
                |m: Seq<PyModuleName>| module_views(m) == entry_builtins(elts),
                builtin_problems(elts),
                Field::SettingsTemplateOptions,
                file,
            ),
        },
    }
}

/// Reads `OPTIONS.builtins`: module paths of builtin libraries.
pub fn extract_option_builtins(options: &Vec<DictItem>, file: &str) -> (r: Fact<Vec<PyModuleName>>)
    ensures
        option_builtins_fact(options@, file@, r),
{
    let value = match dict_value(options, "builtins") {
        Some(v) => v,
        None => return Fact::Known { value: Vec::new() },
    };
    let elements = match collection_elements(value) {
        Some(e) => e,
        None => {
            return Fact::Unknown {
                reasons: vec![
                    reason(
                        Field::SettingsTemplateOptions,
                        file,
                        "TEMPLATES OPTIONS.builtins must be a literal list or tuple",
                    ),
                ],
            };
        },
    };
    let f = Field::SettingsTemplateOptions;
    let mut builtins: Vec<PyModuleName> = Vec::new();
    let mut reasons: Vec<Reason> = Vec::new();
    let mut i: usize = 0;
    while i < elements.len()
        invariant
            i <= elements.len(),
            f == Field::SettingsTemplateOptions,
            module_views(builtins@) == entry_builtins(elements@.take(i as int)),
            file_reasons(reasons@, f, file@, builtin_problems(elements@.take(i as int))),
        decreases elements.len() - i,
    {
        assert(elements@.take(i + 1).drop_last() =~= elements@.take(i as int));
        assert(elements@.take(i + 1).last() == elements@[i as int]);
        let ghost before_problems = builtin_problems(elements@.take(i as int));
        let ghost before = module_views(builtins@);
        let problem: Option<String> = match string_literal(&elements[i]) {
            None => Some("TEMPLATES OPTIONS.builtins contains a non-string module path".to_string()),
            Some(module) => match PyModuleName::parse(module.as_str()) {
                Ok(m) => {
                    builtins.push(m);
                    assert(module_views(builtins@) =~= before.push(m@));
                    None
                },
                Err(e) => {
                    let msg = e.message();
                    Some(concat("invalid TEMPLATES OPTIONS.builtins module path: ", msg.as_str()))
                },
            },
        };
        match problem {
            Some(message) => {
                let r = reason(f, file, message.as_str());
                proof {
                    lemma_file_reasons_push(reasons@, r, f, file@, before_problems, message@);
                }
                reasons.push(r);
            },
            None => {},
        }
        i = i + 1;
    }
    assert(elements@.take(elements.len() as int) =~= elements@);
    known_or_partial(builtins, reasons)
}

// ---- TEMPLATES ----

/// The problems a backend dictionary gives: a `BACKEND` that is not a string.
pub open spec fn backend_problems(items: Seq<DictItem>) -> Seq<Seq<char>> {
    match dict_value_spec(items, "BACKEND"@) {
        Some(v) => if string_literal_spec(v) is None {
            seq!["TEMPLATES BACKEND must be a string literal"@]
        } else {
            Seq::empty()
        },
        None => Seq::empty(),
    }
}

/// `b` is the backend that the dictionary `items` describes: its `BACKEND`
/// string, its `DIRS` (none when absent), its `APP_DIRS` flag (false when
/// absent), and the `libraries` and `builtins` of its `OPTIONS`.
pub open spec fn backend_fact(
    items: Seq<DictItem>,
    vals: Map<Seq<char>, Seq<char>>,
    file: Seq<char>,
    b: TemplateBackendFact,
) -> bool {
    &&& match dict_value_spec(items, "BACKEND"@) {
        None => b.backend is None,
        Some(v) => opt_view(b.backend) == string_literal_spec(v),
    }
    &&& match dict_value_spec(items, "DIRS"@) {
        None => b.dirs matches Fact::Known { value } && value@.len() == 0,
        Some(v) => template_dirs_fact(v, vals, file, b.dirs),
    }
    &&& match dict_value_spec(items, "APP_DIRS"@) {
        None => b.app_dirs == Fact::<bool>::Known { value: false },
        Some(v) => match v {
            Expr::BooleanLiteral { value } => b.app_dirs == Fact::<bool>::Known { value },
            _ => unknown_for(
                b.app_dirs,
                Field::SettingsTemplates,
                file,
                "TEMPLATES APP_DIRS must be a boolean literal"@,
            ),
        },
    }
    &&& match dict_value_spec(items, "OPTIONS"@) {
        None => (b.option_libraries matches Fact::Known { value } && value@.len() == 0) && (
        b.option_builtins matches Fact::Known { value } && value@.len() == 0),
        Some(v) => match v {
            Expr::Dict { items: o } => option_libraries_fact(o@, file, b.option_libraries)
                && option_builtins_fact(o@, file, b.option_builtins),
            _ => unknown_for(
                b.option_libraries,
                Field::SettingsTemplateOptions,
                file,
                "TEMPLATES OPTIONS must be a dictionary literal"@,
            ) && unknown_for(
                b.option_builtins,
                Field::SettingsTemplateOptions,
                file,
                "TEMPLATES OPTIONS must be a dictionary literal"@,
            ),
        },
    }
}

/// Reads one backend dictionary, adding its problems to `reasons`.
pub fn extract_template_backend(
    items: &Vec<DictItem>,
    vals: &Vec<(String, String)>,
    file: &str,
    reasons: &mut Vec<Reason>,
) -> (r: TemplateBackendFact)
    ensures
        backend_fact(items@, path_map(vals@), file@, r),
        final(reasons)@.len() >= old(reasons)@.len(),
        final(reasons)@.take(old(reasons)@.len() as int) == old(reasons)@,
        file_reasons(
            final(reasons)@.skip(old(reasons)@.len() as int),
            Field::SettingsTemplates,
            file@,
            backend_problems(items@),
        ),
{
    let ghost start = reasons@;
    let backend = match dict_value(items, "BACKEND") {
        Some(value) => match string_literal(value) {
            Some(b) => Some(b),
            None => {
                reasons.push(
                    reason(Field::SettingsTemplates, file, "TEMPLATES BACKEND must be a string literal"),
                );
                None
            },
        },
        None => None,
    };
    proof {
        assert(reasons@.take(start.len() as int) =~= start);
        let pushed = reasons@.skip(start.len() as int);
        if pushed.len() > 0 {
            assert(pushed[0] == reasons@[start.len() as int]);
        }
    }
    let dirs = match dict_value(items, "DIRS") {
        Some(value) => extract_template_dirs(value, vals, file),
        None => Fact::Known { value: Vec::new() },
    };
    let app_dirs = match dict_value(items, "APP_DIRS") {
        Some(value) => match value {
            Expr::BooleanLiteral { value: b } => Fact::Known { value: *b },
            _ => Fact::Unknown {
                reasons: vec![
                    reason(
                        Field::SettingsTemplates,
                        file,
                        "TEMPLATES APP_DIRS must be a boolean literal",
                    ),
                ],
            },
        },
        None => Fact::Known { value: false },
    };
    let (option_libraries, option_builtins) = match dict_value(items, "OPTIONS") {
        Some(value) => match value {
            Expr::Dict { items: options } => (
                extract_option_libraries(options, file),
                extract_option_builtins(options, file),
            ),
            _ => (
                Fact::Unknown {
                    reasons: vec![
                        reason(
                            Field::SettingsTemplateOptions,
                            file,
                            "TEMPLATES OPTIONS must be a dictionary literal",
                        ),
                    ],
                },
                Fact::Unknown {
                    reasons: vec![
                        reason(
                            Field::SettingsTemplateOptions,
                            file,
                            "TEMPLATES OPTIONS must be a dictionary literal",
                        ),
                    ],
                },
            ),
        },
        None => (Fact::Known { value: Vec::new() }, Fact::Known { value: Vec::new() }),
    };
    TemplateBackendFact { backend, dirs, app_dirs, option_libraries, option_builtins }
}

/// The dictionaries among `elts`, as their items.
pub open spec fn dict_items(elts: Seq<Expr>) -> Seq<Seq<DictItem>>
    decreases elts.len(),
{
    if elts.len() == 0 {
        Seq::empty()
    } else {
        let rest = dict_items(elts.drop_last());
        match elts.last() {
            Expr::Dict { items } => rest.push(items@),
            _ => rest,
        }
    }
}

/// The problems of the entries `elts` of `TEMPLATES`, in order.
pub open spec fn backends_problems(elts: Seq<Expr>) -> Seq<Seq<char>>
    decreases elts.len(),
{
    if elts.len() == 0 {
        Seq::empty()
    } else {
        let rest = backends_problems(elts.drop_last());
        match elts.last() {
            Expr::Dict { items } => rest + backend_problems(items@),
            _ => rest.push("TEMPLATES contains a non-dictionary backend entry"@),
        }
    }
}

/// `b` are the backends of the dictionaries among `elts`, in order.
pub open spec fn backends_match(
    b: Seq<TemplateBackendFact>,
    elts: Seq<Expr>,
    vals: Map<Seq<char>, Seq<char>>,
    file: Seq<char>,
) -> bool {
    &&& b.len() == dict_items(elts).len()
    &&& forall|k: int|
        0 <= k < b.len() ==> backend_fact(dict_items(elts)[k], vals, file, #[trigger] b[k])
}

/// The fact for the `TEMPLATES` list `expr`.
pub open spec fn template_backends_fact(
    expr: Expr,
    vals: Map<Seq<char>, Seq<char>>,
    file: Seq<char>,
    r: Fact<Vec<TemplateBackendFact>>,
) -> bool {
    match collection_elements_spec(expr) {
        None => unknown_for(
            r,
            Field::SettingsTemplates,
            file,
            "TEMPLATES must be assigned a literal list or tuple of dictionaries"@,
        ),
        Some(elts) => list_gathered(
            r,
            |b: Seq<TemplateBackendFact>| backends_match(b, elts, vals, file),
            backends_problems(elts),
            Field::SettingsTemplates,
            file,
        ),
    }
}

proof fn lemma_file_reasons_append(
    a: Seq<Reason>,
    b: Seq<Reason>,
    field: Field,
    file: Seq<char>,
    ma: Seq<Seq<char>>,
    mb: Seq<Seq<char>>,
)
    requires
        file_reasons(a, field, file, ma),
        file_reasons(b, field, file, mb),
    ensures
        file_reasons(a + b, field, file, ma + mb),
{
    assert forall|i: int| 0 <= i < (a + b).len() implies is_file_reason(
        #[trigger] (a + b)[i],
        field,
        file,
        (ma + mb)[i],
    ) by {
        if i < a.len() {
        } else {
            assert((a + b)[i] == b[i - a.len()]);
        }
    }
}

/// Reads the `TEMPLATES` list: one backend per dictionary entry.
pub fn extract_template_backends(expr: &Expr, vals: &Vec<(String, String)>, file: &str) -> (r: Fact<
    Vec<TemplateBackendFact>,
>)
    ensures
        template_backends_fact(*expr, path_map(vals@), file@, r),
{
    let elements = match collection_elements(expr) {
        Some(e) => e,
        None => {
            return Fact::Unknown {
                reasons: vec![
                    reason(
                        Field::SettingsTemplates,
                        file,
                        "TEMPLATES must be assigned a literal list or tuple of dictionaries",
                    ),
                ],
            };
        },
    };
    let ghost m = path_map(vals@);
    let f = Field::SettingsTemplates;
    let mut backends: Vec<TemplateBackendFact> = Vec::new();
    let mut reasons: Vec<Reason> = Vec::new();
    let mut i: usize = 0;
    while i < elements.len()
        invariant
            i <= elements.len(),
            f == Field::SettingsTemplates,
            m == path_map(vals@),
            backends_match(backends@, elements@.take(i as int), m, file@),
            file_reasons(reasons@, f, file@, backends_problems(elements@.take(i as int))),
        decreases elements.len() - i,
    {
        assert(elements@.take(i + 1).drop_last() =~= elements@.take(i as int));
        assert(elements@.take(i + 1).last() == elements@[i as int]);
        let ghost before_reasons = reasons@;
        let ghost before_backends = backends@;
        let ghost problems = backends_problems(elements@.take(i as int));
        match &elements[i] {
            Expr::Dict { items } => {
                let b = extract_template_backend(items, vals, file, &mut reasons);
                backends.push(b);
                proof {
                    let n = before_reasons.len() as int;
                    assert(reasons@ =~= reasons@.take(n) + reasons@.skip(n));
                    assert(reasons@ =~= before_reasons + reasons@.skip(n));
                    lemma_file_reasons_append(
                        before_reasons,
                        reasons@.skip(before_reasons.len() as int),
                        f,
                        file@,
                        problems,
                        backend_problems(items@),
                    );
                    let d = dict_items(elements@.take(i + 1));
                    assert(d == dict_items(elements@.take(i as int)).push(items@));
                    assert forall|k: int| 0 <= k < backends@.len() implies backend_fact(
                        d[k],
                        m,
                        file@,
                        #[trigger] backends@[k],
                    ) by {
                        if k < before_backends.len() {
                            assert(backends@[k] == before_backends[k]);
                        }
                    }
                }
            },
            _ => {
                let r = reason(f, file, "TEMPLATES contains a non-dictionary backend entry");
                proof {
                    lemma_file_reasons_push(
                        reasons@,
                        r,
                        f,
                        file@,
                        problems,
                        "TEMPLATES contains a non-dictionary backend entry"@,
                    );
                }
                reasons.push(r);
            },
        }
        i = i + 1;
    }
    assert(elements@.take(elements.len() as int) =~= elements@);
    known_or_partial(backends, reasons)
}

/// The fact for a backend dictionary given to a `TEMPLATES` mutation.
pub open spec fn backend_item_fact(
    expr: Expr,
    vals: Map<Seq<char>, Seq<char>>,
    file: Seq<char>,
    r: Fact<TemplateBackendFact>,
) -> bool {
    match expr {
        Expr::Dict { items } => {
            let p = backend_problems(items@);
            if p.len() == 0 {
                r matches Fact::Known { value } && backend_fact(items@, vals, file, value)
            } else {
                r matches Fact::Partial { value, reasons } && backend_fact(items@, vals, file, value)
                    && file_reasons(reasons@, Field::SettingsTemplates, file, p)
            }
        },
        _ => unknown_for(
            r,
            Field::SettingsTemplates,
            file,
            "TEMPLATES mutation value must be a dictionary literal"@,
        ),
    }
}

/// Reads one backend dictionary given to a `TEMPLATES` mutation.
pub fn extract_template_backend_item(expr: &Expr, vals: &Vec<(String, String)>, file: &str) -> (r:
    Fact<TemplateBackendFact>)
    ensures
        backend_item_fact(*expr, path_map(vals@), file@, r),
{
    match expr {
        Expr::Dict { items } => {
            let mut reasons: Vec<Reason> = Vec::new();
            let backend = extract_template_backend(items, vals, file, &mut reasons);
            assert(reasons@.skip(0) =~= reasons@);
            if reasons.len() == 0 {
                Fact::Known { value: backend }
            } else {
                Fact::Partial { value: backend, reasons }
            }
        },
        _ => Fact::Unknown {
            reasons: vec![
                reason(
                    Field::SettingsTemplates,
                    file,
                    "TEMPLATES mutation value must be a dictionary literal",
                ),
            ],
        },
    }
}

/// Like [`extended`], with the reason for a list without value given by its message.
pub open spec fn extended_with<T>(
    cur: Fact<Vec<T>>,
    items: Seq<T>,
    item_reasons: Seq<Reason>,
    field: Field,
    file: Seq<char>,
    unavailable: Seq<char>,
    r: Fact<Vec<T>>,
) -> bool {
    match cur {
        Fact::Known { value } => if item_reasons.len() == 0 {
            r matches Fact::Known { value: v } && v@ == value@ + items
        } else {
            r matches Fact::Partial { value: v, reasons: rs } && v@ == value@ + items && rs@
                == item_reasons
        },
        Fact::Partial { value, reasons } => r matches Fact::Partial { value: v, reasons: rs }
            && v@ == value@ + items && rs@ == reasons@ + item_reasons,
        Fact::Unknown { reasons } => r matches Fact::Unknown { reasons: rs } && one_more_reason(
            rs@,
            reasons@,
            field,
            file,
            unavailable,
        ),
        Fact::Ambiguous { candidates, reasons } => r matches Fact::Ambiguous {
            candidates: cs,
            reasons: rs,
        } && cs == candidates && one_more_reason(rs@, reasons@, field, file, unavailable),
    }
}

/// Like [`inserted`], with the reason for a list without value given by its message.
pub open spec fn inserted_with<T>(
    cur: Fact<Vec<T>>,
    index: usize,
    item: T,
    item_reasons: Seq<Reason>,
    field: Field,
    file: Seq<char>,
    unavailable: Seq<char>,
    r: Fact<Vec<T>>,
) -> bool {
    match cur {
        Fact::Known { value } => if item_reasons.len() == 0 {
            r matches Fact::Known { value: v } && v@ == value@.insert(
                crate::facts::clamped(index, value@.len()),
                item,
            )
        } else {
            r matches Fact::Partial { value: v, reasons: rs } && v@ == value@.insert(
                crate::facts::clamped(index, value@.len()),
                item,
            ) && rs@ == item_reasons
        },
        Fact::Partial { value, reasons } => r matches Fact::Partial { value: v, reasons: rs }
            && v@ == value@.insert(crate::facts::clamped(index, value@.len()), item) && rs@
            == reasons@ + item_reasons,
        Fact::Unknown { reasons } => r matches Fact::Unknown { reasons: rs } && one_more_reason(
            rs@,
            reasons@,
            field,
            file,
            unavailable,
        ),
        Fact::Ambiguous { candidates, reasons } => r matches Fact::Ambiguous {
            candidates: cs,
            reasons: rs,
        } && cs == candidates && one_more_reason(rs@, reasons@, field, file, unavailable),
    }
}

/// `r` is `cur` with the reasons of `other` added.
pub open spec fn with_reasons_of<T, U>(cur: Fact<T>, other: Fact<U>, r: Fact<T>) -> bool {
    &&& r.value_spec() == cur.value_spec()
    &&& r.candidates_spec() == cur.candidates_spec()
    &&& r.reasons_spec() == cur.reasons_spec() + other.reasons_spec()
    &&& r.confidence_spec() == (if cur is Known && other.reasons_spec().len() > 0 {
        Confidence::Partial
    } else {
        cur.confidence_spec()
    })
}

/// `r` is `cur` with the list fact `items` appended, as [`extend_vec_fact`] does.
pub open spec fn extended_by_fact<T>(
    cur: Fact<Vec<T>>,
    items: Fact<Vec<T>>,
    field: Field,
    file: Seq<char>,
    unavailable: Seq<char>,
    r: Fact<Vec<T>>,
) -> bool {
    match items {
        Fact::Known { value } => extended_with(cur, value@, Seq::empty(), field, file, unavailable, r),
        Fact::Partial { value, reasons } => extended_with(
            cur,
            value@,
            reasons@,
            field,
            file,
            unavailable,
            r,
        ),
        _ => with_reasons_of(cur, items, r),
    }
}

/// `r` is `cur` with the item fact `item` appended.
pub open spec fn appended_fact<T>(
    cur: Fact<Vec<T>>,
    item: Fact<T>,
    field: Field,
    file: Seq<char>,
    unavailable: Seq<char>,
    r: Fact<Vec<T>>,
) -> bool {
    match item {
        Fact::Known { value } => extended_with(
            cur,
            seq![value],
            Seq::empty(),
            field,
            file,
            unavailable,
            r,
        ),
        Fact::Partial { value, reasons } => extended_with(
            cur,
            seq![value],
            reasons@,
            field,
            file,
            unavailable,
            r,
        ),
        _ => with_reasons_of(cur, item, r),
    }
}

/// `r` is `cur` with the item fact `item` inserted at `index`.
pub open spec fn inserted_fact<T>(
    cur: Fact<Vec<T>>,
    index: usize,
    item: Fact<T>,
    field: Field,
    file: Seq<char>,
    unavailable: Seq<char>,
    r: Fact<Vec<T>>,
) -> bool {
    match item {
        Fact::Known { value } => inserted_with(
            cur,
            index,
            value,
            Seq::empty(),
            field,
            file,
            unavailable,
            r,
        ),
        Fact::Partial { value, reasons } => inserted_with(
            cur,
            index,
            value,
            reasons@,
            field,
            file,
            unavailable,
            r,
        ),
        _ => with_reasons_of(cur, item, r),
    }
}

proof fn lemma_extended_with<T>(
    cur: Fact<Vec<T>>,
    items: Seq<T>,
    item_reasons: Seq<Reason>,
    u: Reason,
    field: Field,
    file: Seq<char>,
    unavailable: Seq<char>,
    r: Fact<Vec<T>>,
)
    requires
        extended(cur, items, item_reasons, u, r),
        is_file_reason(u, field, file, unavailable),
    ensures
        extended_with(cur, items, item_reasons, field, file, unavailable, r),
{
}

proof fn lemma_inserted_with<T>(
    cur: Fact<Vec<T>>,
    index: usize,
    item: T,
    item_reasons: Seq<Reason>,
    u: Reason,
    field: Field,
    file: Seq<char>,
    unavailable: Seq<char>,
    r: Fact<Vec<T>>,
)
    requires
        inserted(cur, index, item, item_reasons, u, r),
        is_file_reason(u, field, file, unavailable),
    ensures
        inserted_with(cur, index, item, item_reasons, field, file, unavailable, r),
{
}

/// What `TEMPLATES` is after the mutation `m`, given what it was.
pub open spec fn template_backends_after(
    current: Option<Fact<Vec<TemplateBackendFact>>>,
    m: ListMutation,
    vals: Map<Seq<char>, Seq<char>>,
    file: Seq<char>,
    r: Fact<Vec<TemplateBackendFact>>,
) -> bool {
    let f = Field::SettingsTemplates;
    match current {
        None => unknown_for(r, f, file, "TEMPLATES mutation appears before assignment or import"@),
        Some(cur) => match m {
            ListMutation::Append(v) => exists|item: Fact<TemplateBackendFact>|
                #[trigger] backend_item_fact(*v, vals, file, item) && appended_fact(
                    cur,
                    item,
                    f,
                    file,
                    "cannot apply TEMPLATES append because the current value is unknown or ambiguous"@,
                    r,
                ),
            ListMutation::Extend(v) => exists|items: Fact<Vec<TemplateBackendFact>>|
                #[trigger] template_backends_fact(*v, vals, file, items) && extended_by_fact(
                    cur,
                    items,
                    f,
                    file,
                    "cannot apply TEMPLATES extend because the current value is unknown or ambiguous"@,
                    r,
                ),
            ListMutation::Insert { index, value } => exists|item: Fact<TemplateBackendFact>|
                #[trigger] backend_item_fact(*value, vals, file, item) && inserted_fact(
                    cur,
                    index,
                    item,
                    f,
                    file,
                    "cannot apply TEMPLATES insert because the current value is unknown or ambiguous"@,
                    r,
                ),
            ListMutation::Unsupported => added_reason(
                cur,
                f,
                file,
                "unsupported dynamic mutation of TEMPLATES"@,
                r,
            ),
        },
    }
}

/// Applies a mutation of `TEMPLATES` to its current fact.
pub fn apply_template_backends_mutation(
    current: Option<Fact<Vec<TemplateBackendFact>>>,
    mutation: ListMutation,
    vals: &Vec<(String, String)>,
    file: &str,
) -> (r: Fact<Vec<TemplateBackendFact>>)
    ensures
        template_backends_after(current, mutation, path_map(vals@), file@, r),
{
    let f = Field::SettingsTemplates;
    let current = match current {
        Some(c) => c,
        None => {
            return Fact::Unknown {
                reasons: vec![reason(f, file, "TEMPLATES mutation appears before assignment or import")],
            };
        },
    };
    let ghost cur = current;
    let ghost m = path_map(vals@);
    match mutation {
        ListMutation::Append(value) => {
            let item = extract_template_backend_item(value, vals, file);
            let ghost it = item;
            let unavailable = reason(
                f,
                file,
                "cannot apply TEMPLATES append because the current value is unknown or ambiguous",
            );
            let r = match item {
                Fact::Known { value: b } => {
                    let one = vec![b];
                    let r = extend_vec_items(current, one, Vec::new(), unavailable);
                    proof {
                        assert(one@ =~= seq![b]);
                        lemma_extended_with(cur, one@, Seq::empty(), unavailable, f, file@,
                            "cannot apply TEMPLATES append because the current value is unknown or ambiguous"@, r);
                    }
                    r
                },
                Fact::Partial { value: b, reasons } => {
                    let one = vec![b];
                    let ghost rs = reasons@;
                    let r = extend_vec_items(current, one, reasons, unavailable);
                    proof {
                        assert(one@ =~= seq![b]);
                        lemma_extended_with(cur, one@, rs, unavailable, f, file@,
                            "cannot apply TEMPLATES append because the current value is unknown or ambiguous"@, r);
                    }
                    r
                },
                Fact::Unknown { reasons } => add_reasons(current, reasons),
                Fact::Ambiguous { reasons, .. } => add_reasons(current, reasons),
            };
            assert(backend_item_fact(*value, m, file@, it));
            r
        },
        ListMutation::Extend(value) => {
            let items = extract_template_backends(value, vals, file);
            let ghost its = items;
            let unavailable = reason(
                f,
                file,
                "cannot apply TEMPLATES extend because the current value is unknown or ambiguous",
            );
            let r = extend_vec_fact(current, items, unavailable);
            proof {
                match its {
                    Fact::Known { value: v } => {
                        lemma_extended_with(cur, v@, Seq::empty(), unavailable, f, file@,
                            "cannot apply TEMPLATES extend because the current value is unknown or ambiguous"@, r);
                    },
                    Fact::Partial { value: v, reasons } => {
                        lemma_extended_with(cur, v@, reasons@, unavailable, f, file@,
                            "cannot apply TEMPLATES extend because the current value is unknown or ambiguous"@, r);
                    },
                    _ => {},
                }
                assert(template_backends_fact(*value, m, file@, its));
            }
            r
        },
        ListMutation::Insert { index, value } => {
            let item = extract_template_backend_item(value, vals, file);
            let ghost it = item;
            let unavailable = reason(
                f,
                file,
                "cannot apply TEMPLATES insert because the current value is unknown or ambiguous",
            );
            let r = insert_vec_fact_from_fact(current, index, item, unavailable);
            proof {
                match it {
                    Fact::Known { value: b } => {
                        lemma_inserted_with(cur, index, b, Seq::empty(), unavailable, f, file@,
                            "cannot apply TEMPLATES insert because the current value is unknown or ambiguous"@, r);
                    },
                    Fact::Partial { value: b, reasons } => {
                        lemma_inserted_with(cur, index, b, reasons@, unavailable, f, file@,
                            "cannot apply TEMPLATES insert because the current value is unknown or ambiguous"@, r);
                    },
                    _ => {},
                }
                assert(backend_item_fact(*value, m, file@, it));
            }
            r
        },
        ListMutation::Unsupported => current.with_reason(
            reason(f, file, "unsupported dynamic mutation of TEMPLATES"),
        ),
    }
}

// ---- statements ----

/// Some of `targets` is the name `target`.
pub open spec fn assigns_name(targets: Seq<Expr>, target: Seq<char>) -> bool {
    exists|i: int| 0 <= i < targets.len() && is_name_spec(#[trigger] targets[i], target)
}

/// The value assigned to the name `target` by an assignment statement.
pub open spec fn assigned_value_spec<'a>(stmt: &'a Stmt, target: Seq<char>) -> Option<&'a Expr> {
    match stmt {
        Stmt::Assign { targets, value } => if assigns_name(targets@, target) {
            Some(value)
        } else {
            None
        },
        Stmt::AnnAssign { target: t, value } => if is_name_spec(*t, target) {
            match value {
                Some(v) => Some(v),
                None => None,
            }
        } else {
            None
        },
        _ => None,
    }
}

#[verifier::loop_isolation(false)]
pub fn assigned_value<'a>(stmt: &'a Stmt, target: &str) -> (r: Option<&'a Expr>)
    ensures
        r == assigned_value_spec(stmt, target@),
{
    match stmt {
        Stmt::Assign { targets, value } => {
            let mut i: usize = 0;
            while i < targets.len()
                invariant
                    i <= targets.len(),
                    forall|j: int| 0 <= j < i ==> !is_name_spec(#[trigger] targets@[j], target@),
                decreases targets.len() - i,
            {
                if is_name(&targets[i], target) {
                    assert(is_name_spec(targets@[i as int], target@));
                    assert(assigns_name(targets@, target@));
                    return Some(value);
                }
                i = i + 1;
            }
            None
        },
        Stmt::AnnAssign { target: t, value } => {
            if is_name(t, target) {
                match value {
                    Some(v) => Some(v),
                    None => None,
                }
            } else {
                None
            }
        },
        _ => None,
    }
}

/// The name and value of an assignment to a plain name (the first target of
/// an assignment, or an annotated assignment with a value).
pub open spec fn simple_assignment_spec<'a>(stmt: &'a Stmt) -> Option<(Seq<char>, &'a Expr)> {
    match stmt {
        Stmt::Assign { targets, value } => if targets@.len() > 0 {
            match targets@[0] {
                Expr::Name { id } => Some((id@, value)),
                _ => None,
            }
        } else {
            None
        },
        Stmt::AnnAssign { target, value } => match (target, value) {
            (Expr::Name { id }, Some(v)) => Some((id@, v)),
            _ => None,
        },
        _ => None,
    }
}

pub fn simple_assignment<'a>(stmt: &'a Stmt) -> (r: Option<(&'a String, &'a Expr)>)
    ensures
        match r {
            Some((n, v)) => simple_assignment_spec(stmt) == Some((n@, v)),
            None => simple_assignment_spec(stmt) is None,
        },
{
    match stmt {
        Stmt::Assign { targets, value } => {
            if targets.len() > 0 {
                match &targets[0] {
                    Expr::Name { id } => Some((id, value)),
                    _ => None,
                }
            } else {
                None
            }
        },
        Stmt::AnnAssign { target, value } => match (target, value) {
            (Expr::Name { id }, Some(v)) => Some((id, v)),
            _ => None,
        },
        _ => None,
    }
}

/// `from module import *` at `level` dots: the module and the level.
pub open spec fn star_import_spec(stmt: Stmt) -> Option<(Option<String>, u32)> {
    match stmt {
        Stmt::ImportFrom { module, names, level } => if names@.len() == 1 && names@[0].name@ == "*"@
            && names@[0].asname is None {
            Some((module, level))
        } else {
            None
        },
        _ => None,
    }
}

pub fn star_import(stmt: &Stmt) -> (r: Option<(Option<&String>, u32)>)
    ensures
        match r {
            Some((m, l)) => star_import_spec(*stmt) matches Some((sm, sl)) && sl == l && match m {
                Some(x) => sm == Some(*x),
                None => sm is None,
            },
            None => star_import_spec(*stmt) is None,
        },
{
    match stmt {
        Stmt::ImportFrom { module, names, level } => {
            if names.len() == 1 && str_eq(names[0].name.as_str(), "*") && names[0].asname.is_none() {
                let m = match module {
                    Some(x) => Some(x),
                    None => None,
                };
                Some((m, *level))
            } else {
                None
            }
        },
        _ => None,
    }
}

/// What one settings file has said so far.
pub struct SettingsExtractionState {
    pub file: String,
    pub files_read: Vec<String>,
    pub path_values: Vec<(String, String)>,
    pub installed_apps: Option<Fact<Vec<String>>>,
    pub template_backends: Option<Fact<Vec<TemplateBackendFact>>>,
    pub installed_apps_import_reasons: Vec<Reason>,
    pub template_backends_import_reasons: Vec<Reason>,
    pub load_failed: bool,
}

/// The path values after `stmt`: an assignment of an evaluable path to a plain
/// name binds it.
pub open spec fn paths_after(vals: Map<Seq<char>, Seq<char>>, stmt: &Stmt, file: Seq<char>) -> Map<
    Seq<char>,
    Seq<char>,
> {
    match simple_assignment_spec(stmt) {
        Some((name, value)) => match eval_path(*value, vals, file) {
            Some(p) => vals.insert(name, p),
            None => vals,
        },
        None => vals,
    }
}

/// `new` is `old` after the statement `stmt` (which is not a star import): the
/// path values it binds, then the first of: an assignment of `INSTALLED_APPS`,
/// of `TEMPLATES`, a mutation of `INSTALLED_APPS`, of `TEMPLATES`.
pub open spec fn statement_effect(old: SettingsExtractionState, stmt: &Stmt, new: SettingsExtractionState) -> bool {
    let file = old.file@;
    let vals = paths_after(path_map(old.path_values@), stmt, file);
    &&& new.file == old.file
    &&& new.files_read == old.files_read
    &&& new.installed_apps_import_reasons == old.installed_apps_import_reasons
    &&& new.template_backends_import_reasons == old.template_backends_import_reasons
    &&& new.load_failed == old.load_failed
    &&& path_map(new.path_values@) == vals
    &&& if let Some(v) = assigned_value_spec(stmt, "INSTALLED_APPS"@) {
        &&& new.installed_apps matches Some(f) && string_list_fact(
            *v,
            Field::SettingsInstalledApps,
            file,
            "INSTALLED_APPS"@,
            f,
        )
        &&& new.template_backends == old.template_backends
    } else if let Some(v) = assigned_value_spec(stmt, "TEMPLATES"@) {
        &&& new.template_backends matches Some(f) && template_backends_fact(*v, vals, file, f)
        &&& new.installed_apps == old.installed_apps
    } else if let Some(m) = list_mutation_spec(stmt, "INSTALLED_APPS"@) {
        &&& new.installed_apps matches Some(f) && installed_apps_after(
            old.installed_apps,
            m,
            file,
            f,
        )
        &&& new.template_backends == old.template_backends
    } else if let Some(m) = list_mutation_spec(stmt, "TEMPLATES"@) {
        &&& new.template_backends matches Some(f) && template_backends_after(
            old.template_backends,
            m,
            vals,
            file,
            f,
        )
        &&& new.installed_apps == old.installed_apps
    } else {
        &&& new.installed_apps == old.installed_apps
        &&& new.template_backends == old.template_backends
    }
}

proof fn lemma_path_map_push(v: Seq<(String, String)>, e: (String, String))
    ensures
        path_map(v.push(e)) == path_map(v).insert(e.0@, e.1@),
{
    assert(v.push(e).drop_last() =~= v);
}

proof fn lemma_path_map_append(a: Seq<(String, String)>, b: Seq<(String, String)>)
    ensures
        path_map(a + b) == path_map(a).union_prefer_right(path_map(b)),
    decreases b.len(),
{
    if b.len() == 0 {
        assert(a + b =~= a);
        assert(path_map(a).union_prefer_right(path_map(b)) =~= path_map(a));
    } else {
        lemma_path_map_append(a, b.drop_last());
        assert((a + b).drop_last() =~= a + b.drop_last());
        assert(path_map(a + b) =~= path_map(a).union_prefer_right(path_map(b)));
    }
}

impl SettingsExtractionState {
    /// The state at the start of `file`: nothing said yet, the file read.
    pub fn new(file: &str) -> (r: SettingsExtractionState)
        ensures
            r.file@ == file@,
            views(r.files_read@) == seq![file@],
            r.path_values@.len() == 0,
            r.installed_apps is None,
            r.template_backends is None,
            r.installed_apps_import_reasons@.len() == 0,
            r.template_backends_import_reasons@.len() == 0,
            !r.load_failed,
    {
        let files_read = vec![file.to_string()];
        proof {
            assert(views(files_read@) =~= seq![file@]);
        }
        SettingsExtractionState {
            file: file.to_string(),
            files_read,
            path_values: Vec::new(),
            installed_apps: None,
            template_backends: None,
            installed_apps_import_reasons: Vec::new(),
            template_backends_import_reasons: Vec::new(),
            load_failed: false,
        }
    }

    /// The state of a file that could not be read or parsed: both settings
    /// unknown for `message`.
    pub fn failed(file: &str, message: &str) -> (r: SettingsExtractionState)
        ensures
            r.file@ == file@,
            views(r.files_read@) == seq![file@],
            r.path_values@.len() == 0,
            r.installed_apps matches Some(f) && unknown_for(
                f,
                Field::SettingsInstalledApps,
                file@,
                message@,
            ),
            r.template_backends matches Some(f) && unknown_for(
                f,
                Field::SettingsTemplates,
                file@,
                message@,
            ),
            r.installed_apps_import_reasons@.len() == 0,
            r.template_backends_import_reasons@.len() == 0,
            r.load_failed,
    {
        let files_read = vec![file.to_string()];
        proof {
            assert(views(files_read@) =~= seq![file@]);
        }
        SettingsExtractionState {
            file: file.to_string(),
            files_read,
            path_values: Vec::new(),
            installed_apps: Some(
                Fact::Unknown {
                    reasons: vec![reason(Field::SettingsInstalledApps, file, message)],
                },
            ),
            template_backends: Some(
                Fact::Unknown { reasons: vec![reason(Field::SettingsTemplates, file, message)] },
            ),
            installed_apps_import_reasons: Vec::new(),
            template_backends_import_reasons: Vec::new(),
            load_failed: true,
        }
    }

    /// Adds `reasons` to both settings.
    pub fn add_import_reasons(&mut self, reasons: Vec<Reason>)
        ensures
            final(self).installed_apps_import_reasons@ == old(self).installed_apps_import_reasons@
                + reasons@,
            final(self).template_backends_import_reasons@
                == old(self).template_backends_import_reasons@ + reasons@,
            final(self).file == old(self).file,
            final(self).files_read == old(self).files_read,
            final(self).path_values == old(self).path_values,
            final(self).installed_apps == old(self).installed_apps,
            final(self).template_backends == old(self).template_backends,
            final(self).load_failed == old(self).load_failed,
    {
        let mut copy = crate::facts::duplicate_reasons(&reasons);
        let mut rest = reasons;
        self.installed_apps_import_reasons.append(&mut copy);
        self.template_backends_import_reasons.append(&mut rest);
    }
}

/// The reasons of a fact, taken out of it.
pub fn into_reasons<T>(f: Fact<T>) -> (r: Vec<Reason>)
    ensures
        r@ == f.reasons_spec(),
{
    match f {
        Fact::Known { .. } => Vec::new(),
        Fact::Partial { reasons, .. } => reasons,
        Fact::Unknown { reasons } => reasons,
        Fact::Ambiguous { reasons, .. } => reasons,
    }
}

/// A fresh state for `file`, as [`SettingsExtractionState::new`] makes it.
pub open spec fn fresh_state(st: SettingsExtractionState, file: Seq<char>) -> bool {
    &&& st.file@ == file
    &&& views(st.files_read@) == seq![file]
    &&& st.path_values@.len() == 0
    &&& st.installed_apps is None
    &&& st.template_backends is None
    &&& st.installed_apps_import_reasons@.len() == 0
    &&& st.template_backends_import_reasons@.len() == 0
    &&& !st.load_failed
}

/// `new` is `old` after taking in the state `imported` of a star-imported file:
/// its files are read too; when it failed, its facts' reasons become import
/// reasons; otherwise its import reasons and path values are taken over, and
/// each setting it assigned replaces ours.
pub open spec fn star_import_effect(
    old: SettingsExtractionState,
    imported: SettingsExtractionState,
    new: SettingsExtractionState,
) -> bool {
    let ia_reasons = match imported.installed_apps {
        Some(f) => f.reasons_spec(),
        None => Seq::empty(),
    };
    let tb_reasons = match imported.template_backends {
        Some(f) => f.reasons_spec(),
        None => Seq::empty(),
    };
    &&& new.file == old.file
    &&& new.files_read@ == old.files_read@ + imported.files_read@
    &&& if imported.load_failed {
        &&& new.installed_apps_import_reasons@ == old.installed_apps_import_reasons@ + ia_reasons
        &&& new.template_backends_import_reasons@ == old.template_backends_import_reasons@
            + tb_reasons
        &&& new.path_values == old.path_values
        &&& new.installed_apps == old.installed_apps
        &&& new.template_backends == old.template_backends
    } else {
        &&& new.installed_apps_import_reasons@ == old.installed_apps_import_reasons@
            + imported.installed_apps_import_reasons@
        &&& new.template_backends_import_reasons@ == old.template_backends_import_reasons@
            + imported.template_backends_import_reasons@
        &&& new.path_values@ == old.path_values@ + imported.path_values@
        &&& new.installed_apps == (if imported.installed_apps is Some {
            imported.installed_apps
        } else {
            old.installed_apps
        })
        &&& new.template_backends == (if imported.template_backends is Some {
            imported.template_backends
        } else {
            old.template_backends
        })
    }
    &&& new.load_failed == old.load_failed
}

impl SettingsExtractionState {
    /// Applies one statement that is not a star import: see [`statement_effect`].
    pub fn apply_statement(&mut self, stmt: &Stmt)
        ensures
            statement_effect(*old(self), stmt, *final(self)),
    {
        let file = self.file.clone();
        let ghost start = *self;
        match simple_assignment(stmt) {
            Some((name, value)) => match evaluate_path(value, &self.path_values, file.as_str()) {
                Some(p) => {
                    let ghost before = self.path_values@;
                    let entry = (name.clone(), p);
                    self.path_values.push(entry);
                    proof {
                        lemma_path_map_push(before, entry);
                    }
                },
                None => {},
            },
            None => {},
        }
        match assigned_value(stmt, "INSTALLED_APPS") {
            Some(v) => {
                self.installed_apps = Some(
                    extract_string_list(v, Field::SettingsInstalledApps, file.as_str(), "INSTALLED_APPS"),
                );
                return ;
            },
            None => {},
        }
        match assigned_value(stmt, "TEMPLATES") {
            Some(v) => {
                self.template_backends = Some(
                    extract_template_backends(v, &self.path_values, file.as_str()),
                );
                return ;
            },
            None => {},
        }
        match list_mutation(stmt, "INSTALLED_APPS") {
            Some(m) => {
                let current = self.installed_apps.take();
                self.installed_apps = Some(apply_installed_apps_mutation(current, m, file.as_str()));
                return ;
            },
            None => {},
        }
        match list_mutation(stmt, "TEMPLATES") {
            Some(m) => {
                let current = self.template_backends.take();
                self.template_backends = Some(
                    apply_template_backends_mutation(current, m, &self.path_values, file.as_str()),
                );
            },
            None => {},
        }
    }

    /// Takes in the state of a star-imported file: see [`star_import_effect`].
    pub fn apply_star_import(&mut self, imported: SettingsExtractionState)
        ensures
            star_import_effect(*old(self), imported, *final(self)),
    {
        let ghost imp = imported;
        let mut imported = imported;
        self.files_read.append(&mut imported.files_read);
        if imported.load_failed {
            match imported.installed_apps {
                Some(f) => {
                    let mut rs = into_reasons(f);
                    self.installed_apps_import_reasons.append(&mut rs);
                },
                None => {},
            }
            match imported.template_backends {
                Some(f) => {
                    let mut rs = into_reasons(f);
                    self.template_backends_import_reasons.append(&mut rs);
                },
                None => {},
            }
            return ;
        }
        self.installed_apps_import_reasons.append(&mut imported.installed_apps_import_reasons);
        self.template_backends_import_reasons.append(
            &mut imported.template_backends_import_reasons,
        );
        self.path_values.append(&mut imported.path_values);
        if imported.installed_apps.is_some() {
            self.installed_apps = imported.installed_apps;
        }
        if imported.template_backends.is_some() {
            self.template_backends = imported.template_backends;
        }
    }

    /// Records more files as read.
    pub fn add_files_read(&mut self, files: Vec<String>)
        ensures
            final(self).files_read@ == old(self).files_read@ + files@,
            final(self).file == old(self).file,
            final(self).path_values == old(self).path_values,
            final(self).installed_apps == old(self).installed_apps,
            final(self).template_backends == old(self).template_backends,
            final(self).installed_apps_import_reasons == old(self).installed_apps_import_reasons,
            final(self).template_backends_import_reasons
                == old(self).template_backends_import_reasons,
            final(self).load_failed == old(self).load_failed,
    {
        let mut files = files;
        self.files_read.append(&mut files);
    }

    /// The facts of the file: the files read, in path order without repeats, and each
    /// setting with the reasons its imports gave, or unknown when it was never
    /// assigned.
    pub fn into_facts(self) -> (r: SettingsFacts)
        ensures
            facts_of(self, r),
    {
        let files = sort_unique_paths(&self.files_read);
        let file = self.file;
        let installed_apps = finalize_setting_fact(
            self.installed_apps,
            self.installed_apps_import_reasons,
            reason(
                Field::SettingsInstalledApps,
                file.as_str(),
                "INSTALLED_APPS is not assigned in this settings file",
            ),
        );
        let template_backends = finalize_setting_fact(
            self.template_backends,
            self.template_backends_import_reasons,
            reason(
                Field::SettingsTemplates,
                file.as_str(),
                "TEMPLATES is not assigned in this settings file",
            ),
        );
        SettingsFacts { file, files_read: files, installed_apps, template_backends }
    }
}

/// `r` are the facts of the state `st`: the files read, in path order
/// without repeats (see [`sorted_unique_paths`]), and each setting with the reasons its imports gave, or unknown
/// when it was never assigned.
pub open spec fn facts_of(st: SettingsExtractionState, r: SettingsFacts) -> bool {
    &&& r.file == st.file
    &&& sorted_unique_paths(views(st.files_read@), views(r.files_read@))
    &&& match st.installed_apps {
            Some(f) => with_reasons_of(
                f,
                Fact::<bool>::Unknown { reasons: st.installed_apps_import_reasons },
                r.installed_apps,
            ),
            None => r.installed_apps matches Fact::Unknown { reasons } && one_more_reason(
                reasons@,
                st.installed_apps_import_reasons@,
                Field::SettingsInstalledApps,
                st.file@,
                "INSTALLED_APPS is not assigned in this settings file"@,
            ),
        }
    &&& match st.template_backends {
            Some(f) => with_reasons_of(
                f,
                Fact::<bool>::Unknown { reasons: st.template_backends_import_reasons },
                r.template_backends,
            ),
            None => r.template_backends matches Fact::Unknown { reasons } && one_more_reason(
                reasons@,
                st.template_backends_import_reasons@,
                Field::SettingsTemplates,
                st.file@,
                "TEMPLATES is not assigned in this settings file"@,
            ),
        }
}

/// The module a star import at `level` dots of `module` names from `current`:
/// relative imports resolve against `current`; an absolute one must name a
/// valid module path.
pub open spec fn star_import_module_fact(
    module: Option<Seq<char>>,
    level: u32,
    current: PyModuleName,
    r: Fact<PyModuleName>,
) -> bool {
    if level > 0 {
        crate::modules::relative_import_fact(current, level as usize, module, r)
    } else {
        match module {
            None => crate::modules::unknown_for_module(
                r,
                Field::ResolverModule,
                current,
                "absolute star import must name a module"@,
            ),
            Some(m) => if crate::names::is_dotted_name(m) {
                r matches Fact::Known { value } && value@ == m
            } else {
                crate::modules::unknown_for_module(
                    r,
                    Field::ResolverModule,
                    current,
                    "star import resolves to an invalid module path: "@ + name_error_message(m),
                )
            },
        }
    }
}

/// The module a star import names: see [`star_import_module_fact`].
pub fn star_import_module(module: Option<&str>, level: u32, current_module: &PyModuleName) -> (r: Fact<
    PyModuleName,
>)
    ensures
        star_import_module_fact(
            match module {
                Some(m) => Some(m@),
                None => None,
            },
            level,
            *current_module,
            r,
        ),
{
    if level > 0 {
        return crate::modules::resolve_relative_import_module(current_module, level as usize, module);
    }
    match module {
        None => Fact::Unknown {
            reasons: vec![
                Reason::module(
                    Field::ResolverModule,
                    current_module.duplicate(),
                    "absolute star import must name a module",
                ),
            ],
        },
        Some(m) => match PyModuleName::parse(m) {
            Ok(name) => Fact::Known { value: name },
            Err(e) => {
                let msg = e.message();
                let message = concat("star import resolves to an invalid module path: ", msg.as_str());
                Fact::Unknown {
                    reasons: vec![
                        Reason::module(Field::ResolverModule, current_module.duplicate(), message.as_str()),
                    ],
                }
            },
        },
    }
}

} // verus!
