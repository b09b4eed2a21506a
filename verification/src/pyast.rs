//! The part of a Python module's syntax that settings and app configuration
//! files are read through: assignments, literals, names, attributes, calls,
//! subscripts and binary operators. Everything else is `Other`. A module's
//! source is its statements, or the error that kept them from being had.
use vstd::prelude::*;

verus! {

/// A binary operator.
#[derive(Clone, Copy, Debug, PartialEq, Eq, Structural)]
pub enum Operator {
    Add,
    Div,
    Other,
}

/// A keyword argument of a call.
#[derive(Debug)]
pub struct Keyword {
    pub arg: Option<String>,
    pub value: Expr,
}

/// An entry of a dictionary display; `key` is `None` for `**unpacking`.
#[derive(Debug)]
pub struct DictItem {
    pub key: Option<Expr>,
    pub value: Expr,
}

/// A Python expression.
#[derive(Debug)]
pub enum Expr {
    Name { id: String },
    StringLiteral { value: String },
    /// An integer literal; `value` is `None` when it does not fit a `usize`.
    IntLiteral { value: Option<usize> },
    BooleanLiteral { value: bool },
    List { elts: Vec<Expr> },
    Tuple { elts: Vec<Expr> },
    Dict { items: Vec<DictItem> },
    Attribute { value: Box<Expr>, attr: String },
    BinOp { left: Box<Expr>, op: Operator, right: Box<Expr> },
    Subscript { value: Box<Expr>, slice: Box<Expr> },
    Call { func: Box<Expr>, args: Vec<Expr>, keywords: Vec<Keyword> },
    Other,
}

/// A name imported by `import` or `from ... import`.
#[derive(Clone, Debug, PartialEq, Eq)]
pub struct Alias {
    pub name: String,
    pub asname: Option<String>,
}

/// A Python statement.
#[derive(Debug)]
pub enum Stmt {
    Assign { targets: Vec<Expr>, value: Expr },
    AnnAssign { target: Expr, value: Option<Expr> },
    AugAssign { target: Expr, op: Operator, value: Expr },
    Expr { value: Expr },
    Import { names: Vec<Alias> },
    ImportFrom { module: Option<String>, names: Vec<Alias>, level: u32 },
    FunctionDef { name: String },
    ClassDef { name: String, bases: Vec<Expr>, body: Vec<Stmt> },
    Other,
}

/// What is known of a Python module's source: its statements, or the text of
/// the error that kept them from being had.
pub enum ModuleSource {
    Parsed(Vec<Stmt>),
    Unreadable(String),
    Unparsable(String),
}

/// The source recorded for `file`: that of the first entry for it; `None`
/// when there is none, which is read as a file that could not be read.
pub open spec fn source_of(sources: Seq<(String, ModuleSource)>, file: Seq<char>) -> Option<ModuleSource>
    decreases sources.len(),
{
    if sources.len() == 0 {
        None
    } else if sources[0].0@ == file {
        Some(sources[0].1)
    } else {
        source_of(sources.skip(1), file)
    }
}

/// The source recorded for `file`: see [`source_of`].
pub fn find_source<'a>(sources: &'a Vec<(String, ModuleSource)>, file: &str) -> (r: Option<&'a ModuleSource>)
    ensures
        match r {
            Some(m) => source_of(sources@, file@) == Some(*m),
            None => source_of(sources@, file@) is None,
        },
{
    let mut i: usize = 0;
    assert(sources@.skip(0) =~= sources@);
    while i < sources.len()
        invariant
            i <= sources.len(),
            source_of(sources@, file@) == source_of(sources@.skip(i as int), file@),
        decreases sources.len() - i,
    {
        assert(sources@.skip(i as int)[0] == sources@[i as int]);
        assert(sources@.skip(i as int).skip(1) =~= sources@.skip(i + 1));
        if crate::text::str_eq(sources[i].0.as_str(), file) {
            return Some(&sources[i].1);
        }
        i = i + 1;
    }
    None
}

} // verus!
