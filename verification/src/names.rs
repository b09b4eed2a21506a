//! Validated names: Python module paths, template library load names, template
//! symbol names and template names.
use vstd::prelude::*;
use vstd::string::StrSliceExecFns;

use crate::text::concat;

verus! {

/// A character that may start a Python identifier (ASCII subset).
pub open spec fn is_ident_start(c: char) -> bool {
    ('a' <= c && c <= 'z') || ('A' <= c && c <= 'Z') || c == '_'
}

/// A character that may continue a Python identifier (ASCII subset).
pub open spec fn is_ident_char(c: char) -> bool {
    is_ident_start(c) || ('0' <= c && c <= '9')
}

/// `s` is a dotted path of identifiers: `a`, `a.b_c`, `pkg.sub2.mod`. Every dot
/// is followed by an identifier start, so there are no empty segments and no
/// segment starts with a digit.
pub open spec fn is_dotted_name(s: Seq<char>) -> bool {
    &&& s.len() > 0
    &&& is_ident_start(s[0])
    &&& forall|i: int|
        0 <= i < s.len() ==> if #[trigger] s[i] == '.' {
            i + 1 < s.len() && is_ident_start(s[i + 1])
        } else {
            is_ident_char(s[i])
        }
}

/// `s` names a template tag or filter: not empty, without whitespace or braces.
pub open spec fn is_symbol_name(s: Seq<char>) -> bool {
    &&& s.len() > 0
    &&& forall|i: int|
        0 <= i < s.len() ==> !is_space_or_brace(#[trigger] s[i])
}

pub open spec fn is_space_or_brace(c: char) -> bool {
    c == ' ' || c == '\t' || c == '\n' || c == '\r' || c == '{' || c == '}' || c == '|'
}

fn char_is_ident_start(c: char) -> (r: bool)
    ensures
        r == is_ident_start(c),
{
    ('a' <= c && c <= 'z') || ('A' <= c && c <= 'Z') || c == '_'
}

fn char_is_ident_char(c: char) -> (r: bool)
    ensures
        r == is_ident_char(c),
{
    char_is_ident_start(c) || ('0' <= c && c <= '9')
}

/// Whether `s` is a dotted path of identifiers.
pub fn check_dotted_name(s: &str) -> (r: bool)
    ensures
        r == is_dotted_name(s@),
{
    let n = s.unicode_len();
    if n == 0 {
        return false;
    }
    if !char_is_ident_start(s.get_char(0)) {
        return false;
    }
    let mut i: usize = 0;
    while i < n
        invariant
            n == s@.len(),
            i <= n,
            n > 0,
            is_ident_start(s@[0]),
            forall|j: int|
                0 <= j < i ==> if #[trigger] s@[j] == '.' {
                    j + 1 < s@.len() && is_ident_start(s@[j + 1])
                } else {
                    is_ident_char(s@[j])
                },
        decreases n - i,
    {
        let c = s.get_char(i);
        if c == '.' {
            if i + 1 >= n || !char_is_ident_start(s.get_char(i + 1)) {
                assert(!(i + 1 < s@.len() && is_ident_start(s@[i + 1])));
                return false;
            }
        } else if !char_is_ident_char(c) {
            return false;
        }
        i = i + 1;
    }
    true
}

/// The message of the error for refusing `name`.
pub open spec fn name_error_message(name: Seq<char>) -> Seq<char> {
    if name.len() == 0 {
        "name is empty"@
    } else {
        "`"@ + name + "` is not a valid name"@
    }
}

/// Why a name was refused.
#[derive(Clone, Debug, PartialEq, Eq)]
pub enum NameError {
    Empty,
    Invalid { name: String },
}

impl NameError {
    pub open spec fn message_spec(&self) -> Seq<char> {
        match self {
            NameError::Empty => "name is empty"@,
            NameError::Invalid { name } => "`"@ + name@ + "` is not a valid name"@,
        }
    }

    /// A message for the error.
    pub fn message(&self) -> (r: String)
        ensures
            r@ == self.message_spec(),
    {
        match self {
            NameError::Empty => "name is empty".to_string(),
            NameError::Invalid { name } => {
                let m = concat("`", name.as_str());
                concat(m.as_str(), "` is not a valid name")
            },
        }
    }
}

/// A dotted Python module path such as `django.contrib.admin`.
#[derive(Debug, PartialEq, Eq, PartialOrd, Ord, Hash)]
pub struct PyModuleName {
    name: String,
}

impl Clone for PyModuleName {
    fn clone(&self) -> (r: PyModuleName)
        ensures
            r == *self,
    {
        self.duplicate()
    }
}

impl View for PyModuleName {
    type V = Seq<char>;

    closed spec fn view(&self) -> Seq<char> {
        self.name@
    }
}

impl PyModuleName {
    /// Every module name is a dotted path of identifiers.
    #[verifier::type_invariant]
    spec fn dotted(&self) -> bool {
        is_dotted_name(self.name@)
    }

    /// A copy of the name.
    pub fn duplicate(&self) -> (r: PyModuleName)
        ensures
            r == *self,
    {
        proof {
            use_type_invariant(self);
        }
        PyModuleName { name: self.name.clone() }
    }

    pub closed spec fn wf(&self) -> bool {
        is_dotted_name(self.name@)
    }

    /// Accepts `name` exactly when it is a dotted path of identifiers.
    pub fn parse(name: &str) -> (r: Result<PyModuleName, NameError>)
        ensures
            r is Ok <==> is_dotted_name(name@),
            r matches Ok(m) ==> m@ == name@ && m.wf(),
            r matches Err(e) ==> (e is Empty <==> name@.len() == 0) && e.message_spec()
                == name_error_message(name@),
    {
        if check_dotted_name(name) {
            Ok(PyModuleName { name: name.to_string() })
        } else if name.unicode_len() == 0 {
            Err(NameError::Empty)
        } else {
            Err(NameError::Invalid { name: name.to_string() })
        }
    }

    pub fn as_str(&self) -> (r: &str)
        ensures
            r@ == self@,
            is_dotted_name(r@),
    {
        proof {
            use_type_invariant(self);
        }
        self.name.as_str()
    }
}

/// The name a template library is loaded by: `{% load i18n %}`, or
/// `{% load admin.tags %}` for a nested module.
#[derive(Clone, Debug, PartialEq, Eq, PartialOrd, Ord, Hash)]
pub struct LibraryName {
    name: String,
}

impl View for LibraryName {
    type V = Seq<char>;

    closed spec fn view(&self) -> Seq<char> {
        self.name@
    }
}

impl LibraryName {
    /// A copy of the name.
    pub fn duplicate(&self) -> (r: LibraryName)
        ensures
            r == *self,
    {
        LibraryName { name: self.name.clone() }
    }

    pub closed spec fn wf(&self) -> bool {
        is_dotted_name(self.name@)
    }

    /// Accepts `name` exactly when it is a dotted path of identifiers.
    pub fn parse(name: &str) -> (r: Result<LibraryName, NameError>)
        ensures
            r is Ok <==> is_dotted_name(name@),
            r matches Ok(l) ==> l@ == name@ && l.wf(),
            r matches Err(e) ==> (e is Empty <==> name@.len() == 0) && e.message_spec()
                == name_error_message(name@),
    {
        if check_dotted_name(name) {
            Ok(LibraryName { name: name.to_string() })
        } else if name.unicode_len() == 0 {
            Err(NameError::Empty)
        } else {
            Err(NameError::Invalid { name: name.to_string() })
        }
    }

    pub fn as_str(&self) -> (r: &str)
        ensures
            r@ == self@,
    {
        self.name.as_str()
    }
}

/// The name of a template tag or filter.
#[derive(Clone, Debug, PartialEq, Eq, PartialOrd, Ord, Hash)]
pub struct TemplateSymbolName {
    name: String,
}

impl View for TemplateSymbolName {
    type V = Seq<char>;

    closed spec fn view(&self) -> Seq<char> {
        self.name@
    }
}

impl TemplateSymbolName {
    /// A copy of the name.
    pub fn duplicate(&self) -> (r: TemplateSymbolName)
        ensures
            r == *self,
    {
        TemplateSymbolName { name: self.name.clone() }
    }

    /// Accepts `name` when it is not empty and holds no whitespace, brace or pipe.
    pub fn parse(name: &str) -> (r: Result<TemplateSymbolName, NameError>)
        ensures
            r is Ok <==> is_symbol_name(name@),
            r matches Ok(s) ==> s@ == name@,
            r matches Err(e) ==> (e is Empty <==> name@.len() == 0) && e.message_spec()
                == name_error_message(name@),
    {
        let n = name.unicode_len();
        if n == 0 {
            return Err(NameError::Empty);
        }
        let mut i: usize = 0;
        while i < n
            invariant
                n == name@.len(),
                i <= n,
                forall|j: int| 0 <= j < i ==> !is_space_or_brace(#[trigger] name@[j]),
            decreases n - i,
        {
            let c = name.get_char(i);
            if c == ' ' || c == '\t' || c == '\n' || c == '\r' || c == '{' || c == '}' || c == '|' {
                return Err(NameError::Invalid { name: name.to_string() });
            }
            i = i + 1;
        }
        Ok(TemplateSymbolName { name: name.to_string() })
    }

    /// The name if it is valid, else `None`.
    pub fn new(name: &str) -> (r: Option<TemplateSymbolName>)
        ensures
            r is Some <==> is_symbol_name(name@),
            r matches Some(s) ==> s@ == name@,
    {
        match Self::parse(name) {
            Ok(s) => Some(s),
            Err(_) => None,
        }
    }

    pub fn as_str(&self) -> (r: &str)
        ensures
            r@ == self@,
    {
        self.name.as_str()
    }
}

/// The name a template is referred to by, such as `admin/base.html`.
#[derive(Clone, Debug, PartialEq, Eq, PartialOrd, Ord, Hash)]
pub struct TemplateName {
    name: String,
}

impl View for TemplateName {
    type V = Seq<char>;

    closed spec fn view(&self) -> Seq<char> {
        self.name@
    }
}

impl TemplateName {
    pub fn new(name: String) -> (r: TemplateName)
        ensures
            r@ == name@,
    {
        TemplateName { name }
    }

    pub fn name(&self) -> (r: &str)
        ensures
            r@ == self@,
    {
        self.name.as_str()
    }
}

} // verus!
