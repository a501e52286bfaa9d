//! Kinds of template variables, told apart by name.

use vstd::prelude::*;
use crate::text::same_text;

verus! {

/// The kind of a name that occurs in a template, with the name.
#[derive(Debug, Clone, PartialEq, Eq)]
pub enum VariableKind {
    /// A variable that holds text.
    String(String),
    /// A variable that holds a signed integer.
    Int(String),
    /// A variable that holds an unsigned integer.
    UInt(String),
    /// A variable that holds a truth value.
    Bool(String),
    /// No variable: text that stands for itself.
    Literal(String),
}

/// The kinds, without the name.
pub enum KindTag {
    String,
    Int,
    UInt,
    Bool,
    Literal,
}

impl VariableKind {
    /// The kind, without the name.
    pub open spec fn tag(&self) -> KindTag {
        match self {
            VariableKind::String(_) => KindTag::String,
            VariableKind::Int(_) => KindTag::Int,
            VariableKind::UInt(_) => KindTag::UInt,
            VariableKind::Bool(_) => KindTag::Bool,
            VariableKind::Literal(_) => KindTag::Literal,
        }
    }

    /// The name.
    pub open spec fn name(&self) -> Seq<char> {
        match self {
            VariableKind::String(n) => n@,
            VariableKind::Int(n) => n@,
            VariableKind::UInt(n) => n@,
            VariableKind::Bool(n) => n@,
            VariableKind::Literal(n) => n@,
        }
    }

    /// The word for the kind: `string`, `int`, `uint`, `bool` or `literal`.
    pub fn to_string(&self) -> (s: String)
        ensures
            s@ == match self.tag() {
                KindTag::String => "string"@,
                KindTag::Int => "int"@,
                KindTag::UInt => "uint"@,
                KindTag::Bool => "bool"@,
                KindTag::Literal => "literal"@,
            },
    {
        match self {
            VariableKind::String(_) => "string".to_owned(),
            VariableKind::Int(_) => "int".to_owned(),
            VariableKind::UInt(_) => "uint".to_owned(),
            VariableKind::Bool(_) => "bool".to_owned(),
            VariableKind::Literal(_) => "literal".to_owned(),
        }
    }
}

/// Whether `name` is one of `names`.
pub open spec fn listed(names: Seq<&'static str>, name: Seq<char>) -> bool {
    exists|i: int| 0 <= i < names.len() && (#[trigger] names[i])@ == name
}

/// The kind of `name`, given the names of each kind. The lists are tried in
/// the order integers, unsigned integers, truth values, strings; a name in
/// none of them is a literal.
pub open spec fn kind_of(
    name: Seq<char>,
    ints: Seq<&'static str>,
    uints: Seq<&'static str>,
    booleans: Seq<&'static str>,
    strings: Seq<&'static str>,
) -> KindTag {
    if listed(ints, name) {
        KindTag::Int
    } else if listed(uints, name) {
        KindTag::UInt
    } else if listed(booleans, name) {
        KindTag::Bool
    } else if listed(strings, name) {
        KindTag::String
    } else {
        KindTag::Literal
    }
}

/// Whether `name` is one of `names`.
pub fn is_listed(names: &[&'static str], name: &str) -> (b: bool)
    ensures
        b == listed(names@, name@),
{
    let mut i: usize = 0;
    while i < names.len()
        invariant
            i <= names.len(),
            forall|k: int| 0 <= k < i ==> (#[trigger] names@[k])@ != name@,
        decreases names.len() - i,
    {
        if same_text(names[i], name) {
            return true;
        }
        i += 1;
    }
    false
}

/// The kind of `name`, with the name, given the names of each kind.
pub fn classify_name(
    name: &str,
    ints: &[&'static str],
    uints: &[&'static str],
    booleans: &[&'static str],
    strings: &[&'static str],
) -> (k: VariableKind)
    ensures
        k.name() == name@,
        k.tag() == kind_of(name@, ints@, uints@, booleans@, strings@),
{
    let owned = name.to_owned();
    if is_listed(ints, name) {
        VariableKind::Int(owned)
    } else if is_listed(uints, name) {
        VariableKind::UInt(owned)
    } else if is_listed(booleans, name) {
        VariableKind::Bool(owned)
    } else if is_listed(strings, name) {
        VariableKind::String(owned)
    } else {
        VariableKind::Literal(owned)
    }
}

/// The names of the variables of each kind. A type that implements this
/// trait lists its names, or leaves a list empty; `kind` then classifies
/// any name by them, as [`classify_name`] does.
///
/// Each of the four lists is empty unless the type overrides its method. The
/// methods promise nothing of a list, so that a type is free to list any
/// names; what becomes of the lists is stated by [`classify_name`].
pub trait VariableNames {
    /// The names of the variables that hold text.
    fn strings() -> &'static [&'static str] {
        let names: &'static [&'static str] = &[];
        names
    }

    /// The names of the variables that hold signed integers.
    fn ints() -> &'static [&'static str] {
        let names: &'static [&'static str] = &[];
        names
    }

    /// The names of the variables that hold unsigned integers.
    fn uints() -> &'static [&'static str] {
        let names: &'static [&'static str] = &[];
        names
    }

    /// The names of the variables that hold truth values.
    fn booleans() -> &'static [&'static str] {
        let names: &'static [&'static str] = &[];
        names
    }

    /// The kind of `name`, with the name.
    fn kind(name: &str) -> (k: VariableKind)
        ensures
            k.name() == name@,
    {
        classify_name(name, Self::ints(), Self::uints(), Self::booleans(), Self::strings())
    }
}

/// A set of variables that names none: every name is a literal.
pub struct EmtpyVariables;

impl VariableNames for EmtpyVariables {
    fn kind(name: &str) -> (k: VariableKind)
        ensures
            k.tag() == KindTag::Literal,
    {
        let none: &'static [&'static str] = &[];
        classify_name(name, none, none, none, none)
    }
}

} // verus!
