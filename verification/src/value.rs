//! The values that a template is formatted with, and the context that maps
//! names to them.

use vstd::prelude::*;
use vstd::hash_map::StringHashMap;
use crate::text::{int_string, int_text};

verus! {

/// A value that a context binds a name to.
#[derive(Debug, Clone, PartialEq)]
pub enum Value {
    /// A piece of text.
    String(String),
    /// A signed integer.
    Int(i64),
    /// A truth value.
    Bool(bool),
}

/// The mathematical value of a [`Value`].
pub enum ValueView {
    String(Seq<char>),
    Int(i64),
    Bool(bool),
}

impl View for Value {
    type V = ValueView;

    open spec fn view(&self) -> ValueView {
        match self {
            Value::String(s) => ValueView::String(s@),
            Value::Int(i) => ValueView::Int(*i),
            Value::Bool(b) => ValueView::Bool(*b),
        }
    }
}

/// The text that stands for a value in formatted output: a string as it is,
/// an integer as its decimal numeral, a truth value as `true` or `false`.
pub open spec fn value_text(v: ValueView) -> Seq<char> {
    match v {
        ValueView::String(s) => s,
        ValueView::Int(i) => int_text(i as int),
        ValueView::Bool(b) => if b {
            "true"@
        } else {
            "false"@
        },
    }
}

impl Value {
    /// The text that stands for this value in formatted output.
    pub fn to_string(&self) -> (s: String)
        ensures
            s@ == value_text(self@),
    {
        match self {
            Value::String(s) => s.clone(),
            Value::Int(i) => int_string(*i),
            Value::Bool(b) => if *b {
                "true".to_owned()
            } else {
                "false".to_owned()
            },
        }
    }
}

/// What a context is, mathematically: a finite map from names to values.
pub type ContextView = Map<Seq<char>, ValueView>;

/// The names and values that a template is formatted against.
pub struct Context {
    map: StringHashMap<Value>,
}

impl View for Context {
    type V = ContextView;

    closed spec fn view(&self) -> ContextView {
        self.map@.map_values(|v: Value| v@)
    }
}

impl Context {
    /// A context that binds no name.
    pub fn new() -> (ctx: Context)
        ensures
            ctx@ == Map::<Seq<char>, ValueView>::empty(),
    {
        let ctx = Context { map: StringHashMap::new() };
        assert(ctx@ =~= Map::<Seq<char>, ValueView>::empty());
        ctx
    }

    /// Binds `key` to `value`, replacing what `key` was bound to before.
    pub fn insert(&mut self, key: &str, value: Value)
        ensures
            final(self)@ == old(self)@.insert(key@, value@),
    {
        self.map.insert(key.to_owned(), value);
        assert(self@ =~= old(self)@.insert(key@, value@));
    }

    /// The value that `key` is bound to, if any.
    pub fn get(&self, key: &str) -> (r: Option<&Value>)
        ensures
            match r {
                Some(v) => self@.contains_key(key@) && self@[key@] == v@,
                None => !self@.contains_key(key@),
            },
    {
        self.map.get(key)
    }

    /// Whether `key` is bound to a value.
    pub fn contains_key(&self, key: &str) -> (r: bool)
        ensures
            r == self@.contains_key(key@),
    {
        self.map.contains_key(key)
    }

    /// How many names are bound.
    pub fn len(&self) -> (n: usize)
        ensures
            n == self@.len(),
    {
        proof {
            assert(self@.dom() =~= self.map@.dom());
        }
        self.map.len()
    }
}

} // verus!
