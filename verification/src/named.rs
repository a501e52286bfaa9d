//! A map from names to values of any type.

use vstd::prelude::*;
use vstd::hash_map::StringHashMap;

verus! {

/// Values by name.
#[verifier::reject_recursive_types(V)]
pub struct Named<V> {
    map: StringHashMap<V>,
}

impl<V> View for Named<V> {
    type V = Map<Seq<char>, V>;

    closed spec fn view(&self) -> Map<Seq<char>, V> {
        self.map@
    }
}

impl<V> Named<V> {
    /// A map that holds nothing.
    pub fn new() -> (m: Named<V>)
        ensures
            m@ == Map::<Seq<char>, V>::empty(),
    {
        Named { map: StringHashMap::new() }
    }

    /// Binds `key` to `value`, replacing what `key` was bound to before.
    pub fn insert(&mut self, key: &str, value: V)
        ensures
            final(self)@ == old(self)@.insert(key@, value),
    {
        self.map.insert(key.to_owned(), value);
    }

    /// The value that `key` is bound to, if any.
    pub fn get(&self, key: &str) -> (r: Option<&V>)
        ensures
            match r {
                Some(v) => self@.contains_key(key@) && self@[key@] == *v,
                None => !self@.contains_key(key@),
            },
    {
        self.map.get(key)
    }

    /// Whether `key` is bound to a value.
    pub fn contains_key(&self, key: &str) -> (r: bool)
        ensures
            r == self@.contains_key(key@),
    {
        self.map.contains_key(key)
    }

    /// How many names are bound.
    pub fn len(&self) -> (n: usize)
        ensures
            n == self@.len(),
    {
        self.map.len()
    }
}

} // verus!
