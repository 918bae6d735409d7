//! A table of named values.
use vstd::prelude::*;

use vstd::hash_map::StringHashMap;

use crate::text::string_from;
use crate::value::Value;

verus! {

/// A table from names to values.
pub struct Table(StringHashMap<Value>);

impl View for Table {
    type V = Map<Seq<char>, Value>;

    closed spec fn view(&self) -> Map<Seq<char>, Value> {
        self.0@
    }
}

impl Table {
    /// An empty table.
    pub fn new() -> (t: Table)
        ensures
            t@ == Map::<Seq<char>, Value>::empty(),
    {
        Table(StringHashMap::new())
    }

    /// Binds `key` to `value`, replacing any earlier binding; returns whether `key`
    /// was unbound before.
    pub fn add(&mut self, key: &str, value: Value) -> (is_new: bool)
        ensures
            final(self)@ == old(self)@.insert(key@, value),
            is_new == !old(self)@.contains_key(key@),
    {
        let is_new = !self.0.contains_key(key);
        self.0.insert(string_from(key), value);
        is_new
    }

    /// Adds all bindings of `table`; where both bind a key, the binding of `table` wins.
    pub fn add_table(&mut self, table: Table)
        ensures
            final(self)@ == old(self)@.union_prefer_right(table@),
    {
        self.0.union_prefer_right(table.0);
    }

    /// The value bound to `key`, if any.
    pub fn get(&mut self, key: &str) -> (r: Option<&Value>)
        ensures
            *final(self) == *old(self),
            match r {
                Option::Some(v) => old(self)@.contains_key(key@) && *v == old(self)@[key@],
                Option::None => !old(self)@.contains_key(key@),
            },
    {
        self.0.get(key)
    }

    /// Removes the binding of `key`; returns whether there was one.
    pub fn remove(&mut self, key: &str) -> (removed: bool)
        ensures
            final(self)@ == old(self)@.remove(key@),
            removed == old(self)@.contains_key(key@),
    {
        let removed = self.0.contains_key(key);
        self.0.remove(key);
        removed
    }
}

/// The laws of a table, over the maps that `add`, `get` and `remove` are stated
/// on: a read gives back the last value written under the key and leaves the other
/// keys alone; a key written once is no longer new; a key removed is unbound.
pub proof fn lemma_table_laws(t: Map<Seq<char>, Value>, k: Seq<char>, other: Seq<char>, v: Value)
    requires
        other != k,
    ensures
        t.insert(k, v).contains_key(k),
        t.insert(k, v)[k] == v,
        t.insert(k, v).contains_key(other) == t.contains_key(other),
        t.contains_key(other) ==> t.insert(k, v)[other] == t[other],
        !t.insert(k, v).remove(k).contains_key(k),
        t.remove(k).remove(k) == t.remove(k),
{
    assert(t.remove(k).remove(k) =~= t.remove(k));
}

} // verus!
