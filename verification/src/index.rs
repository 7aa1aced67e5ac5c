//! The in-memory index: each live key with the span of its latest record.

use crate::history::Spans;
use crate::pos::CommandPos;
use vstd::hash_map::StringHashMap;
use vstd::prelude::*;

verus! {

/// A map from key to the span of the record that holds the key's value.
/// A key that is absent has no value.
pub struct Index {
    map: StringHashMap<CommandPos>,
}

impl View for Index {
    type V = Spans;

    closed spec fn view(&self) -> Spans {
        self.map@
    }
}

impl Index {
    /// An index without keys.
    pub fn new() -> (index: Index)
        ensures
            index@ == Spans::empty(),
    {
        Index { map: StringHashMap::new() }
    }

    /// The span recorded for `key`, or `None` where the key is absent.
    pub fn get(&self, key: &str) -> (span: Option<CommandPos>)
        ensures
            span == if self@.contains_key(key@) {
                Some(self@[key@])
            } else {
                None
            },
    {
        match self.map.get(key) {
            Some(span) => Some(*span),
            None => None,
        }
    }

    /// Points `key` at `span`, in place of any span recorded for it before.
    pub fn insert(&mut self, key: String, span: CommandPos)
        ensures
            final(self)@ == old(self)@.insert(key@, span),
    {
        self.map.insert(key, span);
    }

    /// Drops `key`, and returns the span that was recorded for it, or `None`
    /// where the key was absent.
    pub fn remove(&mut self, key: &str) -> (span: Option<CommandPos>)
        ensures
            final(self)@ == old(self)@.remove(key@),
            span == if old(self)@.contains_key(key@) {
                Some(old(self)@[key@])
            } else {
                None
            },
    {
        let span = self.get(key);
        self.map.remove(key);
        span
    }

    /// The number of keys.
    pub fn len(&self) -> (count: usize)
        ensures
            count == self@.len(),
    {
        self.map.len()
    }
}

} // verus!
