//! The variable environment: a mapping from identifiers to stored values,
//! owned and mutated only by the execution engine.

use crate::commands::{Primitive, SpecPrimitive};
use vstd::prelude::*;

verus! {

/// The mapping described by a list of bindings, where an earlier binding
/// shadows a later one with the same name.
pub open spec fn map_of(items: Seq<(String, Primitive)>) -> Map<Seq<char>, SpecPrimitive>
    decreases items.len(),
{
    if items.len() == 0 {
        Map::empty()
    } else {
        map_of(items.drop_first()).insert(items[0].0@, items[0].1@)
    }
}

/// A variable environment.  New bindings are added at the front, and lookup
/// takes the first match, so the view is exactly insert-or-overwrite.
#[derive(Debug, PartialEq, Eq, Clone)]
pub struct Env {
    items: Vec<(String, Primitive)>,
}

impl View for Env {
    type V = Map<Seq<char>, SpecPrimitive>;

    closed spec fn view(&self) -> Map<Seq<char>, SpecPrimitive> {
        map_of(self.items@)
    }
}

impl Env {
    /// An empty environment.
    pub fn new() -> (r: Env)
        ensures
            r@ == Map::<Seq<char>, SpecPrimitive>::empty(),
    {
        Env { items: Vec::new() }
    }

    /// Binds `key` to `value`, overwriting any existing binding.
    pub fn insert(&mut self, key: String, value: Primitive)
        ensures
            final(self)@ == old(self)@.insert(key@, value@),
    {
        let ghost old_items = self.items@;
        let ghost k = key@;
        let ghost v = value@;
        self.items.insert(0, (key, value));
        proof {
            assert(self.items@.drop_first() =~= old_items);
            assert(self.items@[0].0@ == k);
            assert(self.items@[0].1@ == v);
        }
    }

    fn get_from<'a>(&'a self, i: usize, key: &String) -> (r: Option<&'a Primitive>)
        requires
            i <= self.items@.len(),
        ensures
            match r {
                Some(p) => map_of(self.items@.skip(i as int)).contains_key(key@) && p@ == map_of(
                    self.items@.skip(i as int),
                )[key@],
                None => !map_of(self.items@.skip(i as int)).contains_key(key@),
            },
        decreases self.items@.len() - i,
{
        if i == self.items.len() {
            proof {
                assert(self.items@.skip(i as int) =~= Seq::<(String, Primitive)>::empty());
            }
            None
        } else {
            proof {
                assert(self.items@.skip(i as int).drop_first() =~= self.items@.skip(i as int + 1));
                assert(self.items@.skip(i as int)[0] == self.items@[i as int]);
            }
            let entry = &self.items[i];
            if entry.0 == *key {
                Some(&entry.1)
            } else {
                self.get_from(i + 1, key)
            }
        }
    }

    /// Looks up the value bound to `key`, if any.
    pub fn get<'a>(&'a self, key: &String) -> (r: Option<&'a Primitive>)
        ensures
            match r {
                Some(p) => self@.contains_key(key@) && p@ == self@[key@],
                None => !self@.contains_key(key@),
            },
    {
        proof {
            assert(self.items@.skip(0) =~= self.items@);
        }
        self.get_from(0, key)
    }
}

} // verus!
