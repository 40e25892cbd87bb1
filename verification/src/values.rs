//! The exact values that the analysis has attached to classes so far.

use crate::constant::Constant;
use crate::fold::value_of;
use crate::language::Id;
use crate::rational::Rational;
use std::collections::HashMap;
use vstd::prelude::*;

verus! {

broadcast use vstd::std_specs::hash::group_hash_axioms;

/// A table from class handles to known values. A class without an entry
/// has no known value.
pub struct ClassValues {
    known: HashMap<usize, Constant>,
}

impl View for ClassValues {
    type V = Map<Id, Rational>;

    closed spec fn view(&self) -> Map<Id, Rational> {
        Map::new(|id: Id| self.known@.contains_key(id.0), |id: Id| self.known@[id.0]@)
    }
}

impl ClassValues {
    /// The value of class `id`, if it is known.
    pub open spec fn value(&self, id: Id) -> Option<Rational> {
        if self@.contains_key(id) {
            Some(self@[id])
        } else {
            None
        }
    }

    /// Every value in the table is in lowest terms.
    pub open spec fn reduced(&self) -> bool {
        forall|id: Id| #[trigger] self@.contains_key(id) ==> self@[id].wf()
    }

    /// The table in which nothing is known.
    pub fn new() -> (r: ClassValues)
        ensures
            r@ == Map::<Id, Rational>::empty(),
    {
        let r = ClassValues { known: HashMap::new() };
        assert(r@ =~= Map::<Id, Rational>::empty());
        r
    }

    /// Replaces what is known of class `id`.
    pub fn set(&mut self, id: Id, data: Option<Constant>)
        ensures
            final(self)@ == match data {
                Some(c) => old(self)@.insert(id, c@),
                None => old(self)@.remove(id),
            },
    {
        match data {
            Some(c) => {
                self.known.insert(id.0, c);
                assert(self@ =~= old(self)@.insert(id, c@));
            },
            None => {
                self.known.remove(&id.0);
                assert(self@ =~= old(self)@.remove(id));
            },
        }
    }

    /// What is known of class `id`.
    pub fn get(&self, id: Id) -> (r: Option<&Constant>)
        ensures
            value_of(r) == self.value(id),
    {
        self.known.get(&id.0)
    }
}

} // verus!
