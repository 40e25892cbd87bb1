//! What is recorded after each round of saturation: for every tracked
//! root the best expression that extraction found, and its cost. Each
//! round is recorded afresh; nothing is carried over from the round before.

use crate::language::Id;
use crate::language::Math;
use vstd::prelude::*;

verus! {

/// An expression as a list of nodes, each operand of a node being the
/// index of an earlier node; the last node is the root.
#[derive(Debug)]
pub struct RecExpr {
    pub nodes: Vec<Math>,
}

/// The best expression of a class and its cost.
#[derive(Debug)]
pub struct Extracted {
    pub best: RecExpr,
    pub cost: usize,
}

/// The record of one round: one entry for each tracked root.
#[derive(Debug)]
pub struct IterData {
    pub extracted: Vec<(Id, Extracted)>,
}

/// The entry for `root`, from the cost and the expression that extraction
/// found for it.
pub open spec fn entry(root: Id, found: (usize, RecExpr)) -> (Id, Extracted) {
    (root, Extracted { best: found.1, cost: found.0 })
}

impl IterData {
    /// Records a round. `found` holds what extraction gave for each root,
    /// cost first, in the order of `roots`. Each root is paired with its
    /// own result; a root without a result, or a result without a root,
    /// is left out.
    pub fn make(roots: &Vec<Id>, found: Vec<(usize, RecExpr)>) -> (r: IterData)
        ensures
            r.extracted@.len() == if roots@.len() <= found@.len() {
                roots@.len()
            } else {
                found@.len()
            },
            forall|i: int|
                0 <= i < r.extracted@.len() ==> r.extracted@[i] == entry(roots@[i], found@[i]),
    {
        let mut found = found;
        let ghost all = found@;
        let mut stack: Vec<(usize, RecExpr)> = Vec::new();
        while found.len() > 0
            invariant
                stack@.len() + found@.len() == all.len(),
                found@ == all.take(found@.len() as int),
                forall|i: int| 0 <= i < stack@.len() ==> stack@[i] == all[all.len() - 1 - i],
            decreases found.len(),
        {
            let f = found.pop().unwrap();
            stack.push(f);
        }
        let mut extracted: Vec<(Id, Extracted)> = Vec::new();
        let mut i: usize = 0;
        while i < roots.len() && stack.len() > 0
            invariant
                i <= roots@.len(),
                i + stack@.len() == all.len(),
                forall|j: int| 0 <= j < stack@.len() ==> stack@[j] == all[all.len() - 1 - j],
                extracted@.len() == i,
                forall|j: int| 0 <= j < i ==> extracted@[j] == entry(roots@[j], all[j]),
            decreases stack.len(),
        {
            let (cost, best) = stack.pop().unwrap();
            extracted.push((roots[i], Extracted { best, cost }));
            i = i + 1;
        }
        IterData { extracted }
    }
}

} // verus!
