//! The cost of a node for extraction: the size of the tree below it,
//! except that a power with a fractional exponent of odd denominator is
//! never to be chosen.

use crate::constant::integer_is_odd;
use crate::constant::integer_is_one;
use crate::language::Id;
use crate::language::Math;
use crate::rational::Rational;
use crate::values::ClassValues;
use vstd::prelude::*;

verus! {

/// The sum of the costs.
pub open spec fn total(costs: Seq<usize>) -> nat
    decreases costs.len(),
{
    if costs.len() == 0 {
        0
    } else {
        total(costs.drop_last()) + costs.last() as nat
    }
}

/// A power whose exponent is known and, in lowest terms, has an odd
/// denominator other than one. Such a power stands for a real root, whose
/// branch may differ from the intended one when the base is negative.
pub open spec fn penalized(values: &ClassValues, enode: &Math) -> bool {
    enode matches Math::Pow(ids) && (values.value(ids[2]) matches Some(p) && p.den != 1 && p.den % 2
        == 1)
}

/// One more than `sum`, cut off at the largest cost.
pub open spec fn saturated(sum: nat) -> usize {
    if 1 + sum > usize::MAX {
        usize::MAX
    } else {
        (1 + sum) as usize
    }
}

/// A cost function that reads the exact values of the classes.
pub struct AltCost<'a> {
    pub values: &'a ClassValues,
}

impl<'a> AltCost<'a> {
    /// A cost function over the values in `values`.
    pub fn new(values: &'a ClassValues) -> (r: AltCost<'a>)
        ensures
            r.values == values,
    {
        AltCost { values }
    }

    /// The largest cost for a penalized power; for every other node one
    /// more than the costs of its operands together, as far as a cost
    /// can count.
    pub open spec fn spec_cost(&self, enode: &Math, costs: Seq<usize>) -> usize {
        if penalized(self.values, enode) {
            usize::MAX
        } else {
            saturated(total(costs))
        }
    }

    /// Whether `enode` is a penalized power. The cost of such a node does
    /// not depend on what its operands cost.
    pub fn penalizes(&self, enode: &Math) -> (r: bool)
        ensures
            r == penalized(self.values, enode),
    {
        if let Math::Pow(ids) = enode {
            if let Some(n) = self.values.get(ids[2]) {
                return !integer_is_one(n.denom()) && integer_is_odd(n.denom());
            }
        }
        false
    }

    /// The cost of `enode`, where `costs` holds the cost of each of its
    /// operands.
    pub fn cost(&mut self, enode: &Math, costs: &Vec<usize>) -> (r: usize)
        ensures
            r == old(self).spec_cost(enode, costs@),
            *final(self) == *old(self),
    {
        if self.penalizes(enode) {
            return usize::MAX;
        }
        let mut sum: usize = 1;
        let mut i: usize = 0;
        while i < costs.len()
            invariant
                i <= costs.len(),
                sum == saturated(total(costs@.take(i as int))),
            decreases costs.len() - i,
        {
            proof {
                assert(costs@.take(i + 1).drop_last() =~= costs@.take(i as int));
            }
            sum = sum.saturating_add(costs[i]);
            i = i + 1;
        }
        assert(costs@.take(costs.len() as int) =~= costs@);
        sum
    }
}

/// The sum is not below any of its terms.
pub proof fn lemma_total_bounds(costs: Seq<usize>, i: int)
    requires
        0 <= i < costs.len(),
    ensures
        total(costs) >= costs[i],
    decreases costs.len(),
{
    if i < costs.len() - 1 {
        lemma_total_bounds(costs.drop_last(), i);
    }
}

/// The sum of three costs.
pub proof fn lemma_total_of_three(costs: Seq<usize>)
    requires
        costs.len() == 3,
    ensures
        total(costs) == costs[0] + costs[1] + costs[2],
{
    reveal_with_fuel(total, 4);
    assert(costs.drop_last().drop_last().drop_last().len() == 0);
}

/// A power whose exponent is known to be a fraction with an odd
/// denominator other than one costs the most that a cost can be,
/// whatever its operands cost.
pub proof fn law_fractional_power_cost(
    values: &ClassValues,
    ids: [Id; 3],
    p: Rational,
    costs: Seq<usize>,
)
    requires
        values.value(ids[2]) == Some(p),
        p.den != 1,
        p.den % 2 == 1,
    ensures
        (AltCost { values }).spec_cost(&Math::Pow(ids), costs) == usize::MAX,
{
}

/// A power whose exponent is known to be a whole number costs one more
/// than its three operands together: context, base and exponent.
pub proof fn law_integer_power_cost(
    values: &ClassValues,
    ids: [Id; 3],
    p: Rational,
    costs: Seq<usize>,
)
    requires
        values.value(ids[2]) == Some(p),
        p.den == 1,
        costs.len() == 3,
    ensures
        (AltCost { values }).spec_cost(&Math::Pow(ids), costs) == saturated(
            (costs[0] + costs[1] + costs[2]) as nat,
        ),
        1 + costs[0] + costs[1] + costs[2] <= usize::MAX ==> (AltCost { values }).spec_cost(
            &Math::Pow(ids),
            costs,
        ) == 1 + costs[0] + costs[1] + costs[2],
{
    lemma_total_of_three(costs);
}

/// A node without operands costs one, unless it is a penalized power.
/// Every node costs at least one, and more than each of its operands
/// unless its cost is the largest there is.
pub proof fn law_cost_bounds(cost: AltCost, enode: &Math, costs: Seq<usize>, i: int)
    ensures
        cost.spec_cost(enode, costs) >= 1,
        costs.len() == 0 && !penalized(cost.values, enode) ==> cost.spec_cost(enode, costs) == 1,
        0 <= i < costs.len() ==> cost.spec_cost(enode, costs) > costs[i] || cost.spec_cost(
            enode,
            costs,
        ) == usize::MAX,
{
    if 0 <= i < costs.len() {
        lemma_total_bounds(costs, i);
    }
}

} // verus!
