//! The constant-propagation analysis: the exact value of a node from the
//! values of its operands, the reconciliation of two classes that the
//! host unites, and what is to be done to a class whose value is known.

use crate::constant::Constant;
use crate::fold::ceiling_of;
use crate::fold::cube_root_of;
use crate::fold::difference_of;
use crate::fold::floor_of;
use crate::fold::fold_add;
use crate::fold::fold_cbrt;
use crate::fold::fold_ceil;
use crate::fold::fold_div;
use crate::fold::fold_fabs;
use crate::fold::fold_floor;
use crate::fold::fold_log;
use crate::fold::fold_mul;
use crate::fold::fold_neg;
use crate::fold::fold_pow;
use crate::fold::fold_round;
use crate::fold::fold_sqrt;
use crate::fold::fold_sub;
use crate::fold::logarithm_of;
use crate::fold::magnitude_of;
use crate::fold::negation_of;
use crate::fold::power_of;
use crate::fold::product_of;
use crate::fold::quotient_of;
use crate::fold::rounding_of;
use crate::fold::square_root_of;
use crate::fold::sum_of;
use crate::fold::value_of;
use crate::fold::law_square_root;
use crate::language::Math;
use crate::rational::lemma_arithmetic;
use crate::rational::lemma_from_int;
use crate::rational::lemma_power;
use crate::rational::lemma_unary;
use crate::rational::Rational;
use crate::values::ClassValues;
use vstd::prelude::*;

verus! {

/// Which side of a merge ended up different from the merged value: `.0`
/// for the side that was merged into, `.1` for the side that came in.
#[derive(Clone, Copy, Debug, PartialEq, Eq, Structural)]
pub struct DidMerge(pub bool, pub bool);

/// The analysis and its switches. `unsound` starts false and is set, for
/// good, by the first merge of two classes with different known values.
#[derive(Debug)]
pub struct ConstantFold {
    pub unsound: bool,
    pub constant_fold: bool,
    pub prune: bool,
}

impl Default for ConstantFold {
    fn default() -> (r: ConstantFold)
        ensures
            r == (ConstantFold { unsound: false, constant_fold: true, prune: true }),
    {
        ConstantFold { constant_fold: true, prune: true, unsound: false }
    }
}

/// What to do to a class whose value is known: insert `node`, a constant
/// that holds the value, and unite it with the class; then, where `prune`
/// is set, keep of the members of the class only its leaves.
#[derive(Debug)]
pub struct Modification {
    pub node: Math,
    pub prune: bool,
}

/// The exact value of `enode` where the classes of its operands have the
/// values in `values`. The context operand at index 0 plays no part.
pub open spec fn folded(values: &ClassValues, enode: &Math) -> Option<Rational> {
    match *enode {
        Math::Constant(c) => Some(c@),
        Math::Add(ids) => sum_of(values.value(ids[1]), values.value(ids[2])),
        Math::Sub(ids) => difference_of(values.value(ids[1]), values.value(ids[2])),
        Math::Mul(ids) => product_of(values.value(ids[1]), values.value(ids[2])),
        Math::Div(ids) => quotient_of(values.value(ids[1]), values.value(ids[2])),
        Math::Pow(ids) => power_of(values.value(ids[1]), values.value(ids[2])),
        Math::Neg(ids) => negation_of(values.value(ids[1])),
        Math::Sqrt(ids) => square_root_of(values.value(ids[1])),
        Math::Log(ids) => logarithm_of(values.value(ids[1])),
        Math::Cbrt(ids) => cube_root_of(values.value(ids[1])),
        Math::Fabs(ids) => magnitude_of(values.value(ids[1])),
        Math::Floor(ids) => floor_of(values.value(ids[1])),
        Math::Ceil(ids) => ceiling_of(values.value(ids[1])),
        Math::Round(ids) => rounding_of(values.value(ids[1])),
        Math::Symbol(_) => None,
        Math::Other(_, _) => None,
    }
}

/// The value that a class has after it took in another: the first known
/// one of the two.
pub open spec fn merged(to: Option<Rational>, from: Option<Rational>) -> Option<Rational> {
    match to {
        Some(_) => to,
        None => from,
    }
}

/// Two known values that differ.
pub open spec fn conflicting(to: Option<Rational>, from: Option<Rational>) -> bool {
    to matches Some(a) && from matches Some(b) && a != b
}

impl ConstantFold {
    /// With folding switched off every node is unknown.
    pub open spec fn spec_make(&self, values: &ClassValues, enode: &Math) -> Option<Rational> {
        if self.constant_fold {
            folded(values, enode)
        } else {
            None
        }
    }

    /// The exact value of a node, if it has one.
    pub fn make(&self, values: &ClassValues, enode: &Math) -> (r: Option<Constant>)
        ensures
            value_of(r) == self.spec_make(values, enode),
    {
        if !self.constant_fold {
            return None;
        }
        match enode {
            Math::Constant(c) => Some(c.clone()),
            Math::Add(ids) => fold_add(values.get(ids[1]), values.get(ids[2])),
            Math::Sub(ids) => fold_sub(values.get(ids[1]), values.get(ids[2])),
            Math::Mul(ids) => fold_mul(values.get(ids[1]), values.get(ids[2])),
            Math::Div(ids) => fold_div(values.get(ids[1]), values.get(ids[2])),
            Math::Pow(ids) => fold_pow(values.get(ids[1]), values.get(ids[2])),
            Math::Neg(ids) => fold_neg(values.get(ids[1])),
            Math::Sqrt(ids) => fold_sqrt(values.get(ids[1])),
            Math::Log(ids) => fold_log(values.get(ids[1])),
            Math::Cbrt(ids) => fold_cbrt(values.get(ids[1])),
            Math::Fabs(ids) => fold_fabs(values.get(ids[1])),
            Math::Floor(ids) => fold_floor(values.get(ids[1])),
            Math::Ceil(ids) => fold_ceil(values.get(ids[1])),
            Math::Round(ids) => fold_round(values.get(ids[1])),
            Math::Symbol(_) => None,
            Math::Other(_, _) => None,
        }
    }

    /// Reconciles the value of a class with that of a class united with
    /// it. The first known value stays. Two known values that differ set
    /// `unsound`; nothing ever clears it.
    pub fn merge(&mut self, to: &mut Option<Constant>, from: Option<Constant>) -> (r: DidMerge)
        ensures
            value_of(*final(to)) == merged(value_of(*old(to)), value_of(from)),
            r == DidMerge(
                value_of(*old(to)) is None && value_of(from) is Some,
                value_of(*old(to)) is Some && value_of(from) is None,
            ),
            final(self).unsound == (old(self).unsound || conflicting(
                value_of(*old(to)),
                value_of(from),
            )),
            final(self).constant_fold == old(self).constant_fold,
            final(self).prune == old(self).prune,
    {
        if to.is_none() {
            match from {
                None => DidMerge(false, false),
                Some(c) => {
                    *to = Some(c);
                    DidMerge(true, false)
                },
            }
        } else {
            match from {
                None => DidMerge(false, true),
                Some(b) => {
                    let differ = match to {
                        Some(a) => *a != b,
                        None => false,
                    };
                    if differ {
                        self.unsound = true;
                    }
                    DidMerge(false, false)
                },
            }
        }
    }

    /// What the host has to do to a class with analysis data `data`:
    /// nothing while the value is unknown.
    pub fn modify(&self, data: &Option<Constant>) -> (r: Option<Modification>)
        ensures
            *data is None ==> r is None,
            *data matches Some(c) ==> (r matches Some(m) && (m.node matches Math::Constant(k) && k@
                == c@) && m.prune == self.prune),
    {
        match data {
            Some(c) => Some(Modification { node: Math::Constant(c.clone()), prune: self.prune }),
            None => None,
        }
    }
}

/// The test that pruning keeps a member by.
pub open spec fn leaf() -> spec_fn(Math) -> bool {
    |n: Math| n.spec_is_leaf()
}

/// Prunes the members of a class: the leaves stay, in their order.
pub fn retain_leaves(nodes: &mut Vec<Math>)
    ensures
        final(nodes)@ == old(nodes)@.filter(leaf()),
{
    let ghost all = nodes@;
    let mut stack: Vec<Math> = Vec::new();
    while nodes.len() > 0
        invariant
            stack@.len() + nodes@.len() == all.len(),
            nodes@ == all.take(nodes@.len() as int),
            forall|i: int| 0 <= i < stack@.len() ==> stack@[i] == all[all.len() - 1 - i],
        decreases nodes.len(),
    {
        let n = nodes.pop().unwrap();
        stack.push(n);
    }
    assert(all.take(0).filter(leaf()) =~= Seq::<Math>::empty()) by {
        reveal(Seq::filter);
    }
    while stack.len() > 0
        invariant
            stack@.len() <= all.len(),
            forall|i: int| 0 <= i < stack@.len() ==> stack@[i] == all[all.len() - 1 - i],
            nodes@ == all.take(all.len() - stack@.len()).filter(leaf()),
        decreases stack.len(),
    {
        let n = stack.pop().unwrap();
        proof {
            let k = all.len() - stack@.len() - 1;
            assert(all.take(k + 1) =~= all.take(k).push(all[k]));
            all.take(k).lemma_filter_push(all[k], leaf());
        }
        if n.is_leaf() {
            nodes.push(n);
        }
    }
    assert(all.take(all.len() as int) =~= all);
}

/// Whatever the analysis makes of a node is in lowest terms, as long as
/// the constant in the node and the values of the classes are. With
/// folding switched off it makes nothing of any node.
pub proof fn law_make_reduced(analysis: ConstantFold, values: &ClassValues, enode: &Math)
    requires
        values.reduced(),
        enode matches Math::Constant(c) ==> c@.wf(),
    ensures
        analysis.spec_make(values, enode) matches Some(v) ==> v.wf(),
        !analysis.constant_fold ==> analysis.spec_make(values, enode) is None,
{
    if analysis.spec_make(values, enode) is Some {
        lemma_from_int(0);
        lemma_from_int(1);
        match *enode {
            Math::Add(ids) | Math::Sub(ids) | Math::Mul(ids) | Math::Div(ids) => {
                let a = values.value(ids[1])->0;
                let b = values.value(ids[2])->0;
                assert(values@.contains_key(ids[1]) && values@.contains_key(ids[2]));
                lemma_arithmetic(a, b);
            },
            Math::Pow(ids) => {
                if values.value(ids[1]) is Some && values.value(ids[2]) is Some {
                    let a = values.value(ids[1])->0;
                    let b = values.value(ids[2])->0;
                    assert(values@.contains_key(ids[1]) && values@.contains_key(ids[2]));
                    if a.num != 0 && b.num != 0 {
                        lemma_power(a, b.num);
                    }
                }
            },
            Math::Sqrt(ids) => {
                assert(values@.contains_key(ids[1]));
                law_square_root(values.value(ids[1])->0);
            },
            Math::Neg(ids) | Math::Fabs(ids) | Math::Floor(ids) | Math::Ceil(ids) | Math::Round(
                ids,
            ) => {
                assert(values@.contains_key(ids[1]));
                lemma_unary(values.value(ids[1])->0);
            },
            _ => {},
        }
    }
}

/// Merging a class with one of the same value changes nothing and raises
/// no alarm, and taking the same class in a second time changes nothing.
pub proof fn law_merge_agrees(v: Rational, to: Option<Rational>, from: Option<Rational>)
    ensures
        merged(Some(v), Some(v)) == Some(v),
        !conflicting(Some(v), Some(v)),
        merged(merged(to, from), from) == merged(to, from),
{
}

} // verus!
