//! The expression language: thirteen numeric operators that each carry a
//! leading precision-context operand, exact constants, symbols, and an
//! open variant for every other operator.

use crate::constant::Constant;
use vstd::prelude::*;

verus! {

/// The handle of an equivalence class. The host engine issues them.
#[derive(Clone, Copy, Debug, PartialEq, Eq, Structural, Hash)]
pub struct Id(pub usize);

/// One node of an expression. A binary operator holds
/// `[context, left, right]`, a unary one `[context, operand]`, and `Pow`
/// holds `[context, base, exponent]`.
#[derive(Debug)]
pub enum Math {
    Add([Id; 3]),
    Sub([Id; 3]),
    Mul([Id; 3]),
    Div([Id; 3]),
    Pow([Id; 3]),
    Neg([Id; 2]),
    Sqrt([Id; 2]),
    Fabs([Id; 2]),
    Ceil([Id; 2]),
    Floor([Id; 2]),
    Round([Id; 2]),
    Log([Id; 2]),
    Cbrt([Id; 2]),
    Constant(Constant),
    Symbol(String),
    Other(String, Vec<Id>),
}

impl Clone for Math {
    fn clone(&self) -> (r: Math)
        ensures
            self.alike(&r),
    {
        match self {
            Math::Add(ids) => Math::Add(*ids),
            Math::Sub(ids) => Math::Sub(*ids),
            Math::Mul(ids) => Math::Mul(*ids),
            Math::Div(ids) => Math::Div(*ids),
            Math::Pow(ids) => Math::Pow(*ids),
            Math::Neg(ids) => Math::Neg(*ids),
            Math::Sqrt(ids) => Math::Sqrt(*ids),
            Math::Fabs(ids) => Math::Fabs(*ids),
            Math::Ceil(ids) => Math::Ceil(*ids),
            Math::Floor(ids) => Math::Floor(*ids),
            Math::Round(ids) => Math::Round(*ids),
            Math::Log(ids) => Math::Log(*ids),
            Math::Cbrt(ids) => Math::Cbrt(*ids),
            Math::Constant(c) => Math::Constant(c.clone()),
            Math::Symbol(name) => Math::Symbol(name.clone()),
            Math::Other(name, ids) => Math::Other(name.clone(), ids.clone()),
        }
    }
}

/// Whether two lists of handles are the same list.
fn same_ids(a: &[Id], b: &[Id]) -> (r: bool)
    ensures
        r == (a@ == b@),
{
    if a.len() != b.len() {
        return false;
    }
    let mut i: usize = 0;
    while i < a.len()
        invariant
            a@.len() == b@.len(),
            i <= a@.len(),
            a@.take(i as int) == b@.take(i as int),
        decreases a.len() - i,
    {
        if a[i] != b[i] {
            return false;
        }
        assert(a@.take(i + 1) =~= a@.take(i as int).push(a@[i as int]));
        assert(b@.take(i + 1) =~= b@.take(i as int).push(b@[i as int]));
        i = i + 1;
    }
    assert(a@.take(a@.len() as int) =~= a@);
    assert(b@.take(b@.len() as int) =~= b@);
    true
}

impl PartialEq for Math {
    fn eq(&self, other: &Math) -> (r: bool) {
        match (self, other) {
            (Math::Add(a), Math::Add(b)) => same_ids(a.as_slice(), b.as_slice()),
            (Math::Sub(a), Math::Sub(b)) => same_ids(a.as_slice(), b.as_slice()),
            (Math::Mul(a), Math::Mul(b)) => same_ids(a.as_slice(), b.as_slice()),
            (Math::Div(a), Math::Div(b)) => same_ids(a.as_slice(), b.as_slice()),
            (Math::Pow(a), Math::Pow(b)) => same_ids(a.as_slice(), b.as_slice()),
            (Math::Neg(a), Math::Neg(b)) => same_ids(a.as_slice(), b.as_slice()),
            (Math::Sqrt(a), Math::Sqrt(b)) => same_ids(a.as_slice(), b.as_slice()),
            (Math::Fabs(a), Math::Fabs(b)) => same_ids(a.as_slice(), b.as_slice()),
            (Math::Ceil(a), Math::Ceil(b)) => same_ids(a.as_slice(), b.as_slice()),
            (Math::Floor(a), Math::Floor(b)) => same_ids(a.as_slice(), b.as_slice()),
            (Math::Round(a), Math::Round(b)) => same_ids(a.as_slice(), b.as_slice()),
            (Math::Log(a), Math::Log(b)) => same_ids(a.as_slice(), b.as_slice()),
            (Math::Cbrt(a), Math::Cbrt(b)) => same_ids(a.as_slice(), b.as_slice()),
            (Math::Constant(a), Math::Constant(b)) => *a == *b,
            (Math::Symbol(a), Math::Symbol(b)) => *a == *b,
            (Math::Other(a, x), Math::Other(b, y)) => *a == *b && same_ids(
                x.as_slice(),
                y.as_slice(),
            ),
            _ => false,
        }
    }
}

impl Eq for Math {

}

impl vstd::std_specs::cmp::PartialEqSpecImpl for Math {
    open spec fn obeys_eq_spec() -> bool {
        true
    }

    open spec fn eq_spec(&self, other: &Math) -> bool {
        self.alike(other)
    }
}

impl Math {
    /// The same node: the same operator on the same operands, the same
    /// value, or the same name.
    pub open spec fn alike(&self, other: &Math) -> bool {
        match (*self, *other) {
            (Math::Add(a), Math::Add(b)) => a@ == b@,
            (Math::Sub(a), Math::Sub(b)) => a@ == b@,
            (Math::Mul(a), Math::Mul(b)) => a@ == b@,
            (Math::Div(a), Math::Div(b)) => a@ == b@,
            (Math::Pow(a), Math::Pow(b)) => a@ == b@,
            (Math::Neg(a), Math::Neg(b)) => a@ == b@,
            (Math::Sqrt(a), Math::Sqrt(b)) => a@ == b@,
            (Math::Fabs(a), Math::Fabs(b)) => a@ == b@,
            (Math::Ceil(a), Math::Ceil(b)) => a@ == b@,
            (Math::Floor(a), Math::Floor(b)) => a@ == b@,
            (Math::Round(a), Math::Round(b)) => a@ == b@,
            (Math::Log(a), Math::Log(b)) => a@ == b@,
            (Math::Cbrt(a), Math::Cbrt(b)) => a@ == b@,
            (Math::Constant(a), Math::Constant(b)) => a@ == b@,
            (Math::Symbol(a), Math::Symbol(b)) => a@ == b@,
            (Math::Other(a, x), Math::Other(b, y)) => a@ == b@ && x@ == y@,
            _ => false,
        }
    }

    /// The operands of the node, in order.
    pub open spec fn spec_children(&self) -> Seq<Id> {
        match *self {
            Math::Add(ids) | Math::Sub(ids) | Math::Mul(ids) | Math::Div(ids) | Math::Pow(ids) => ids@,
            Math::Neg(ids)
            | Math::Sqrt(ids)
            | Math::Fabs(ids)
            | Math::Ceil(ids)
            | Math::Floor(ids)
            | Math::Round(ids)
            | Math::Log(ids)
            | Math::Cbrt(ids) => ids@,
            Math::Constant(_) | Math::Symbol(_) => Seq::empty(),
            Math::Other(_, ids) => ids@,
        }
    }

    /// The operands of the node, in order.
    pub fn children(&self) -> (r: &[Id])
        ensures
            r@ == self.spec_children(),
    {
        match self {
            Math::Add(ids) | Math::Sub(ids) | Math::Mul(ids) | Math::Div(ids) | Math::Pow(ids) => ids.as_slice(),
            Math::Neg(ids)
            | Math::Sqrt(ids)
            | Math::Fabs(ids)
            | Math::Ceil(ids)
            | Math::Floor(ids)
            | Math::Round(ids)
            | Math::Log(ids)
            | Math::Cbrt(ids) => ids.as_slice(),
            Math::Constant(_) | Math::Symbol(_) => &[],
            Math::Other(_, ids) => ids.as_slice(),
        }
    }

    /// The keyword that an operator is written with. Constants, symbols
    /// and the open variant have none: they are written as their value or
    /// their name.
    pub open spec fn spec_keyword(&self) -> Option<Seq<char>> {
        match *self {
            Math::Add(_) => Some("+"@),
            Math::Sub(_) => Some("-"@),
            Math::Mul(_) => Some("*"@),
            Math::Div(_) => Some("/"@),
            Math::Pow(_) => Some("pow"@),
            Math::Neg(_) => Some("neg"@),
            Math::Sqrt(_) => Some("sqrt"@),
            Math::Fabs(_) => Some("fabs"@),
            Math::Ceil(_) => Some("ceil"@),
            Math::Floor(_) => Some("floor"@),
            Math::Round(_) => Some("round"@),
            Math::Log(_) => Some("log"@),
            Math::Cbrt(_) => Some("cbrt"@),
            Math::Constant(_) | Math::Symbol(_) | Math::Other(_, _) => None,
        }
    }

    /// The keyword of the node, if it has one.
    pub fn keyword(&self) -> (r: Option<&'static str>)
        ensures
            r is Some == self.spec_keyword() is Some,
            r matches Some(k) ==> self.spec_keyword() == Some(k@),
    {
        match self {
            Math::Add(_) => Some("+"),
            Math::Sub(_) => Some("-"),
            Math::Mul(_) => Some("*"),
            Math::Div(_) => Some("/"),
            Math::Pow(_) => Some("pow"),
            Math::Neg(_) => Some("neg"),
            Math::Sqrt(_) => Some("sqrt"),
            Math::Fabs(_) => Some("fabs"),
            Math::Ceil(_) => Some("ceil"),
            Math::Floor(_) => Some("floor"),
            Math::Round(_) => Some("round"),
            Math::Log(_) => Some("log"),
            Math::Cbrt(_) => Some("cbrt"),
            Math::Constant(_) | Math::Symbol(_) | Math::Other(_, _) => None,
        }
    }

    /// A node without operands.
    pub open spec fn spec_is_leaf(&self) -> bool {
        self.spec_children().len() == 0
    }

    /// Whether the node has no operands.
    #[verifier::when_used_as_spec(spec_is_leaf)]
    pub fn is_leaf(&self) -> (r: bool)
        ensures
            r == self.spec_is_leaf(),
    {
        self.children().len() == 0
    }
}

} // verus!
