//! What each operator makes of the exact values of its operands. An
//! operand is either known, with its value, or unknown; so is the result.

use crate::constant::integer_eq;
use crate::constant::integer_gt;
use crate::constant::integer_mul;
use crate::constant::integer_sqrt;
use crate::constant::Constant;
use crate::constant::Integer;
use crate::rational::lemma_arithmetic;
use crate::rational::lemma_lowest_terms_unique;
use crate::rational::lemma_new_reduced;
use crate::rational::lemma_power;
use crate::rational::lemma_unary;
use crate::rational::Rational;
use vstd::arithmetic::power::lemma0_pow;
use vstd::arithmetic::power::lemma1_pow;
use vstd::prelude::*;

verus! {

/// The value that `data` stands for, if it holds one.
pub open spec fn value_of<T: View<V = Rational>>(data: Option<T>) -> Option<Rational> {
    match data {
        Some(c) => Some(c@),
        None => None,
    }
}

/// The sum of two known values; unknown where either is.
pub open spec fn sum_of(a: Option<Rational>, b: Option<Rational>) -> Option<Rational> {
    match (a, b) {
        (Some(x), Some(y)) => Some(x.sum(y)),
        _ => None,
    }
}

/// The difference of two known values; unknown where either is.
pub open spec fn difference_of(a: Option<Rational>, b: Option<Rational>) -> Option<Rational> {
    match (a, b) {
        (Some(x), Some(y)) => Some(x.difference(y)),
        _ => None,
    }
}

/// The product of two known values; unknown where either is.
pub open spec fn product_of(a: Option<Rational>, b: Option<Rational>) -> Option<Rational> {
    match (a, b) {
        (Some(x), Some(y)) => Some(x.product(y)),
        _ => None,
    }
}

/// The quotient of two known values; unknown where the divisor is zero.
pub open spec fn quotient_of(a: Option<Rational>, b: Option<Rational>) -> Option<Rational> {
    match (a, b) {
        (Some(x), Some(y)) => if y.num == 0 {
            None
        } else {
            Some(x.quotient(y))
        },
        _ => None,
    }
}

/// The known value with its sign changed.
pub open spec fn negation_of(a: Option<Rational>) -> Option<Rational> {
    match a {
        Some(x) => Some(x.negation()),
        None => None,
    }
}

/// A known zero base gives zero for a known positive exponent and nothing
/// else. Any other base, known or not, gives one for a known zero
/// exponent. A known base gives its exact power for a known whole
/// exponent that it can be raised to. Nothing else is known.
pub open spec fn power_of(a: Option<Rational>, b: Option<Rational>) -> Option<Rational> {
    if a matches Some(x) && x.num == 0 {
        if b matches Some(y) && y.num > 0 {
            Some(Rational::zero())
        } else {
            None
        }
    } else if b matches Some(y) && y.num == 0 {
        Some(Rational::one())
    } else {
        match (a, b) {
            (Some(x), Some(y)) => if y.den == 1 && x.raisable(y.num) {
                Some(x.power(y.num))
            } else {
                None
            },
            _ => None,
        }
    }
}

/// The square of a natural number.
pub open spec fn square(r: nat) -> nat {
    r * r
}

/// Whether `n` is the square of a natural number.
pub open spec fn is_square(n: int) -> bool {
    exists|r: nat| square(r) == n
}

/// The natural number whose square is `n`, for `n` a square.
pub open spec fn root(n: int) -> nat {
    choose|r: nat| square(r) == n
}

/// Known only for a positive fraction whose numerator and denominator are
/// both squares: then the fraction of their roots.
pub open spec fn square_root_of(a: Option<Rational>) -> Option<Rational> {
    match a {
        Some(x) => if x.num > 0 && x.den > 0 && is_square(x.num) && is_square(x.den) {
            Some(Rational::new(root(x.num) as int, root(x.den) as int))
        } else {
            None
        },
        None => None,
    }
}

/// Known only at one, where it is zero.
pub open spec fn logarithm_of(a: Option<Rational>) -> Option<Rational> {
    match a {
        Some(x) => if x == Rational::one() {
            Some(Rational::zero())
        } else {
            None
        },
        None => None,
    }
}

/// Known only at one, where it is one.
pub open spec fn cube_root_of(a: Option<Rational>) -> Option<Rational> {
    match a {
        Some(x) => if x == Rational::one() {
            Some(Rational::one())
        } else {
            None
        },
        None => None,
    }
}

/// The known value without its sign.
pub open spec fn magnitude_of(a: Option<Rational>) -> Option<Rational> {
    match a {
        Some(x) => Some(x.magnitude()),
        None => None,
    }
}

/// The known value rounded down to a whole number.
pub open spec fn floor_of(a: Option<Rational>) -> Option<Rational> {
    match a {
        Some(x) => Some(x.floor()),
        None => None,
    }
}

/// The known value rounded up to a whole number.
pub open spec fn ceiling_of(a: Option<Rational>) -> Option<Rational> {
    match a {
        Some(x) => Some(x.ceiling()),
        None => None,
    }
}

/// The known value rounded to the nearest whole number, a half going
/// away from zero.
pub open spec fn rounding_of(a: Option<Rational>) -> Option<Rational> {
    match a {
        Some(x) => Some(x.rounding()),
        None => None,
    }
}

/// Folds an addition.
pub fn fold_add(a: Option<&Constant>, b: Option<&Constant>) -> (r: Option<Constant>)
    ensures
        value_of(r) == sum_of(value_of(a), value_of(b)),
{
    match (a, b) {
        (Some(x), Some(y)) => Some(x.plus(y)),
        _ => None,
    }
}

/// Folds a subtraction.
pub fn fold_sub(a: Option<&Constant>, b: Option<&Constant>) -> (r: Option<Constant>)
    ensures
        value_of(r) == difference_of(value_of(a), value_of(b)),
{
    match (a, b) {
        (Some(x), Some(y)) => Some(x.minus(y)),
        _ => None,
    }
}

/// Folds a multiplication.
pub fn fold_mul(a: Option<&Constant>, b: Option<&Constant>) -> (r: Option<Constant>)
    ensures
        value_of(r) == product_of(value_of(a), value_of(b)),
{
    match (a, b) {
        (Some(x), Some(y)) => Some(x.times(y)),
        _ => None,
    }
}

/// Folds a division. A divisor known to be zero leaves the quotient
/// unknown rather than undefined.
pub fn fold_div(a: Option<&Constant>, b: Option<&Constant>) -> (r: Option<Constant>)
    ensures
        value_of(r) == quotient_of(value_of(a), value_of(b)),
{
    match (a, b) {
        (Some(x), Some(y)) => if y.is_zero() {
            None
        } else {
            Some(x.over(y))
        },
        _ => None,
    }
}

/// Folds a negation.
pub fn fold_neg(a: Option<&Constant>) -> (r: Option<Constant>)
    ensures
        value_of(r) == negation_of(value_of(a)),
{
    match a {
        Some(x) => Some(x.negated()),
        None => None,
    }
}

/// Folds a power. The exponent of a whole power is its numerator.
pub fn fold_pow(a: Option<&Constant>, b: Option<&Constant>) -> (r: Option<Constant>)
    ensures
        value_of(r) == power_of(value_of(a), value_of(b)),
{
    if known_zero(a) {
        match b {
            Some(y) => if y.is_positive() {
                Some(Constant::from_integer(Integer::from_i64(0)))
            } else {
                None
            },
            None => None,
        }
    } else if known_zero(b) {
        Some(Constant::from_integer(Integer::from_i64(1)))
    } else {
        match (a, b) {
            (Some(x), Some(y)) => if y.is_integer() && x.can_raise(y.numer()) {
                Some(x.power(y.numer()))
            } else {
                None
            },
            _ => None,
        }
    }
}

/// Whether the operand is known to be zero.
fn known_zero(a: Option<&Constant>) -> (r: bool)
    ensures
        r == (value_of(a) matches Some(x) && x.num == 0),
{
    match a {
        Some(x) => x.is_zero(),
        None => false,
    }
}

/// The rounded-down root of a square is its root, and of no other number.
proof fn lemma_floor_root(n: int, s: int)
    requires
        s >= 0,
        s * s <= n < (s + 1) * (s + 1),
    ensures
        is_square(n) <==> s * s == n,
        is_square(n) ==> root(n) == s,
{
    if s * s == n {
        assert(square(s as nat) == n);
    }
    if is_square(n) {
        let r = root(n);
        assert(square(r) == n);
        assert(r == s) by (nonlinear_arith)
            requires
                r * r == n,
                s >= 0,
                s * s <= n < (s + 1) * (s + 1),
        ;
    }
}

/// Folds a square root. The roots of numerator and denominator are taken
/// rounded down and squared again: only a root that squares back
/// exactly is a result.
pub fn fold_sqrt(a: Option<&Constant>) -> (r: Option<Constant>)
    ensures
        value_of(r) == square_root_of(value_of(a)),
{
    match a {
        Some(x) => {
            let zero = Integer::from_i64(0);
            if integer_gt(x.numer(), &zero) && integer_gt(x.denom(), &zero) {
                let s1 = integer_sqrt(x.numer());
                let s2 = integer_sqrt(x.denom());
                let numer_square = integer_mul(&s1, &s1);
                let denom_square = integer_mul(&s2, &s2);
                proof {
                    lemma_floor_root(x@.num, s1@);
                    lemma_floor_root(x@.den, s2@);
                }
                if integer_eq(&numer_square, x.numer()) && integer_eq(&denom_square, x.denom()) {
                    Constant::new(&s1, &s2)
                } else {
                    None
                }
            } else {
                None
            }
        },
        None => None,
    }
}

/// Folds a natural logarithm.
pub fn fold_log(a: Option<&Constant>) -> (r: Option<Constant>)
    ensures
        value_of(r) == logarithm_of(value_of(a)),
{
    match a {
        Some(x) => {
            let one = Constant::from_integer(Integer::from_i64(1));
            if *x == one {
                Some(Constant::from_integer(Integer::from_i64(0)))
            } else {
                None
            }
        },
        None => None,
    }
}

/// Folds a cube root.
pub fn fold_cbrt(a: Option<&Constant>) -> (r: Option<Constant>)
    ensures
        value_of(r) == cube_root_of(value_of(a)),
{
    match a {
        Some(x) => {
            let one = Constant::from_integer(Integer::from_i64(1));
            if *x == one {
                Some(one)
            } else {
                None
            }
        },
        None => None,
    }
}

/// Folds an absolute value.
pub fn fold_fabs(a: Option<&Constant>) -> (r: Option<Constant>)
    ensures
        value_of(r) == magnitude_of(value_of(a)),
{
    match a {
        Some(x) => Some(x.magnitude()),
        None => None,
    }
}

/// Folds a rounding down.
pub fn fold_floor(a: Option<&Constant>) -> (r: Option<Constant>)
    ensures
        value_of(r) == floor_of(value_of(a)),
{
    match a {
        Some(x) => Some(x.floor()),
        None => None,
    }
}

/// Folds a rounding up.
pub fn fold_ceil(a: Option<&Constant>) -> (r: Option<Constant>)
    ensures
        value_of(r) == ceiling_of(value_of(a)),
{
    match a {
        Some(x) => Some(x.ceil()),
        None => None,
    }
}

/// Folds a rounding to the nearest whole number.
pub fn fold_round(a: Option<&Constant>) -> (r: Option<Constant>)
    ensures
        value_of(r) == rounding_of(value_of(a)),
{
    match a {
        Some(x) => Some(x.round()),
        None => None,
    }
}

/// If three numbers are in proportion and the outer factor is not zero,
/// it can be dropped.
proof fn lemma_cancel(u: int, v: int, k: int)
    requires
        k != 0,
        u * k == v * k,
    ensures
        u == v,
{
    assert(u == v) by (nonlinear_arith)
        requires
            k != 0,
            u * k == v * k,
    ;
}

/// Division of known values: by zero the result is unknown; by anything
/// else it is the exact quotient, in lowest terms, which multiplied by
/// the divisor gives the dividend back.
pub proof fn law_division(a: Rational, b: Rational)
    requires
        a.wf(),
        b.wf(),
    ensures
        b.num == 0 ==> quotient_of(Some(a), Some(b)) is None,
        b.num != 0 ==> quotient_of(Some(a), Some(b)) == Some(a.quotient(b)),
        b.num != 0 ==> a.quotient(b).wf() && a.quotient(b).product(b) == a,
{
    if b.num != 0 {
        let q = a.quotient(b);
        lemma_arithmetic(a, b);
        lemma_arithmetic(q, b);
        let p = q.product(b);
        let k = q.den * b.den * b.num;
        assert(k != 0) by (nonlinear_arith)
            requires
                q.den > 0,
                b.den > 0,
                b.num != 0,
                k == q.den * b.den * b.num,
        ;
        let left = p.num * (q.den * b.den);
        let mid = q.num * (a.den * b.num);
        let c = a.den * b.num;
        let e = b.num * p.den;
        assert(left * c == (p.num * a.den) * k) by (nonlinear_arith)
            requires
                left == p.num * (q.den * b.den),
                c == a.den * b.num,
                k == q.den * b.den * b.num,
        ;
        assert(((q.num * b.num) * p.den) * c == mid * e) by (nonlinear_arith)
            requires
                mid == q.num * (a.den * b.num),
                c == a.den * b.num,
                e == b.num * p.den,
        ;
        assert(((a.num * b.den) * q.den) * e == (a.num * p.den) * k) by (nonlinear_arith)
            requires
                e == b.num * p.den,
                k == q.den * b.den * b.num,
        ;
        lemma_cancel(p.num * a.den, a.num * p.den, k);
        lemma_lowest_terms_unique(p, a);
    }
}

/// Sum, difference and product of known values are exact and in lowest
/// terms; with an unknown operand they are unknown.
pub proof fn law_ring(a: Rational, b: Rational)
    requires
        a.wf(),
        b.wf(),
    ensures
        sum_of(Some(a), Some(b)) matches Some(s) && s.wf() && s.num * (a.den * b.den) == (a.num
            * b.den + b.num * a.den) * s.den,
        difference_of(Some(a), Some(b)) matches Some(d) && d.wf() && d.num * (a.den * b.den) == (
        a.num * b.den - b.num * a.den) * d.den,
        product_of(Some(a), Some(b)) matches Some(p) && p.wf() && p.num * (a.den * b.den) == (a.num
            * b.num) * p.den,
        sum_of(None, Some(b)) is None,
        sum_of(Some(a), None) is None,
        difference_of(None, Some(b)) is None,
        difference_of(Some(a), None) is None,
        product_of(None, Some(b)) is None,
        product_of(Some(a), None) is None,
{
    lemma_arithmetic(a, b);
}

/// A zero exponent gives one for every base, known or not, but a base
/// known to be zero. A base known to be zero gives zero for a known
/// positive exponent and is unknown for every other.
pub proof fn law_power_edges(a: Option<Rational>, b: Option<Rational>)
    ensures
        !(a matches Some(x) && x.num == 0) && (b matches Some(y) && y.num == 0) ==> power_of(a, b)
            == Some(Rational::one()),
        (a matches Some(x) && x.num == 0) && (b matches Some(y) && y.num > 0) ==> power_of(a, b)
            == Some(Rational::zero()),
        (a matches Some(x) && x.num == 0) && !(b matches Some(y) && y.num > 0) ==> power_of(a, b)
            is None,
{
}

/// A known base raised to a known whole exponent is the exact power, in
/// lowest terms: numerator and denominator each raised to the exponent,
/// and swapped for a negative one. The exceptions are a zero base with
/// an exponent that is not positive, and an exponent too large to raise
/// to: both are unknown.
pub proof fn law_integer_power(a: Rational, b: Rational)
    requires
        a.wf(),
        b.wf(),
        b.den == 1,
        a.num != 0 || b.num > 0,
        a.raisable(b.num),
    ensures
        power_of(Some(a), Some(b)) == Some(a.power(b.num)),
        a.power(b.num).wf(),
{
    lemma_power(a, b.num);
    if a.num == 0 {
        lemma0_pow(b.num as nat);
        lemma1_pow(b.num as nat);
        assert(a.den == 1) by {
            reveal_with_fuel(crate::gcd::gcd, 3);
            vstd::arithmetic::div_mod::lemma_small_mod(0, a.den as nat);
        }
    }
}

/// A known exponent that is not whole gives nothing, unless the base is
/// known to be zero and the exponent positive.
pub proof fn law_fractional_power(a: Option<Rational>, b: Rational)
    requires
        b.wf(),
        b.den != 1,
        !(a matches Some(x) && x.num == 0),
    ensures
        power_of(a, Some(b)) is None,
{
    assert(b.num != 0) by {
        reveal_with_fuel(crate::gcd::gcd, 3);
        vstd::arithmetic::div_mod::lemma_small_mod(0, b.den as nat);
    }
}

/// A square root that is known is exact: in lowest terms, and its
/// square is the operand. It is known for no operand that is not
/// positive, and for none whose numerator or denominator is not a square.
pub proof fn law_square_root(x: Rational)
    requires
        x.wf(),
    ensures
        square_root_of(Some(x)) matches Some(r) ==> r.wf() && r.product(r) == x,
        x.num <= 0 ==> square_root_of(Some(x)) is None,
        !is_square(x.num) || !is_square(x.den) ==> square_root_of(Some(x)) is None,
{
    if square_root_of(Some(x)) is Some {
        let r = square_root_of(Some(x))->0;
        let s1 = root(x.num) as int;
        let s2 = root(x.den) as int;
        assert(square(root(x.num)) == x.num);
        assert(square(root(x.den)) == x.den);
        assert(s2 != 0) by (nonlinear_arith)
            requires
                s2 * s2 > 0,
        ;
        lemma_new_reduced(s1, s2);
        lemma_arithmetic(r, r);
        let p = r.product(r);
        let k = r.den * r.den;
        assert(k != 0) by (nonlinear_arith)
            requires
                r.den > 0,
                k == r.den * r.den,
        ;
        let u = r.num * s2;
        let v = s1 * r.den;
        assert((p.num * k) * x.den == ((r.num * r.num) * p.den) * (s2 * s2));
        assert((p.num * k) * x.den == (p.num * x.den) * k) by (nonlinear_arith);
        assert(((r.num * r.num) * p.den) * (s2 * s2) == (u * u) * p.den) by (nonlinear_arith)
            requires
                u == r.num * s2,
        ;
        assert((v * v) * p.den == (x.num * p.den) * k) by (nonlinear_arith)
            requires
                v == s1 * r.den,
                k == r.den * r.den,
                x.num == s1 * s1,
        ;
        lemma_cancel(p.num * x.den, x.num * p.den, k);
        lemma_lowest_terms_unique(p, x);
    }
}

/// Logarithm and cube root are known at one and nowhere else; there the
/// first is zero and the second is one.
pub proof fn law_known_at_one(x: Rational)
    ensures
        logarithm_of(Some(x)) == if x == Rational::one() {
            Some(Rational::zero())
        } else {
            None
        },
        cube_root_of(Some(x)) == if x == Rational::one() {
            Some(Rational::one())
        } else {
            None
        },
{
}

/// Sign change, absolute value and the three roundings of a known value
/// are known, and in lowest terms; the roundings are whole numbers.
pub proof fn law_unary(x: Rational)
    requires
        x.wf(),
    ensures
        negation_of(Some(x)) matches Some(r) && r.wf(),
        magnitude_of(Some(x)) matches Some(r) && r.wf() && r.num >= 0,
        floor_of(Some(x)) matches Some(r) && r.wf() && r.den == 1,
        ceiling_of(Some(x)) matches Some(r) && r.wf() && r.den == 1,
        rounding_of(Some(x)) matches Some(r) && r.wf() && r.den == 1,
{
    lemma_unary(x);
}

} // verus!
