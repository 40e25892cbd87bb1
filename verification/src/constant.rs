//! Exact values as they are held at run time: integers of any size as
//! little-endian two's complement bytes, and fractions of two of them in
//! lowest terms.
//!
//! The arithmetic is done by `num-bigint` and `num-rational`. The
//! functions named `integer_..` and `ratio_..` make those calls; what is
//! stated of them is taken from the two crates and not proved here. Each
//! hands its arguments over with `BigInt::from_signed_bytes_le` and takes
//! the result back with `BigInt::to_signed_bytes_le`, which are taken to
//! read and write what `signed_le` says. That a result is in lowest terms
//! is not taken from them: it is proved of what they are stated to return,
//! before a `Constant` is made of it.

use crate::gcd::gcd;
use crate::rational::lemma_arithmetic;
use crate::rational::lemma_new_reduced;
use crate::rational::lemma_power;
use crate::rational::lemma_unary;
use crate::rational::Rational;
use crate::rational::exponent_limit;
use num_bigint::BigInt;
use num_integer::Integer as _;
use num_rational::Ratio;
use num_traits::One as _;
use num_traits::Pow;
use num_traits::Signed as _;
use vstd::arithmetic::power::pow;
use vstd::math::abs;
use vstd::prelude::*;

verus! {

/// The natural number that `bytes` spell in base 256, least significant
/// digit first.
pub open spec fn unsigned_le(bytes: Seq<u8>) -> nat
    decreases bytes.len(),
{
    if bytes.len() == 0 {
        0
    } else {
        bytes[0] as nat + 256 * unsigned_le(bytes.drop_first())
    }
}

/// The integer that `bytes` spell in two's complement, least significant
/// byte first. No bytes spell zero.
pub open spec fn signed_le(bytes: Seq<u8>) -> int {
    if bytes.len() > 0 && bytes.last() >= 0x80 {
        unsigned_le(bytes) - pow(256, bytes.len())
    } else {
        unsigned_le(bytes) as int
    }
}

/// An integer of any size.
#[derive(Debug)]
pub struct Integer {
    bytes: Vec<u8>,
}

impl View for Integer {
    type V = int;

    closed spec fn view(&self) -> int {
        signed_le(self.bytes@)
    }
}

impl Clone for Integer {
    fn clone(&self) -> (r: Self)
        ensures
            r@ == self@,
    {
        Integer { bytes: self.bytes.clone() }
    }
}

impl Integer {
    /// The integer spelled by `bytes` in little-endian two's complement.
    pub fn from_signed_bytes_le(bytes: Vec<u8>) -> (r: Integer)
        ensures
            r@ == signed_le(bytes@),
    {
        Integer { bytes }
    }

    /// Bytes that spell this integer in little-endian two's complement.
    pub fn to_signed_bytes_le(&self) -> (r: Vec<u8>)
        ensures
            signed_le(r@) == self@,
    {
        self.bytes.clone()
    }

    /// The integer `v`.
    pub fn from_i64(v: i64) -> (r: Integer)
        ensures
            r@ == v,
    {
        integer_from_i64(v)
    }
}

impl PartialEq for Integer {
    fn eq(&self, other: &Integer) -> (r: bool) {
        integer_eq(self, other)
    }
}

impl Eq for Integer {

}

impl vstd::std_specs::cmp::PartialEqSpecImpl for Integer {
    open spec fn obeys_eq_spec() -> bool {
        true
    }

    open spec fn eq_spec(&self, other: &Integer) -> bool {
        self@ == other@
    }
}

/// An exact value: a fraction in lowest terms with a positive denominator.
#[derive(Debug)]
pub struct Constant {
    numer: Integer,
    denom: Integer,
}

impl View for Constant {
    type V = Rational;

    closed spec fn view(&self) -> Rational {
        Rational { num: self.numer@, den: self.denom@ }
    }
}

impl Clone for Constant {
    fn clone(&self) -> (r: Self)
        ensures
            r@ == self@,
    {
        proof {
            use_type_invariant(self);
        }
        Constant { numer: self.numer.clone(), denom: self.denom.clone() }
    }
}

impl PartialEq for Constant {
    fn eq(&self, other: &Constant) -> (r: bool) {
        integer_eq(&self.numer, &other.numer) && integer_eq(&self.denom, &other.denom)
    }
}

impl Eq for Constant {

}

impl vstd::std_specs::cmp::PartialEqSpecImpl for Constant {
    open spec fn obeys_eq_spec() -> bool {
        true
    }

    open spec fn eq_spec(&self, other: &Constant) -> bool {
        self@ == other@
    }
}

/// The fraction of a numerator and a denominator, as they come.
pub open spec fn fraction(parts: (Integer, Integer)) -> Rational {
    Rational { num: parts.0@, den: parts.1@ }
}

impl Constant {
    /// Every value of this type is in lowest terms with a positive
    /// denominator.
    #[verifier::type_invariant]
    pub open spec fn reduced(self) -> bool {
        self@.wf()
    }

    /// The value of a numerator and a denominator that are known to be in
    /// lowest terms.
    fn from_parts(parts: (Integer, Integer)) -> (r: Constant)
        requires
            fraction(parts).wf(),
        ensures
            r@ == fraction(parts),
    {
        Constant { numer: parts.0, denom: parts.1 }
    }

    /// The fraction `numer / denom` in lowest terms, unless `denom` is zero.
    pub fn new(numer: &Integer, denom: &Integer) -> (r: Option<Constant>)
        ensures
            denom@ == 0 ==> r is None,
            denom@ != 0 ==> (r matches Some(c) && c@ == Rational::new(numer@, denom@)),
    {
        let zero = integer_from_i64(0);
        if integer_eq(denom, &zero) {
            None
        } else {
            proof {
                lemma_new_reduced(numer@, denom@);
            }
            Some(Constant::from_parts(ratio_new(numer, denom)))
        }
    }

    /// The whole number `n`.
    pub fn from_integer(n: Integer) -> (r: Constant)
        ensures
            r@ == Rational::from_int(n@),
    {
        let denom = integer_from_i64(1);
        assert(gcd(abs(n@), 1) == 1) by {
            reveal_with_fuel(gcd, 3);
        }
        Constant { numer: n, denom }
    }

    /// The numerator; it carries the sign.
    pub fn numer(&self) -> (r: &Integer)
        ensures
            r@ == self@.num,
    {
        &self.numer
    }

    /// The denominator; it is positive.
    pub fn denom(&self) -> (r: &Integer)
        ensures
            r@ == self@.den,
    {
        &self.denom
    }

    /// Whether the value is zero.
    pub fn is_zero(&self) -> (r: bool)
        ensures
            r == (self@.num == 0),
    {
        let zero = integer_from_i64(0);
        integer_eq(&self.numer, &zero)
    }

    /// Whether the value is above zero.
    pub fn is_positive(&self) -> (r: bool)
        ensures
            r == (self@.num > 0),
    {
        let zero = integer_from_i64(0);
        integer_gt(&self.numer, &zero)
    }

    /// Whether the value is a whole number: in lowest terms, whether the
    /// denominator is one.
    pub fn is_integer(&self) -> (r: bool)
        ensures
            r == (self@.den == 1),
    {
        integer_is_one(&self.denom)
    }

    /// `self + rhs`.
    pub(crate) fn plus(&self, rhs: &Constant) -> (r: Constant)
        ensures
            r@ == self@.sum(rhs@),
    {
        proof {
            use_type_invariant(self);
            use_type_invariant(rhs);
            lemma_arithmetic(self@, rhs@);
        }
        Constant::from_parts(ratio_add(self, rhs))
    }

    /// `self - rhs`.
    pub(crate) fn minus(&self, rhs: &Constant) -> (r: Constant)
        ensures
            r@ == self@.difference(rhs@),
    {
        proof {
            use_type_invariant(self);
            use_type_invariant(rhs);
            lemma_arithmetic(self@, rhs@);
        }
        Constant::from_parts(ratio_sub(self, rhs))
    }

    /// `self * rhs`.
    pub(crate) fn times(&self, rhs: &Constant) -> (r: Constant)
        ensures
            r@ == self@.product(rhs@),
    {
        proof {
            use_type_invariant(self);
            use_type_invariant(rhs);
            lemma_arithmetic(self@, rhs@);
        }
        Constant::from_parts(ratio_mul(self, rhs))
    }

    /// `self / rhs`. There is no quotient by zero.
    pub(crate) fn over(&self, rhs: &Constant) -> (r: Constant)
        requires
            rhs@.num != 0,
        ensures
            r@ == self@.quotient(rhs@),
    {
        proof {
            use_type_invariant(self);
            use_type_invariant(rhs);
            lemma_arithmetic(self@, rhs@);
        }
        Constant::from_parts(ratio_div(self, rhs))
    }

    /// `-self`.
    pub(crate) fn negated(&self) -> (r: Constant)
        ensures
            r@ == self@.negation(),
    {
        proof {
            use_type_invariant(self);
            lemma_unary(self@);
        }
        Constant::from_parts(ratio_neg(self))
    }

    /// `self` without its sign.
    pub(crate) fn magnitude(&self) -> (r: Constant)
        ensures
            r@ == self@.magnitude(),
    {
        proof {
            use_type_invariant(self);
            lemma_unary(self@);
        }
        Constant::from_parts(ratio_abs(self))
    }

    /// The greatest whole number not above `self`.
    pub(crate) fn floor(&self) -> (r: Constant)
        ensures
            r@ == self@.floor(),
    {
        proof {
            use_type_invariant(self);
            lemma_unary(self@);
        }
        Constant::from_parts(ratio_floor(self))
    }

    /// The least whole number not below `self`.
    pub(crate) fn ceil(&self) -> (r: Constant)
        ensures
            r@ == self@.ceiling(),
    {
        proof {
            use_type_invariant(self);
            lemma_unary(self@);
        }
        Constant::from_parts(ratio_ceil(self))
    }

    /// The whole number nearest to `self`, a half going away from zero.
    pub(crate) fn round(&self) -> (r: Constant)
        ensures
            r@ == self@.rounding(),
    {
        proof {
            use_type_invariant(self);
            lemma_unary(self@);
        }
        Constant::from_parts(ratio_round(self))
    }

    /// Whether `self` can be raised to the power `e`.
    pub(crate) fn can_raise(&self, e: &Integer) -> (r: bool)
        ensures
            r == self@.raisable(e@),
    {
        let half = integer_from_i64(0x1_0000_0000);
        let word = integer_mul(&half, &half);
        let limit = integer_mul(&word, &word);
        let floor = integer_mul(&integer_from_i64(-1), &limit);
        assert(limit@ == exponent_limit() && floor@ == -exponent_limit()) by (nonlinear_arith)
            requires
                half@ == 0x1_0000_0000,
                word@ == half@ * half@,
                limit@ == word@ * word@,
                floor@ == -1 * limit@,
        ;
        if integer_gt(&limit, e) && integer_gt(e, &floor) {
            true
        } else {
            integer_is_one(&self.denom) && (integer_is_one(&self.numer) || integer_eq(
                &self.numer,
                &integer_from_i64(-1),
            ))
        }
    }

    /// `self` to the power `e`. Zero has no negative power, and what
    /// cannot be raised has none.
    pub(crate) fn power(&self, e: &Integer) -> (r: Constant)
        requires
            self@.num != 0 || e@ >= 0,
            self@.raisable(e@),
        ensures
            r@ == self@.power(e@),
    {
        proof {
            use_type_invariant(self);
            lemma_power(self@, e@);
        }
        Constant::from_parts(ratio_pow(self, e))
    }
}

/// `BigInt::from` on an `i64`: the same number.
#[verifier::external_body]
pub(crate) fn integer_from_i64(v: i64) -> (r: Integer)
    ensures
        r@ == v,
{
    Integer { bytes: BigInt::from(v).to_signed_bytes_le() }
}

/// `==` on `BigInt`: whether the two are the same number.
#[verifier::external_body]
pub(crate) fn integer_eq(a: &Integer, b: &Integer) -> (r: bool)
    ensures
        r == (a@ == b@),
{
    BigInt::from_signed_bytes_le(&a.bytes) == BigInt::from_signed_bytes_le(&b.bytes)
}

/// `>` on `BigInt`: whether `a` is the greater number.
#[verifier::external_body]
pub(crate) fn integer_gt(a: &Integer, b: &Integer) -> (r: bool)
    ensures
        r == (a@ > b@),
{
    BigInt::from_signed_bytes_le(&a.bytes) > BigInt::from_signed_bytes_le(&b.bytes)
}

/// `One::is_one` on `BigInt`: whether the number is one.
#[verifier::external_body]
pub(crate) fn integer_is_one(a: &Integer) -> (r: bool)
    ensures
        r == (a@ == 1),
{
    BigInt::from_signed_bytes_le(&a.bytes).is_one()
}

/// `Integer::is_odd` on `BigInt`: whether two does not divide the number.
#[verifier::external_body]
pub(crate) fn integer_is_odd(a: &Integer) -> (r: bool)
    ensures
        r == (a@ % 2 == 1),
{
    BigInt::from_signed_bytes_le(&a.bytes).is_odd()
}

/// `*` on `BigInt`: the product.
#[verifier::external_body]
pub(crate) fn integer_mul(a: &Integer, b: &Integer) -> (r: Integer)
    ensures
        r@ == a@ * b@,
{
    let p = BigInt::from_signed_bytes_le(&a.bytes) * BigInt::from_signed_bytes_le(&b.bytes);
    Integer { bytes: p.to_signed_bytes_le() }
}

/// `BigInt::sqrt`: the square root rounded down. It panics on a negative
/// number, which `requires` leaves out.
#[verifier::external_body]
pub(crate) fn integer_sqrt(a: &Integer) -> (r: Integer)
    requires
        a@ >= 0,
    ensures
        r@ >= 0,
        r@ * r@ <= a@ < (r@ + 1) * (r@ + 1),
{
    Integer { bytes: BigInt::from_signed_bytes_le(&a.bytes).sqrt().to_signed_bytes_le() }
}

/// `Ratio::new`: `numer / denom` in lowest terms with a positive
/// denominator. It panics on a zero denominator, which `requires` leaves out.
#[verifier::external_body]
fn ratio_new(numer: &Integer, denom: &Integer) -> (r: (Integer, Integer))
    requires
        denom@ != 0,
    ensures
        fraction(r) == Rational::new(numer@, denom@),
{
    let q = Ratio::new(
        BigInt::from_signed_bytes_le(&numer.bytes),
        BigInt::from_signed_bytes_le(&denom.bytes),
    );
    (
        Integer { bytes: q.numer().to_signed_bytes_le() },
        Integer { bytes: q.denom().to_signed_bytes_le() },
    )
}

/// `+` on `Ratio`: the sum in lowest terms.
#[verifier::external_body]
fn ratio_add(a: &Constant, b: &Constant) -> (r: (Integer, Integer))
    requires
        a@.wf(),
        b@.wf(),
    ensures
        fraction(r) == a@.sum(b@),
{
    let x = Ratio::new_raw(
        BigInt::from_signed_bytes_le(&a.numer.bytes),
        BigInt::from_signed_bytes_le(&a.denom.bytes),
    );
    let y = Ratio::new_raw(
        BigInt::from_signed_bytes_le(&b.numer.bytes),
        BigInt::from_signed_bytes_le(&b.denom.bytes),
    );
    let q = x + y;
    (
        Integer { bytes: q.numer().to_signed_bytes_le() },
        Integer { bytes: q.denom().to_signed_bytes_le() },
    )
}

/// `-` on `Ratio`: the difference in lowest terms.
#[verifier::external_body]
fn ratio_sub(a: &Constant, b: &Constant) -> (r: (Integer, Integer))
    requires
        a@.wf(),
        b@.wf(),
    ensures
        fraction(r) == a@.difference(b@),
{
    let x = Ratio::new_raw(
        BigInt::from_signed_bytes_le(&a.numer.bytes),
        BigInt::from_signed_bytes_le(&a.denom.bytes),
    );
    let y = Ratio::new_raw(
        BigInt::from_signed_bytes_le(&b.numer.bytes),
        BigInt::from_signed_bytes_le(&b.denom.bytes),
    );
    let q = x - y;
    (
        Integer { bytes: q.numer().to_signed_bytes_le() },
        Integer { bytes: q.denom().to_signed_bytes_le() },
    )
}

/// `*` on `Ratio`: the product in lowest terms.
#[verifier::external_body]
fn ratio_mul(a: &Constant, b: &Constant) -> (r: (Integer, Integer))
    requires
        a@.wf(),
        b@.wf(),
    ensures
        fraction(r) == a@.product(b@),
{
    let x = Ratio::new_raw(
        BigInt::from_signed_bytes_le(&a.numer.bytes),
        BigInt::from_signed_bytes_le(&a.denom.bytes),
    );
    let y = Ratio::new_raw(
        BigInt::from_signed_bytes_le(&b.numer.bytes),
        BigInt::from_signed_bytes_le(&b.denom.bytes),
    );
    let q = x * y;
    (
        Integer { bytes: q.numer().to_signed_bytes_le() },
        Integer { bytes: q.denom().to_signed_bytes_le() },
    )
}

/// `/` on `Ratio`: the quotient in lowest terms. It panics on a zero
/// divisor, which `requires` leaves out.
#[verifier::external_body]
fn ratio_div(a: &Constant, b: &Constant) -> (r: (Integer, Integer))
    requires
        a@.wf(),
        b@.wf(),
        b@.num != 0,
    ensures
        fraction(r) == a@.quotient(b@),
{
    let x = Ratio::new_raw(
        BigInt::from_signed_bytes_le(&a.numer.bytes),
        BigInt::from_signed_bytes_le(&a.denom.bytes),
    );
    let y = Ratio::new_raw(
        BigInt::from_signed_bytes_le(&b.numer.bytes),
        BigInt::from_signed_bytes_le(&b.denom.bytes),
    );
    let q = x / y;
    (
        Integer { bytes: q.numer().to_signed_bytes_le() },
        Integer { bytes: q.denom().to_signed_bytes_le() },
    )
}

/// Unary `-` on `Ratio`: the numerator changes its sign.
#[verifier::external_body]
fn ratio_neg(a: &Constant) -> (r: (Integer, Integer))
    requires
        a@.wf(),
    ensures
        fraction(r) == a@.negation(),
{
    let x = Ratio::new_raw(
        BigInt::from_signed_bytes_le(&a.numer.bytes),
        BigInt::from_signed_bytes_le(&a.denom.bytes),
    );
    let q = -x;
    (
        Integer { bytes: q.numer().to_signed_bytes_le() },
        Integer { bytes: q.denom().to_signed_bytes_le() },
    )
}

/// `Signed::abs` on `Ratio`: the numerator loses its sign.
#[verifier::external_body]
fn ratio_abs(a: &Constant) -> (r: (Integer, Integer))
    requires
        a@.wf(),
    ensures
        fraction(r) == a@.magnitude(),
{
    let x = Ratio::new_raw(
        BigInt::from_signed_bytes_le(&a.numer.bytes),
        BigInt::from_signed_bytes_le(&a.denom.bytes),
    );
    let q = x.abs();
    (
        Integer { bytes: q.numer().to_signed_bytes_le() },
        Integer { bytes: q.denom().to_signed_bytes_le() },
    )
}

/// `Ratio::floor`: the greatest whole number not above the value.
#[verifier::external_body]
fn ratio_floor(a: &Constant) -> (r: (Integer, Integer))
    requires
        a@.wf(),
    ensures
        fraction(r) == a@.floor(),
{
    let x = Ratio::new_raw(
        BigInt::from_signed_bytes_le(&a.numer.bytes),
        BigInt::from_signed_bytes_le(&a.denom.bytes),
    );
    let q = x.floor();
    (
        Integer { bytes: q.numer().to_signed_bytes_le() },
        Integer { bytes: q.denom().to_signed_bytes_le() },
    )
}

/// `Ratio::ceil`: the least whole number not below the value.
#[verifier::external_body]
fn ratio_ceil(a: &Constant) -> (r: (Integer, Integer))
    requires
        a@.wf(),
    ensures
        fraction(r) == a@.ceiling(),
{
    let x = Ratio::new_raw(
        BigInt::from_signed_bytes_le(&a.numer.bytes),
        BigInt::from_signed_bytes_le(&a.denom.bytes),
    );
    let q = x.ceil();
    (
        Integer { bytes: q.numer().to_signed_bytes_le() },
        Integer { bytes: q.denom().to_signed_bytes_le() },
    )
}

/// `Ratio::round`: the nearest whole number, a half going away from zero.
#[verifier::external_body]
fn ratio_round(a: &Constant) -> (r: (Integer, Integer))
    requires
        a@.wf(),
    ensures
        fraction(r) == a@.rounding(),
{
    let x = Ratio::new_raw(
        BigInt::from_signed_bytes_le(&a.numer.bytes),
        BigInt::from_signed_bytes_le(&a.denom.bytes),
    );
    let q = x.round();
    (
        Integer { bytes: q.numer().to_signed_bytes_le() },
        Integer { bytes: q.denom().to_signed_bytes_le() },
    )
}

/// `Pow::pow` on `&Ratio` with a `BigInt` exponent: one for the exponent
/// zero; else numerator and denominator are each raised to the size of
/// the exponent, and swapped where it is negative, the sign staying with
/// the numerator. It panics on a negative power of zero, and on an
/// exponent of size two to the 128 or more where numerator or denominator
/// is in size two or more; `requires` leaves both out.
#[verifier::external_body]
fn ratio_pow(a: &Constant, e: &Integer) -> (r: (Integer, Integer))
    requires
        a@.wf(),
        a@.num != 0 || e@ >= 0,
        a@.raisable(e@),
    ensures
        fraction(r) == a@.power(e@),
{
    let x = Ratio::new_raw(
        BigInt::from_signed_bytes_le(&a.numer.bytes),
        BigInt::from_signed_bytes_le(&a.denom.bytes),
    );
    let q = Pow::pow(&x, BigInt::from_signed_bytes_le(&e.bytes));
    (
        Integer { bytes: q.numer().to_signed_bytes_le() },
        Integer { bytes: q.denom().to_signed_bytes_le() },
    )
}

} // verus!
