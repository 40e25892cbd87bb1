//! Rational numbers as a mathematical model: a numerator and a denominator
//! over the unbounded integers, kept in lowest terms.

use crate::gcd::gcd;
use crate::gcd::lemma_cofactor;
use crate::gcd::lemma_coprime_divides;
use crate::gcd::lemma_coprime_powers;
use crate::gcd::lemma_divide_each_other;
use crate::gcd::lemma_gcd_cofactors;
use crate::gcd::lemma_gcd_divides;
use crate::gcd::lemma_gcd_symmetric;
use crate::gcd::lemma_multiple;
use vstd::arithmetic::div_mod::lemma_div_multiples_vanish;
use vstd::arithmetic::power::lemma_pow_positive;
use vstd::arithmetic::power::pow;
use vstd::math::abs;
use vstd::prelude::*;

verus! {

/// The size from which on an exponent is too large to raise to: two to
/// the power 128. No machine holds such a power of a number other than
/// zero, one and minus one.
pub open spec fn exponent_limit() -> int {
    0x1_0000_0000_0000_0000_0000_0000_0000_0000int
}

/// The fraction `num / den`.
pub struct Rational {
    pub num: int,
    pub den: int,
}

impl Rational {
    /// Lowest terms with a positive denominator.
    pub open spec fn wf(self) -> bool {
        self.den > 0 && gcd(abs(self.num), abs(self.den)) == 1
    }

    /// The fraction `n / d` in lowest terms, for `d != 0`.
    pub open spec fn new(n: int, d: int) -> Rational {
        let g = gcd(abs(n), abs(d)) as int;
        if d < 0 {
            Rational { num: (-n) / g, den: (-d) / g }
        } else {
            Rational { num: n / g, den: d / g }
        }
    }

    /// The integer `n` as a fraction.
    pub open spec fn from_int(n: int) -> Rational {
        Rational { num: n, den: 1 }
    }

    /// Zero.
    pub open spec fn zero() -> Rational {
        Rational::from_int(0)
    }

    /// One.
    pub open spec fn one() -> Rational {
        Rational::from_int(1)
    }

    /// `self + rhs` in lowest terms.
    pub open spec fn sum(self, rhs: Rational) -> Rational {
        Rational::new(self.num * rhs.den + rhs.num * self.den, self.den * rhs.den)
    }

    /// `self - rhs` in lowest terms.
    pub open spec fn difference(self, rhs: Rational) -> Rational {
        Rational::new(self.num * rhs.den - rhs.num * self.den, self.den * rhs.den)
    }

    /// `self * rhs` in lowest terms.
    pub open spec fn product(self, rhs: Rational) -> Rational {
        Rational::new(self.num * rhs.num, self.den * rhs.den)
    }

    /// `self / rhs` in lowest terms, for `rhs` other than zero.
    pub open spec fn quotient(self, rhs: Rational) -> Rational {
        Rational::new(self.num * rhs.den, self.den * rhs.num)
    }

    /// `-self`.
    pub open spec fn negation(self) -> Rational {
        Rational { num: -self.num, den: self.den }
    }

    /// `self` without its sign.
    pub open spec fn magnitude(self) -> Rational {
        Rational { num: abs(self.num) as int, den: self.den }
    }

    /// The reciprocal with the sign carried by the numerator, for `self`
    /// other than zero.
    pub open spec fn reciprocal(self) -> Rational {
        if self.num < 0 {
            Rational { num: -self.den, den: -self.num }
        } else {
            Rational { num: self.den, den: self.num }
        }
    }

    /// Whether `self` can be raised to the power `e`: the size of `e` is
    /// below `exponent_limit()`, or `self` is one or minus one, whose powers
    /// do not grow.
    pub open spec fn raisable(self, e: int) -> bool {
        -exponent_limit() < e < exponent_limit() || (self.den == 1 && (self.num == 1 || self.num == -1))
    }

    /// `self` raised to the integer power `e`; a negative `e` gives the
    /// reciprocal of the positive power.
    pub open spec fn power(self, e: int) -> Rational {
        if e == 0 {
            Rational::one()
        } else if e > 0 {
            Rational { num: pow(self.num, e as nat), den: pow(self.den, e as nat) }
        } else {
            Rational { num: pow(self.num, (-e) as nat), den: pow(self.den, (-e) as nat) }.reciprocal()
        }
    }

    /// The greatest integer not above `self`.
    pub open spec fn floor(self) -> Rational {
        Rational::from_int(self.num / self.den)
    }

    /// The least integer not below `self`.
    pub open spec fn ceiling(self) -> Rational {
        Rational::from_int(-((-self.num) / self.den))
    }

    /// The nearest integer; a half rounds away from zero.
    pub open spec fn rounding(self) -> Rational {
        if self.num < 0 {
            Rational::from_int(-((2 * (-self.num) + self.den) / (2 * self.den)))
        } else {
            Rational::from_int((2 * self.num + self.den) / (2 * self.den))
        }
    }
}

/// `Rational::new(n, d)` is in lowest terms and stands for `n / d`.
pub proof fn lemma_new_reduced(n: int, d: int)
    requires
        d != 0,
    ensures
        Rational::new(n, d).wf(),
        Rational::new(n, d).num * d == n * Rational::new(n, d).den,
{
    let an = abs(n);
    let ad = abs(d);
    lemma_gcd_cofactors(an, ad);
    lemma_gcd_divides(an, ad);
    let g = gcd(an, ad) as int;
    lemma_cofactor(an as int, g);
    lemma_cofactor(ad as int, g);
    let n1 = an as int / g;
    let d1 = ad as int / g;
    assert(n1 >= 0 && d1 > 0) by (nonlinear_arith)
        requires
            g > 0,
            an >= 0,
            ad > 0,
            an == g * n1,
            ad == g * d1,
    ;
    let sn = if d < 0 {
        -n
    } else {
        n
    };
    let k = if sn < 0 {
        -n1
    } else {
        n1
    };
    assert(sn == g * k) by (nonlinear_arith)
        requires
            an == g * n1,
            k == if sn < 0 {
                -n1
            } else {
                n1
            },
            an == if sn < 0 {
                -sn
            } else {
                sn
            },
    ;
    lemma_div_multiples_vanish(k, g);
    lemma_div_multiples_vanish(d1, g);
    let r = Rational::new(n, d);
    assert(r.num == k);
    assert(r.den == d1);
    assert(abs(k) == n1);
    assert(k * d == n * d1) by (nonlinear_arith)
        requires
            sn == g * k,
            ad == g * d1,
            g > 0,
            sn == if d < 0 {
                -n
            } else {
                n
            },
            ad == if d < 0 {
                -d
            } else {
                d
            },
    ;
}

/// Two fractions in lowest terms that stand for the same number are the
/// same fraction.
pub proof fn lemma_lowest_terms_unique(x: Rational, y: Rational)
    requires
        x.wf(),
        y.wf(),
        x.num * y.den == y.num * x.den,
    ensures
        x == y,
{
    let a = abs(x.num);
    let b = abs(x.den);
    let c = abs(y.num);
    let d = abs(y.den);
    assert(a * d == c * b) by (nonlinear_arith)
        requires
            x.num * y.den == y.num * x.den,
            x.den > 0,
            y.den > 0,
            a == if x.num < 0 {
                -x.num
            } else {
                x.num
            },
            c == if y.num < 0 {
                -y.num
            } else {
                y.num
            },
            b == x.den,
            d == y.den,
    ;
    // b divides a * d and has nothing in common with a: it divides d
    lemma_gcd_symmetric(a, b);
    lemma_multiple(b as int, c as int);
    assert(a * d == b * c) by (nonlinear_arith)
        requires
            a * d == c * b,
    ;
    lemma_coprime_divides(b, a, d);
    // and the other way round
    lemma_gcd_symmetric(c, d);
    lemma_multiple(d as int, a as int);
    assert(c * b == d * a) by (nonlinear_arith)
        requires
            a * d == c * b,
    ;
    lemma_coprime_divides(d, c, b);
    lemma_divide_each_other(b, d);
    assert(x.num == y.num) by (nonlinear_arith)
        requires
            x.num * y.den == y.num * x.den,
            x.den == y.den,
            x.den > 0,
    ;
}

/// The size of a power is the power of the size.
pub proof fn lemma_abs_pow(n: int, e: nat)
    ensures
        abs(pow(n, e)) == pow(abs(n) as int, e),
    decreases e,
{
    reveal(pow);
    if e != 0 {
        lemma_abs_pow(n, (e - 1) as nat);
        let m = pow(n, (e - 1) as nat);
        assert(abs(n * m) == abs(n) * abs(m)) by (nonlinear_arith);
    }
}

/// A power of a number other than zero is not zero.
pub proof fn lemma_pow_nonzero(n: int, e: nat)
    requires
        n != 0,
    ensures
        pow(n, e) != 0,
{
    lemma_abs_pow(n, e);
    lemma_pow_positive(abs(n) as int, e);
}

/// Sum, difference, product and quotient are in lowest terms and stand
/// for what their names say.
pub proof fn lemma_arithmetic(x: Rational, y: Rational)
    requires
        x.wf(),
        y.wf(),
    ensures
        x.sum(y).wf(),
        x.sum(y).num * (x.den * y.den) == (x.num * y.den + y.num * x.den) * x.sum(y).den,
        x.difference(y).wf(),
        x.difference(y).num * (x.den * y.den) == (x.num * y.den - y.num * x.den) * x.difference(
            y,
        ).den,
        x.product(y).wf(),
        x.product(y).num * (x.den * y.den) == (x.num * y.num) * x.product(y).den,
        y.num != 0 ==> x.quotient(y).wf(),
        y.num != 0 ==> x.quotient(y).num * (x.den * y.num) == (x.num * y.den) * x.quotient(y).den,
{
    assert(x.den * y.den != 0) by (nonlinear_arith)
        requires
            x.den > 0,
            y.den > 0,
    ;
    lemma_new_reduced(x.num * y.den + y.num * x.den, x.den * y.den);
    lemma_new_reduced(x.num * y.den - y.num * x.den, x.den * y.den);
    lemma_new_reduced(x.num * y.num, x.den * y.den);
    if y.num != 0 {
        assert(x.den * y.num != 0) by (nonlinear_arith)
            requires
                x.den > 0,
                y.num != 0,
        ;
        lemma_new_reduced(x.num * y.den, x.den * y.num);
    }
}

/// A whole number is a fraction in lowest terms.
pub proof fn lemma_from_int(n: int)
    ensures
        Rational::from_int(n).wf(),
{
    reveal_with_fuel(gcd, 3);
}

/// Changing the sign, dropping it, and rounding to a whole number in
/// any of the four ways keep lowest terms.
pub proof fn lemma_unary(x: Rational)
    requires
        x.wf(),
    ensures
        x.negation().wf(),
        x.magnitude().wf(),
        x.floor().wf(),
        x.ceiling().wf(),
        x.rounding().wf(),
{
    lemma_from_int(x.num / x.den);
    lemma_from_int(-((-x.num) / x.den));
    lemma_from_int(-((2 * (-x.num) + x.den) / (2 * x.den)));
    lemma_from_int((2 * x.num + x.den) / (2 * x.den));
}

/// The reciprocal of a fraction in lowest terms is in lowest terms.
pub proof fn lemma_reciprocal(x: Rational)
    requires
        x.den > 0,
        x.num != 0,
        gcd(abs(x.num), abs(x.den)) == 1,
    ensures
        x.reciprocal().wf(),
        x.reciprocal().num * x.num == x.den * x.reciprocal().den,
{
    lemma_gcd_symmetric(abs(x.num), abs(x.den));
    assert(x.reciprocal().num * x.num == x.den * x.reciprocal().den) by (nonlinear_arith)
        requires
            x.reciprocal() == if x.num < 0 {
                Rational { num: -x.den, den: -x.num }
            } else {
                Rational { num: x.den, den: x.num }
            },
    ;
}

/// A whole power of a fraction in lowest terms is in lowest terms.
pub proof fn lemma_power(x: Rational, e: int)
    requires
        x.wf(),
        x.num != 0 || e >= 0,
    ensures
        x.power(e).wf(),
{
    if e == 0 {
        lemma_from_int(1);
    } else {
        let m = if e > 0 {
            e as nat
        } else {
            (-e) as nat
        };
        let p = Rational { num: pow(x.num, m), den: pow(x.den, m) };
        lemma_abs_pow(x.num, m);
        lemma_pow_positive(x.den, m);
        lemma_coprime_powers(abs(x.num), abs(x.den), m);
        assert(p.wf());
        if e < 0 {
            lemma_pow_nonzero(x.num, m);
            lemma_reciprocal(p);
        }
    }
}

} // verus!
