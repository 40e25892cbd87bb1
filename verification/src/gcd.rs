//! The greatest common divisor, and the facts about it that fractions
//! in lowest terms rest on.

use vstd::arithmetic::div_mod::lemma_fundamental_div_mod;
use vstd::arithmetic::div_mod::lemma_mod_multiples_basic;
use vstd::arithmetic::div_mod::lemma_truncate_middle;
use vstd::arithmetic::power::pow;
use vstd::prelude::*;

verus! {

/// The greatest common divisor of two naturals, by Euclid's recurrence.
/// `gcd(0, 0)` is 0.
pub open spec fn gcd(a: nat, b: nat) -> nat
    decreases b,
{
    if b == 0 {
        a
    } else {
        gcd(b, a % b)
    }
}

/// A multiple of `d` leaves no remainder.
pub proof fn lemma_multiple(d: int, k: int)
    requires
        d > 0,
    ensures
        (d * k) % d == 0,
{
    lemma_mod_multiples_basic(k, d);
    assert(d * k == k * d) by (nonlinear_arith);
}

/// What leaves no remainder is a multiple.
pub proof fn lemma_cofactor(n: int, d: int)
    requires
        d > 0,
        n % d == 0,
    ensures
        n == d * (n / d),
{
    lemma_fundamental_div_mod(n, d);
}

/// Unless both numbers are zero, their greatest common divisor is not.
pub proof fn lemma_gcd_positive(a: nat, b: nat)
    requires
        a > 0 || b > 0,
    ensures
        gcd(a, b) > 0,
    decreases b,
{
    if b != 0 {
        lemma_gcd_positive(b, a % b);
    }
}

/// The greatest common divisor divides both numbers.
pub proof fn lemma_gcd_divides(a: nat, b: nat)
    requires
        a > 0 || b > 0,
    ensures
        gcd(a, b) > 0,
        a % gcd(a, b) == 0,
        b % gcd(a, b) == 0,
    decreases b,
{
    lemma_gcd_positive(a, b);
    let g = gcd(a, b) as int;
    if b == 0 {
        lemma_multiple(g, 1);
        lemma_multiple(g, 0);
    } else {
        let r = (a % b) as int;
        let q = (a / b) as int;
        lemma_gcd_divides(b, a % b);
        lemma_fundamental_div_mod(a as int, b as int);
        lemma_cofactor(b as int, g);
        lemma_cofactor(r, g);
        let kb = b as int / g;
        let kr = r / g;
        assert(a == g * (kb * q + kr)) by (nonlinear_arith)
            requires
                a == b * q + r,
                b == g * kb,
                r == g * kr,
        ;
        lemma_multiple(g, kb * q + kr);
    }
}

/// Every common divisor divides the greatest one.
pub proof fn lemma_gcd_greatest(a: nat, b: nat, c: nat)
    requires
        c > 0,
        a % c == 0,
        b % c == 0,
    ensures
        gcd(a, b) % c == 0,
    decreases b,
{
    if b != 0 {
        let r = (a % b) as int;
        let q = (a / b) as int;
        lemma_fundamental_div_mod(a as int, b as int);
        lemma_cofactor(a as int, c as int);
        lemma_cofactor(b as int, c as int);
        let ka = a as int / c as int;
        let kb = b as int / c as int;
        assert(r == c * (ka - kb * q)) by (nonlinear_arith)
            requires
                a == b * q + r,
                a == c * ka,
                b == c * kb,
        ;
        lemma_multiple(c as int, ka - kb * q);
        lemma_gcd_greatest(b, a % b, c);
    }
}

/// Two positive numbers that divide each other are the same number.
pub proof fn lemma_divide_each_other(x: nat, y: nat)
    requires
        x > 0,
        y > 0,
        x % y == 0,
        y % x == 0,
    ensures
        x == y,
{
    lemma_cofactor(x as int, y as int);
    lemma_cofactor(y as int, x as int);
    let kx = x as int / y as int;
    let ky = y as int / x as int;
    assert(x == y) by (nonlinear_arith)
        requires
            x > 0,
            y > 0,
            x == y * kx,
            y == x * ky,
    ;
}

/// The order of the two numbers does not matter.
pub proof fn lemma_gcd_symmetric(a: nat, b: nat)
    ensures
        gcd(a, b) == gcd(b, a),
{
    if a > 0 || b > 0 {
        lemma_gcd_divides(a, b);
        lemma_gcd_divides(b, a);
        lemma_gcd_greatest(a, b, gcd(b, a));
        lemma_gcd_greatest(b, a, gcd(a, b));
        lemma_divide_each_other(gcd(a, b), gcd(b, a));
    } else {
        reveal_with_fuel(gcd, 2);
    }
}

/// Two numbers divided by their greatest common divisor have no common
/// divisor left but one.
pub proof fn lemma_gcd_cofactors(a: nat, b: nat)
    requires
        a > 0 || b > 0,
    ensures
        gcd(a, b) > 0,
        gcd(a / gcd(a, b), b / gcd(a, b)) == 1,
{
    lemma_gcd_divides(a, b);
    let g = gcd(a, b);
    let a1 = a / g;
    let b1 = b / g;
    lemma_cofactor(a as int, g as int);
    lemma_cofactor(b as int, g as int);
    assert(a1 > 0 || b1 > 0) by (nonlinear_arith)
        requires
            a > 0 || b > 0,
            a == g * a1,
            b == g * b1,
    ;
    lemma_gcd_divides(a1, b1);
    let h = gcd(a1, b1);
    lemma_cofactor(a1 as int, h as int);
    lemma_cofactor(b1 as int, h as int);
    let ka = a1 as int / h as int;
    let kb = b1 as int / h as int;
    let hg = h * g;
    assert(hg > 0 && a == hg * ka && b == hg * kb) by (nonlinear_arith)
        requires
            h > 0,
            g > 0,
            hg == h * g,
            a == g * a1,
            b == g * b1,
            a1 == h * ka,
            b1 == h * kb,
    ;
    lemma_multiple(hg as int, ka);
    lemma_multiple(hg as int, kb);
    lemma_gcd_greatest(a, b, hg);
    lemma_cofactor(g as int, hg as int);
    let m = g as int / hg as int;
    assert(h == 1) by (nonlinear_arith)
        requires
            h > 0,
            g > 0,
            hg == h * g,
            g == hg * m,
    ;
}

/// A common factor of both numbers can be taken out.
pub proof fn lemma_gcd_scales(x: nat, y: nat, z: nat)
    requires
        z > 0,
    ensures
        gcd(x * z, y * z) == z * gcd(x, y),
    decreases y,
{
    if y == 0 {
        assert(y * z == 0) by (nonlinear_arith)
            requires
                y == 0,
        ;
        assert(z * x == x * z) by (nonlinear_arith);
    } else {
        assert(y * z > 0) by (nonlinear_arith)
            requires
                y > 0,
                z > 0,
        ;
        lemma_truncate_middle(x as int, z as int, y as int);
        assert((x * z) % (y * z) == (x % y) * z) by (nonlinear_arith)
            requires
                (z * x) % (z * y) == z * (x % y),
        ;
        lemma_gcd_scales(y, x % y, z);
    }
}

/// Euclid's lemma: a number that divides a product and has no common
/// divisor with one factor divides the other.
pub proof fn lemma_coprime_divides(a: nat, b: nat, c: nat)
    requires
        a > 0,
        gcd(a, b) == 1,
        (b * c) % a == 0,
    ensures
        c % a == 0,
{
    if c == 0 {
        lemma_multiple(a as int, 0);
    } else {
        lemma_gcd_scales(a, b, c);
        lemma_multiple(a as int, c as int);
        lemma_gcd_greatest(a * c, b * c, a);
        assert(c * 1 == c);
    }
}

/// A number without a common divisor with either of two has none with
/// their product.
pub proof fn lemma_coprime_product(a: nat, b: nat, c: nat)
    requires
        gcd(a, b) == 1,
        gcd(a, c) == 1,
    ensures
        gcd(a, b * c) == 1,
{
    if a == 0 {
        reveal_with_fuel(gcd, 2);
        assert(b == 1 && c == 1);
        assert(b * c == 1);
    } else {
        lemma_gcd_divides(a, b * c);
        let h = gcd(a, b * c);
        // what divides h and b divides a and b
        lemma_gcd_divides(h, b);
        let k = gcd(h, b);
        lemma_divides_transitive(k, h, a);
        lemma_gcd_greatest(a, b, k);
        lemma_one_multiple(k);
        lemma_coprime_divides(h, b, c);
        lemma_gcd_greatest(a, c, h);
        lemma_one_multiple(h);
    }
}

/// Only one divides one.
pub proof fn lemma_one_multiple(k: nat)
    requires
        k > 0,
        1nat % k == 0,
    ensures
        k == 1,
{
    lemma_cofactor(1, k as int);
    let m = 1int / k as int;
    assert(k == 1) by (nonlinear_arith)
        requires
            k > 0,
            1 == k * m,
    ;
}

/// What divides a divisor divides the number.
pub proof fn lemma_divides_transitive(x: nat, y: nat, z: nat)
    requires
        x > 0,
        y > 0,
        y % x == 0,
        z % y == 0,
    ensures
        z % x == 0,
{
    lemma_cofactor(y as int, x as int);
    lemma_cofactor(z as int, y as int);
    let k1 = y as int / x as int;
    let k2 = z as int / y as int;
    assert(z == x * (k1 * k2)) by (nonlinear_arith)
        requires
            y == x * k1,
            z == y * k2,
    ;
    lemma_multiple(x as int, k1 * k2);
}

/// A power of a natural number is a natural number.
pub proof fn lemma_pow_natural(b: nat, e: nat)
    ensures
        pow(b as int, e) >= 0,
    decreases e,
{
    reveal(pow);
    if e != 0 {
        lemma_pow_natural(b, (e - 1) as nat);
        assert(b * pow(b as int, (e - 1) as nat) >= 0) by (nonlinear_arith)
            requires
                b >= 0,
                pow(b as int, (e - 1) as nat) >= 0,
        ;
    }
}

/// A number without a common divisor with another has none with its
/// powers.
pub proof fn lemma_coprime_power(a: nat, b: nat, e: nat)
    requires
        gcd(a, b) == 1,
    ensures
        pow(b as int, e) >= 0,
        gcd(a, pow(b as int, e) as nat) == 1,
    decreases e,
{
    reveal(pow);
    lemma_pow_natural(b, e);
    if e == 0 {
        reveal_with_fuel(gcd, 3);
    } else {
        lemma_coprime_power(a, b, (e - 1) as nat);
        lemma_coprime_product(a, b, pow(b as int, (e - 1) as nat) as nat);
    }
}

/// Equal powers of two numbers without a common divisor have none.
pub proof fn lemma_coprime_powers(a: nat, b: nat, e: nat)
    requires
        gcd(a, b) == 1,
    ensures
        pow(a as int, e) >= 0,
        pow(b as int, e) >= 0,
        gcd(pow(a as int, e) as nat, pow(b as int, e) as nat) == 1,
{
    lemma_coprime_power(a, b, e);
    let p = pow(b as int, e) as nat;
    lemma_gcd_symmetric(a, p);
    lemma_coprime_power(p, a, e);
    lemma_gcd_symmetric(p, pow(a as int, e) as nat);
}

} // verus!
