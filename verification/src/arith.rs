//! Greatest-common-divisor arithmetic used to keep rationals in lowest terms.

use vstd::arithmetic::div_mod::{
    lemma_mod_division_less_than_divisor,
    lemma_fundamental_div_mod, lemma_mod_multiples_vanish, lemma_mod_self_0, lemma_small_mod,
};
use vstd::arithmetic::mul::lemma_mul_is_associative;
use vstd::prelude::*;

verus! {

/// Greatest common divisor of two natural numbers, by Euclid's recursion.
pub open spec fn gcd(a: nat, b: nat) -> nat
    decreases b,
{
    if b == 0 {
        a
    } else {
        gcd(b, a % b)
    }
}

/// A positive divisor of a positive number is at most that number.
pub proof fn lemma_divisor_le(d: nat, n: nat)
    requires
        d > 0,
        n > 0,
        n % d == 0,
    ensures
        d <= n,
{
    lemma_fundamental_div_mod(n as int, d as int);
    if n as int / d as int <= 0 {
        assert(n as int == d * (n as int / d as int)) by {
            lemma_fundamental_div_mod(n as int, d as int);
        }
        assert(d * (n as int / d as int) <= 0) by (nonlinear_arith)
            requires
                d > 0,
                n as int / d as int <= 0,
        ;
    } else {
        assert(d <= d * (n as int / d as int)) by (nonlinear_arith)
            requires
                d > 0,
                n as int / d as int >= 1,
        ;
    }
}

/// The gcd of two numbers, not both zero, is positive and divides both.
pub proof fn lemma_gcd_divides(a: nat, b: nat)
    requires
        a > 0 || b > 0,
    ensures
        gcd(a, b) > 0,
        a % gcd(a, b) == 0,
        b % gcd(a, b) == 0,
    decreases b,
{
    if b == 0 {
        lemma_mod_self_0(a as int);
        lemma_small_mod(0, a);
    } else {
        lemma_gcd_divides(b, a % b);
        let g = gcd(b, a % b);
        // a == b * (a / b) + a % b, and b is a multiple of g,
        // so a differs from a % b by a multiple of g.
        lemma_fundamental_div_mod(a as int, b as int);
        lemma_fundamental_div_mod(b as int, g as int);
        assert(b as int == g * (b as int / g as int));
        assert(b * (a as int / b as int) == g * ((b as int / g as int) * (a as int / b as int)))
            by {
            lemma_mul_is_associative(g as int, b as int / g as int, a as int / b as int);
        }
        lemma_mod_multiples_vanish(
            (b as int / g as int) * (a as int / b as int),
            (a % b) as int,
            g as int,
        );
        lemma_small_mod(a % b % g, g);
    }
}

/// Any common divisor of two numbers divides their gcd.
pub proof fn lemma_gcd_greatest(a: nat, b: nat, c: nat)
    requires
        c > 0,
        a % c == 0,
        b % c == 0,
    ensures
        gcd(a, b) % c == 0,
    decreases b,
{
    if b == 0 {
    } else {
        // a % b == a - b * (a / b), and both a and b are multiples of c,
        // so a % b is one as well.
        lemma_fundamental_div_mod(a as int, b as int);
        lemma_fundamental_div_mod(b as int, c as int);
        assert(b * (a as int / b as int) == c * ((b as int / c as int) * (a as int / b as int)))
            by {
            lemma_mul_is_associative(c as int, b as int / c as int, a as int / b as int);
        }
        assert((a % b) as int == c * (-((b as int / c as int) * (a as int / b as int))) + a)
            by (nonlinear_arith)
            requires
                a as int == b * (a as int / b as int) + (a % b),
                b * (a as int / b as int) == c * ((b as int / c as int) * (a as int / b as int)),
        ;
        lemma_mod_multiples_vanish(
            -((b as int / c as int) * (a as int / b as int)),
            a as int,
            c as int,
        );
        lemma_gcd_greatest(b, a % b, c);
    }
}

/// Dividing two numbers by their gcd leaves a coprime pair.
pub proof fn lemma_gcd_quotients_coprime(a: nat, b: nat)
    requires
        b > 0,
    ensures
        gcd(a / gcd(a, b), b / gcd(a, b)) == 1,
{
    let g = gcd(a, b);
    lemma_gcd_divides(a, b);
    let a1 = a / g;
    let b1 = b / g;
    lemma_fundamental_div_mod(a as int, g as int);
    lemma_fundamental_div_mod(b as int, g as int);
    assert(a == g * a1);
    assert(b == g * b1);
    assert(b1 > 0) by (nonlinear_arith)
        requires
            b == g * b1,
            b > 0,
            b1 >= 0,
    ;
    let h = gcd(a1, b1);
    lemma_gcd_divides(a1, b1);
    // a1 and b1 are multiples of h, so a and b are multiples of h * g.
    lemma_fundamental_div_mod(a1 as int, h as int);
    lemma_fundamental_div_mod(b1 as int, h as int);
    assert(a == (h * g) * (a1 as int / h as int)) by (nonlinear_arith)
        requires
            a == g * a1,
            a1 as int == h * (a1 as int / h as int),
    ;
    assert(b == (h * g) * (b1 as int / h as int)) by (nonlinear_arith)
        requires
            b == g * b1,
            b1 as int == h * (b1 as int / h as int),
    ;
    assert(a % (h * g) == 0) by {
        lemma_mod_multiples_vanish(a1 as int / h as int, 0, (h * g) as int);
        lemma_small_mod(0, h * g);
    }
    assert(b % (h * g) == 0) by {
        lemma_mod_multiples_vanish(b1 as int / h as int, 0, (h * g) as int);
        lemma_small_mod(0, h * g);
    }
    lemma_gcd_greatest(a, b, h * g);
    lemma_divisor_le(h * g, g);
    assert(h == 1) by (nonlinear_arith)
        requires
            h * g <= g,
            h > 0,
            g > 0,
    ;
}

/// One divides everything evenly.
pub proof fn lemma_gcd_one(a: nat)
    ensures
        gcd(a, 1) == 1,
{
    lemma_mod_division_less_than_divisor(a as int, 1);
    assert(gcd(a, 1) == gcd(1, a % 1));
    assert(gcd(1, 0) == 1);
}

/// Euclid's algorithm.
pub fn gcd_u128(a: u128, b: u128) -> (g: u128)
    ensures
        g as nat == gcd(a as nat, b as nat),
{
    let mut x = a;
    let mut y = b;
    while y != 0
        invariant
            gcd(x as nat, y as nat) == gcd(a as nat, b as nat),
        decreases y,
    {
        let r = x % y;
        x = y;
        y = r;
    }
    x
}

} // verus!
