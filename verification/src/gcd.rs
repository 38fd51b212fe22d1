//! Greatest-common-divisor theory: the Euclidean `gcd` specification, the
//! lemmas the rational tower needs (a gcd divides both arguments, quotients
//! by the gcd are coprime), and a verified executable gcd.

use vstd::prelude::*;
use vstd::arithmetic::div_mod::{
    lemma_fundamental_div_mod, lemma_fundamental_div_mod_converse, lemma_mod_multiples_basic,
    lemma_mod_self_0, lemma_small_mod,
};

verus! {

/// Euclid's greatest common divisor.
pub open spec fn gcd(a: nat, b: nat) -> nat
    decreases b,
{
    if b == 0 {
        a
    } else {
        gcd(b, a % b)
    }
}

/// The absolute value of an integer, as a natural number.
pub open spec fn nat_abs(x: int) -> nat {
    if x < 0 {
        (-x) as nat
    } else {
        x as nat
    }
}

pub proof fn lemma_gcd_one_right(a: nat)
    ensures
        gcd(a, 1) == 1,
{
    assert(a % 1 == 0) by {
        lemma_mod_multiples_basic(a as int, 1);
    }
    assert(gcd(a, 1) == gcd(1nat, 0nat));
    assert(gcd(1nat, 0nat) == 1);
}

pub proof fn lemma_gcd_one_left(b: nat)
    ensures
        gcd(1nat, b) == 1,
    decreases b,
{
    if b == 0 {
    } else if b == 1 {
        lemma_gcd_one_right(1nat);
    } else {
        assert(1nat % b == 1) by {
            lemma_small_mod(1nat, b);
        }
        assert(gcd(1nat, b) == gcd(b, 1nat));
        lemma_gcd_one_right(b);
    }
}

/// If `g` divides `x` and `y`, it divides `m*x + y`.
proof fn lemma_mod_linear(m: int, x: int, y: int, g: int)
    requires
        g > 0,
        x % g == 0,
        y % g == 0,
    ensures
        (m * x + y) % g == 0,
{
    lemma_fundamental_div_mod(x, g);
    lemma_fundamental_div_mod(y, g);
    let xq = x / g;
    let yq = y / g;
    assert(m * x + y == (m * xq + yq) * g) by (nonlinear_arith)
        requires
            x == g * xq,
            y == g * yq,
    ;
    lemma_mod_multiples_basic(m * xq + yq, g);
}

/// The gcd of `a` and `b` is positive and divides both, whenever one of
/// them is positive.
pub proof fn lemma_gcd_divides(a: nat, b: nat)
    requires
        a > 0 || b > 0,
    ensures
        gcd(a, b) > 0,
        a % gcd(a, b) == 0,
        b % gcd(a, b) == 0,
    decreases b,
{
    if b == 0 {
        lemma_mod_self_0(a as int);
        lemma_small_mod(0nat, a);
    } else {
        lemma_gcd_divides(b, a % b);
        let g = gcd(b, a % b);
        // a == (a / b) * b + a % b, and g divides both b and a % b.
        lemma_fundamental_div_mod(a as int, b as int);
        lemma_mod_linear(a as int / b as int, b as int, (a % b) as int, g as int);
        assert(a as int == (a as int / b as int) * (b as int) + (a % b) as int);
    }
}

/// Any common divisor of `a` and `b` divides their gcd.
pub proof fn lemma_common_divisor_divides_gcd(a: nat, b: nat, d: nat)
    requires
        d > 0,
        a % d == 0,
        b % d == 0,
    ensures
        gcd(a, b) % d == 0,
    decreases b,
{
    if b == 0 {
    } else {
        // a % b is also divisible by d: a % b == a - (a / b) * b.
        lemma_fundamental_div_mod(a as int, b as int);
        let q = a as int / b as int;
        lemma_mod_linear(-q, b as int, a as int, d as int);
        assert((-q) * (b as int) + a as int == (a % b) as int) by (nonlinear_arith)
            requires
                a as int == q * (b as int) + (a % b) as int,
        ;
        lemma_common_divisor_divides_gcd(b, a % b, d);
    }
}

/// Exact division: if `g` divides `x`, then `x == g * (x / g)`.
pub proof fn lemma_div_exact(x: nat, g: nat)
    requires
        g > 0,
        x % g == 0,
    ensures
        x == g * (x / g),
{
    lemma_fundamental_div_mod(x as int, g as int);
}

/// A positive divisor of a positive number is no larger than it.
pub proof fn lemma_divisor_le(x: nat, g: nat)
    requires
        g > 0,
        x > 0,
        x % g == 0,
    ensures
        g <= x,
        x / g >= 1,
{
    lemma_div_exact(x, g);
    assert(x / g >= 1) by (nonlinear_arith)
        requires
            x == g * (x / g),
            x > 0,
            g > 0,
    ;
    assert(g <= x) by (nonlinear_arith)
        requires
            x == g * (x / g),
            x / g >= 1,
            g > 0,
    ;
}

/// After dividing out the gcd, the quotients are coprime.
pub proof fn lemma_gcd_quotients_coprime(a: nat, b: nat)
    requires
        b > 0,
    ensures
        gcd(a / gcd(a, b), b / gcd(a, b)) == 1,
{
    let g = gcd(a, b);
    lemma_gcd_divides(a, b);
    let a2 = a / g;
    let b2 = b / g;
    lemma_div_exact(a, g);
    lemma_div_exact(b, g);
    lemma_divisor_le(b, g);
    let h = gcd(a2, b2);
    lemma_gcd_divides(a2, b2);
    // h divides a2 and b2, so h * g divides a and b.
    lemma_div_exact(a2, h);
    lemma_div_exact(b2, h);
    assert(a == (h * g) * (a2 / h) && b == (h * g) * (b2 / h)) by (nonlinear_arith)
        requires
            a == g * a2,
            b == g * b2,
            a2 == h * (a2 / h),
            b2 == h * (b2 / h),
    ;
    assert(a % (h * g) == 0) by {
        lemma_mod_multiples_basic((a2 / h) as int, (h * g) as int);
        assert((a2 / h) * (h * g) == (h * g) * (a2 / h)) by (nonlinear_arith);
    }
    assert(b % (h * g) == 0) by {
        lemma_mod_multiples_basic((b2 / h) as int, (h * g) as int);
        assert((b2 / h) * (h * g) == (h * g) * (b2 / h)) by (nonlinear_arith);
    }
    lemma_common_divisor_divides_gcd(a, b, h * g);
    // so h * g divides g, hence h * g <= g, hence h == 1.
    lemma_divisor_le(g, h * g);
    assert(h == 1) by (nonlinear_arith)
        requires
            h * g <= g,
            h >= 1,
            g > 0,
    ;
}

/// The gcd does not depend on the order of its arguments.
pub proof fn lemma_gcd_symmetric(a: nat, b: nat)
    requires
        a > 0 || b > 0,
    ensures
        gcd(a, b) == gcd(b, a),
{
    if a == 0 {
        lemma_small_mod(0nat, b);
        assert(gcd(0nat, b) == gcd(b, 0nat));
    } else if b == 0 {
        lemma_small_mod(0nat, a);
        assert(gcd(a, 0nat) == gcd(0nat, a));
    } else {
        lemma_gcd_divides(a, b);
        lemma_gcd_divides(b, a);
        lemma_common_divisor_divides_gcd(a, b, gcd(b, a));
        lemma_common_divisor_divides_gcd(b, a, gcd(a, b));
        lemma_divisor_le(gcd(a, b), gcd(b, a));
        lemma_divisor_le(gcd(b, a), gcd(a, b));
    }
}

/// Exact division of negated values: `(-x) / g == -(x / g)` when `g`
/// divides `x`.
pub proof fn lemma_neg_div_exact(x: nat, g: nat)
    requires
        g > 0,
        x % g == 0,
    ensures
        (-(x as int)) / (g as int) == -((x as int) / (g as int)),
        (-(x as int)) % (g as int) == 0,
{
    lemma_div_exact(x, g);
    let q = (x as int) / (g as int);
    assert(-(x as int) == (-q) * (g as int) + 0) by (nonlinear_arith)
        requires
            x as int == (g as int) * q,
    ;
    lemma_fundamental_div_mod_converse(-(x as int), g as int, -q, 0);
}

/// Bezout's identity: some integer combination of `a` and `b` yields their
/// gcd.
pub proof fn lemma_bezout(a: nat, b: nat)
    ensures
        exists|x: int, y: int| #[trigger] (x * a + y * b) == gcd(a, b),
    decreases b,
{
    if b == 0 {
        assert(1int * a + 0int * b == gcd(a, b)) by (nonlinear_arith)
            requires
                gcd(a, b) == a,
        ;
    } else {
        lemma_bezout(b, a % b);
        let (x1, y1) = choose|x: int, y: int| #[trigger] (x * b + y * ((a % b) as int)) == gcd(
            b,
            a % b,
        );
        lemma_fundamental_div_mod(a as int, b as int);
        let q = a as int / b as int;
        assert(y1 * a + (x1 - y1 * q) * b == x1 * b + y1 * ((a % b) as int)) by (nonlinear_arith)
            requires
                (a % b) as int == a as int - q * (b as int),
        ;
        assert(y1 * a + (x1 - y1 * q) * b == gcd(a, b));
    }
}

/// Gauss's lemma: a number coprime to `b` that divides `b * c` divides `c`.
pub proof fn lemma_coprime_divides(a: nat, b: nat, c: nat)
    requires
        a > 0,
        gcd(a, b) == 1,
        (b * c) % a == 0,
    ensures
        c % a == 0,
{
    lemma_bezout(a, b);
    let (x, y) = choose|x: int, y: int| #[trigger] (x * a + y * b) == gcd(a, b);
    lemma_div_exact(b * c, a);
    let k = ((b * c) as int) / (a as int);
    assert(c == (x * c + y * k) * a) by (nonlinear_arith)
        requires
            x * a + y * b == 1,
            (b * c) as int == (a as int) * k,
    ;
    lemma_mod_multiples_basic(x * c + y * k, a as int);
}

/// Euclid's algorithm, executably.
pub fn gcd_u128(a: u128, b: u128) -> (g: u128)
    requires
        a > 0 || b > 0,
    ensures
        g == gcd(a as nat, b as nat),
        g > 0,
{
    let mut x = a;
    let mut y = b;
    while y != 0
        invariant
            gcd(x as nat, y as nat) == gcd(a as nat, b as nat),
            x > 0 || y > 0,
        decreases y,
    {
        let r = x % y;
        x = y;
        y = r;
    }
    proof {
        lemma_gcd_divides(a as nat, b as nat);
    }
    x
}

} // verus!
