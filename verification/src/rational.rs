//! Exact rational numbers: a 64-bit signed numerator and a 64-bit unsigned
//! denominator, always stored in lowest terms with a positive denominator
//! and the sign carried entirely in the numerator.

use vstd::prelude::*;
use vstd::arithmetic::div_mod::lemma_fundamental_div_mod_converse;

use crate::error::CalcError;
use crate::gcd::{
    gcd, gcd_u128, lemma_divisor_le, lemma_div_exact, lemma_gcd_divides, lemma_gcd_one_left,
    lemma_gcd_quotients_coprime, lemma_neg_div_exact, nat_abs,
};

verus! {

#[derive(Clone, Copy, Debug, PartialEq, Eq, Structural)]
pub struct Rational {
    pub num: i64,
    pub den: u64,
}

/// Well-formedness: positive denominator, fraction in lowest terms.
pub open spec fn rat_wf(r: Rational) -> bool {
    r.den > 0 && gcd(nat_abs(r.num as int), r.den as nat) == 1
}

/// The numerator of `n / d` in lowest terms (`d > 0`).
pub open spec fn reduced_num(n: int, d: int) -> int
    recommends
        d > 0,
{
    n / (gcd(nat_abs(n), d as nat) as int)
}

/// The denominator of `n / d` in lowest terms (`d > 0`).
pub open spec fn reduced_den(n: int, d: int) -> int
    recommends
        d > 0,
{
    d / (gcd(nat_abs(n), d as nat) as int)
}

/// Whether a numerator/denominator pair fits the 64-bit representation.
pub open spec fn rat_fits(n: int, d: int) -> bool {
    i64::MIN <= n <= i64::MAX && d <= u64::MAX
}

/// The unique `Rational` outcome of bringing `n / d` (`d > 0`) into lowest
/// terms: the reduced fraction if it fits the representation, and
/// `Err(Inexact)` otherwise.
pub open spec fn spec_rat_make(n: int, d: int) -> Result<Rational, CalcError>
    recommends
        d > 0,
{
    let rn = reduced_num(n, d);
    let rd = reduced_den(n, d);
    if rat_fits(rn, rd) {
        Ok(Rational { num: rn as i64, den: rd as u64 })
    } else {
        Err(CalcError::Inexact)
    }
}

/// Everything the tower needs to know about reduction to lowest terms.
pub proof fn lemma_reduce_props(n: int, d: int)
    requires
        d > 0,
    ensures
        reduced_den(n, d) > 0,
        reduced_den(n, d) <= d,
        gcd(nat_abs(reduced_num(n, d)), reduced_den(n, d) as nat) == 1,
        reduced_num(n, d) * d == n * reduced_den(n, d),
        nat_abs(reduced_num(n, d)) <= nat_abs(n),
        n > 0 ==> reduced_num(n, d) > 0,
        n == 0 ==> reduced_num(n, d) == 0 && reduced_den(n, d) == 1,
        n < 0 ==> reduced_num(n, d) < 0,
        nat_abs(reduced_num(n, d)) == nat_abs(n) / gcd(nat_abs(n), d as nat),
{
    let m = nat_abs(n);
    let g = gcd(m, d as nat);
    lemma_gcd_divides(m, d as nat);
    if n == 0 {
        vstd::arithmetic::div_mod::lemma_small_mod(0nat, d as nat);
        assert(gcd(0nat, d as nat) == gcd(d as nat, 0nat));
        assert(g == d);
        lemma_fundamental_div_mod_converse(0, d, 0, 0);
        lemma_fundamental_div_mod_converse(d, d, 1, 0);
    }
    let rd = reduced_den(n, d);
    let rn = reduced_num(n, d);
    lemma_divisor_le(d as nat, g);
    lemma_div_exact(d as nat, g);
    assert(rd <= d) by (nonlinear_arith)
        requires
            d == g * rd,
            g >= 1,
            rd >= 1,
    ;
    lemma_gcd_quotients_coprime(m, d as nat);
    if n >= 0 {
        // rn == m / g exactly.
        lemma_div_exact(m, g);
        if m > 0 {
            lemma_divisor_le(m, g);
        }
        assert(rn * d == n * rd) by (nonlinear_arith)
            requires
                n == g * rn,
                d == g * rd,
                g > 0,
        ;
        assert(rn <= m) by (nonlinear_arith)
            requires
                m == g * rn,
                g >= 1,
                rn >= 0,
        ;
        if n > 0 {
            assert(rn >= 1);
        }
    } else {
        lemma_neg_div_exact(m, g);
        lemma_div_exact(m, g);
        let mq = (m as int) / (g as int);
        assert(rn == -mq);
        lemma_divisor_le(m, g);
        assert(mq >= 1);
        assert(nat_abs(rn) == mq);
        assert(rn * d == n * rd) by (nonlinear_arith)
            requires
                rn == -mq,
                m == g * mq,
                n == -(m as int),
                d == g * rd,
                g > 0,
        ;
        assert(mq <= m) by (nonlinear_arith)
            requires
                m == g * mq,
                g >= 1,
                mq >= 0,
        ;
    }
}

/// Reducing an already reduced fraction changes nothing.
pub proof fn lemma_reduce_idempotent(n: int, d: int)
    requires
        d > 0,
        gcd(nat_abs(n), d as nat) == 1,
    ensures
        reduced_num(n, d) == n,
        reduced_den(n, d) == d,
{
    lemma_fundamental_div_mod_converse(n, 1, n, 0);
    lemma_fundamental_div_mod_converse(d, 1, d, 0);
}

/// What `spec_rat_make` produces is exact: a successful result is a
/// well-formed fraction with the same value as `n / d`, and it succeeds
/// exactly when the reduced fraction fits the representation.
pub proof fn lemma_rat_make_exact(n: int, d: int)
    requires
        d > 0,
    ensures
        spec_rat_make(n, d) matches Ok(q) ==> rat_wf(q) && q.num * d == n * q.den,
        spec_rat_make(n, d) is Ok <==> rat_fits(reduced_num(n, d), reduced_den(n, d)),
{
    lemma_reduce_props(n, d);
}

/// The representation is canonical: two well-formed rationals with the same
/// value (by cross-multiplication) are the same pair of fields.
pub proof fn lemma_reduced_unique(p: Rational, q: Rational)
    requires
        rat_wf(p),
        rat_wf(q),
        p.num * q.den == q.num * p.den,
    ensures
        p == q,
{
    let n1 = p.num as int;
    let d1 = p.den as int;
    let n2 = q.num as int;
    let d2 = q.den as int;
    // The magnitudes cross-multiply equally.
    assert(nat_abs(n1) * d2 == nat_abs(n2) * d1) by (nonlinear_arith)
        requires
            n1 * d2 == n2 * d1,
            d1 > 0,
            d2 > 0,
            nat_abs(n1) == (if n1 < 0 { -n1 } else { n1 }),
            nat_abs(n2) == (if n2 < 0 { -n2 } else { n2 }),
    ;
    // Each denominator divides the other.
    crate::gcd::lemma_gcd_symmetric(nat_abs(n1), p.den as nat);
    crate::gcd::lemma_gcd_symmetric(nat_abs(n2), q.den as nat);
    assert((nat_abs(n1) * (d2 as nat)) % (d1 as nat) == 0) by {
        vstd::arithmetic::div_mod::lemma_mod_multiples_basic(nat_abs(n2) as int, d1);
    }
    crate::gcd::lemma_coprime_divides(p.den as nat, nat_abs(n1), q.den as nat);
    assert((nat_abs(n2) * (d1 as nat)) % (d2 as nat) == 0) by {
        vstd::arithmetic::div_mod::lemma_mod_multiples_basic(nat_abs(n1) as int, d2);
    }
    crate::gcd::lemma_coprime_divides(q.den as nat, nat_abs(n2), p.den as nat);
    crate::gcd::lemma_divisor_le(q.den as nat, p.den as nat);
    crate::gcd::lemma_divisor_le(p.den as nat, q.den as nat);
    assert(d1 == d2);
    assert(n1 == n2) by (nonlinear_arith)
        requires
            n1 * d2 == n2 * d1,
            d1 == d2,
            d1 > 0,
    ;
}

/// `spec_rat_make` is characterized by its value: any well-formed fraction
/// equal in value to `n / d` is exactly what reducing `n / d` produces.
pub proof fn lemma_rat_make_canonical(n: int, d: int, q: Rational)
    requires
        d > 0,
        rat_wf(q),
        q.num * d == n * q.den,
    ensures
        spec_rat_make(n, d) == Ok::<Rational, CalcError>(q),
{
    lemma_reduce_props(n, d);
    let rn = reduced_num(n, d);
    let rd = reduced_den(n, d);
    // The reduced fraction and q have the same value, so they are equal;
    // in particular the reduced fraction fits the 64-bit fields.
    assert(rn * q.den == q.num * rd) by (nonlinear_arith)
        requires
            rn * d == n * rd,
            q.num * d == n * q.den,
            d > 0,
            rd > 0,
            q.den > 0,
    ;
    if rat_fits(rn, rd) {
        let r = Rational { num: rn as i64, den: rd as u64 };
        lemma_reduced_unique(r, q);
    } else {
        // A reduced fraction out of 64-bit range cannot equal q: apply
        // uniqueness over unbounded pairs via the same divisibility steps.
        assert(nat_abs(rn) * q.den == nat_abs(q.num as int) * rd) by (nonlinear_arith)
            requires
                rn * q.den == q.num * rd,
                rd > 0,
                q.den > 0,
                nat_abs(rn) == (if rn < 0 { -rn } else { rn }),
                nat_abs(q.num as int) == (if q.num < 0 { -(q.num as int) } else { q.num as int }),
        ;
        crate::gcd::lemma_gcd_symmetric(nat_abs(rn), rd as nat);
        crate::gcd::lemma_gcd_symmetric(nat_abs(q.num as int), q.den as nat);
        assert((nat_abs(rn) * (q.den as nat)) % (rd as nat) == 0) by {
            vstd::arithmetic::div_mod::lemma_mod_multiples_basic(nat_abs(q.num as int) as int, rd);
        }
        crate::gcd::lemma_coprime_divides(rd as nat, nat_abs(rn), q.den as nat);
        assert((nat_abs(q.num as int) * (rd as nat)) % (q.den as nat) == 0) by {
            vstd::arithmetic::div_mod::lemma_mod_multiples_basic(nat_abs(rn) as int, q.den as int);
        }
        crate::gcd::lemma_coprime_divides(q.den as nat, nat_abs(q.num as int), rd as nat);
        crate::gcd::lemma_divisor_le(q.den as nat, rd as nat);
        crate::gcd::lemma_divisor_le(rd as nat, q.den as nat);
        assert(rd == q.den);
        assert(rn == q.num) by (nonlinear_arith)
            requires
                rn * q.den == q.num * rd,
                rd == q.den,
                rd > 0,
        ;
        assert(false);
    }
}

/// Re-reducing a well-formed `Rational` is a no-op: building one from the
/// fields of a reduced fraction gives exactly that fraction back.
pub proof fn lemma_new_idempotent(r: Rational)
    requires
        rat_wf(r),
    ensures
        spec_rat_make(r.num as int, r.den as int) == Ok::<Rational, CalcError>(r),
{
    lemma_reduce_idempotent(r.num as int, r.den as int);
}

/// The magnitude of an `i128`, exactly.
fn abs_u128(n: i128) -> (m: u128)
    ensures
        m == nat_abs(n as int),
{
    if n >= 0 {
        n as u128
    } else {
        ((-(n + 1)) as u128) + 1
    }
}

/// Reduce `sign * mag / den` to lowest terms and pack it into a `Rational`,
/// or report `Inexact` when the reduced fraction does not fit 64 bits.
pub(crate) fn rat_normalize(neg: bool, mag: u128, den: u128) -> (r: Result<Rational, CalcError>)
    requires
        den > 0,
    ensures
        r == spec_rat_make(if neg { -(mag as int) } else { mag as int }, den as int),
        r matches Ok(q) ==> rat_wf(q),
{
    let ghost n: int = if neg { -(mag as int) } else { mag as int };
    proof {
        assert(nat_abs(n) == mag);
        lemma_reduce_props(n, den as int);
    }
    let g = gcd_u128(mag, den);
    let m2 = mag / g;
    let d2 = den / g;
    proof {
        lemma_gcd_divides(mag as nat, den as nat);
        assert(d2 == reduced_den(n, den as int));
        if neg {
            lemma_neg_div_exact(mag as nat, g as nat);
            assert(reduced_num(n, den as int) == -(m2 as int));
        } else {
            assert(reduced_num(n, den as int) == m2 as int);
        }
    }
    if d2 > u64::MAX as u128 {
        return Err(CalcError::Inexact);
    }
    if neg {
        if m2 > 0x8000_0000_0000_0000u128 {
            return Err(CalcError::Inexact);
        }
        let num: i64 = if m2 == 0x8000_0000_0000_0000u128 {
            i64::MIN
        } else {
            -(m2 as i64)
        };
        Ok(Rational { num, den: d2 as u64 })
    } else {
        if m2 > i64::MAX as u128 {
            return Err(CalcError::Inexact);
        }
        Ok(Rational { num: m2 as i64, den: d2 as u64 })
    }
}

/// As `rat_normalize`, for a signed 128-bit numerator.
pub(crate) fn rat_make_i128(n: i128, d: u128) -> (r: Result<Rational, CalcError>)
    requires
        d > 0,
    ensures
        r == spec_rat_make(n as int, d as int),
        r matches Ok(q) ==> rat_wf(q),
{
    let neg = n < 0;
    let mag = abs_u128(n);
    rat_normalize(neg, mag, d)
}

/// The sign of `x`: `-1`, `0` or `1`.
pub open spec fn spec_sign(x: int) -> int {
    if x < 0 {
        -1
    } else if x == 0 {
        0
    } else {
        1
    }
}

/// Negation: exact except on the one magnitude `i64` cannot negate.
pub open spec fn spec_rat_neg(a: Rational) -> Result<Rational, CalcError> {
    if a.num == i64::MIN {
        Err(CalcError::Inexact)
    } else {
        Ok(Rational { num: (-a.num) as i64, den: a.den })
    }
}

pub open spec fn spec_rat_add(a: Rational, b: Rational) -> Result<Rational, CalcError> {
    spec_rat_make(a.num * b.den + b.num * a.den, a.den * b.den)
}

pub open spec fn spec_rat_sub(a: Rational, b: Rational) -> Result<Rational, CalcError> {
    spec_rat_make(a.num * b.den - b.num * a.den, a.den * b.den)
}

pub open spec fn spec_rat_mul(a: Rational, b: Rational) -> Result<Rational, CalcError> {
    spec_rat_make(a.num * b.num, a.den * b.den)
}

pub open spec fn spec_rat_div(a: Rational, b: Rational) -> Result<Rational, CalcError> {
    if b.num == 0 {
        Err(CalcError::DivByZero)
    } else {
        spec_rat_make(spec_sign(b.num as int) * a.num * b.den, a.den * nat_abs(b.num as int))
    }
}

/// The exact reciprocal: zero has none, and a denominator beyond
/// `i64::MAX` cannot become a numerator.
pub open spec fn spec_rat_invert(a: Rational) -> Result<Rational, CalcError> {
    if a.num == 0 {
        Err(CalcError::DivByZero)
    } else if a.den > i64::MAX {
        Err(CalcError::Inexact)
    } else {
        Ok(
            Rational {
                num: (spec_sign(a.num as int) * a.den) as i64,
                den: nat_abs(a.num as int) as u64,
            },
        )
    }
}

/// Exact exponentiation: numerator and denominator are raised separately
/// and must each stay within their 64-bit range; a negative exponent then
/// inverts the fraction, which needs a nonzero numerator and a denominator
/// power no larger than `i64::MAX`.
pub open spec fn spec_rat_checked_pow(a: Rational, e: int) -> Option<Rational> {
    let pn = vstd::arithmetic::power::pow(a.num as int, nat_abs(e));
    let pd = vstd::arithmetic::power::pow(a.den as int, nat_abs(e));
    if !(i64::MIN <= pn <= i64::MAX) || pd > u64::MAX {
        None
    } else if e >= 0 {
        match spec_rat_make(pn, pd) {
            Ok(q) => Some(q),
            Err(_) => None,
        }
    } else if pn == 0 || pd > i64::MAX {
        None
    } else {
        match spec_rat_make(spec_sign(pn) * pd, nat_abs(pn) as int) {
            Ok(q) => Some(q),
            Err(_) => None,
        }
    }
}

/// `a * b` stays within `i128` when `a` is an `i64` and `b` a `u64`.
proof fn lemma_i64_u64_prod_bounds(a: int, b: int)
    requires
        -0x8000_0000_0000_0000 <= a <= 0x7fff_ffff_ffff_ffff,
        0 <= b <= 0xffff_ffff_ffff_ffff,
    ensures
        -0x8000_0000_0000_0000_0000_0000_0000_0000 < a * b
            < 0x8000_0000_0000_0000_0000_0000_0000_0000,
        nat_abs(a * b) <= 0x8000_0000_0000_0000 * 0xffff_ffff_ffff_ffff,
{
    assert(a * b <= 0x7fff_ffff_ffff_ffff * b && -(0x8000_0000_0000_0000 * b) <= a * b)
        by (nonlinear_arith)
        requires
            -0x8000_0000_0000_0000 <= a <= 0x7fff_ffff_ffff_ffff,
            0 <= b,
    ;
    assert(0x7fff_ffff_ffff_ffff * b <= 0x7fff_ffff_ffff_ffff * 0xffff_ffff_ffff_ffff
        && 0x8000_0000_0000_0000 * b <= 0x8000_0000_0000_0000 * 0xffff_ffff_ffff_ffff)
        by (nonlinear_arith)
        requires
            0 <= b <= 0xffff_ffff_ffff_ffff,
    ;
}

/// The product of two `i64` values stays within `i128`.
proof fn lemma_i64_i64_prod_bounds(a: int, b: int)
    requires
        -0x8000_0000_0000_0000 <= a <= 0x7fff_ffff_ffff_ffff,
        -0x8000_0000_0000_0000 <= b <= 0x7fff_ffff_ffff_ffff,
    ensures
        -0x8000_0000_0000_0000_0000_0000_0000_0000 < a * b
            < 0x8000_0000_0000_0000_0000_0000_0000_0000,
{
    assert(a * b <= 0x8000_0000_0000_0000 * 0x8000_0000_0000_0000
        && -(0x8000_0000_0000_0000 * 0x8000_0000_0000_0000) <= a * b) by (nonlinear_arith)
        requires
            -0x8000_0000_0000_0000 <= a <= 0x8000_0000_0000_0000,
            -0x8000_0000_0000_0000 <= b <= 0x8000_0000_0000_0000,
    ;
}

/// The product of two `u64` denominators stays within `u128` and is
/// positive when both are.
proof fn lemma_den_prod_bounds(a: int, b: int)
    requires
        0 < a <= 0xffff_ffff_ffff_ffff,
        0 < b <= 0xffff_ffff_ffff_ffff,
    ensures
        0 < a * b < 0x1_0000_0000_0000_0000_0000_0000_0000_0000,
{
    assert(0 < a * b && a * b <= 0xffff_ffff_ffff_ffff * 0xffff_ffff_ffff_ffff)
        by (nonlinear_arith)
        requires
            0 < a <= 0xffff_ffff_ffff_ffff,
            0 < b <= 0xffff_ffff_ffff_ffff,
    ;
}

impl Rational {
    /// Construct `num / den` in lowest terms. The reduced form of a 64-bit
    /// fraction always fits, so this cannot fail; a zero denominator is
    /// excluded up front.
    pub fn new(num: i64, den: u64) -> (r: Rational)
        requires
            den != 0,
        ensures
            rat_wf(r),
            Ok::<Rational, CalcError>(r) == spec_rat_make(num as int, den as int),
            r.num as int * den as int == num as int * r.den as int,
    {
        proof {
            lemma_reduce_props(num as int, den as int);
        }
        let neg = num < 0;
        let mag: u128 = abs_u128(num as i128);
        match rat_normalize(neg, mag, den as u128) {
            Ok(r) => r,
            Err(_) => {
                proof {
                    assert(false);
                }
                Rational { num: 0, den: 1 }
            },
        }
    }

    /// The exact reciprocal of an integer; zero has none.
    pub fn inverse(value: i64) -> (r: Result<Rational, CalcError>)
        ensures
            value == 0 <==> r == Err::<Rational, CalcError>(CalcError::DivByZero),
            value != 0 ==> (r matches Ok(q) && rat_wf(q) && q.num == spec_sign(value as int)
                && q.den == nat_abs(value as int)),
    {
        if value == 0 {
            return Err(CalcError::DivByZero);
        }
        let den: u64 = abs_u128(value as i128) as u64;
        let num: i64 = if value < 0 {
            -1
        } else {
            1
        };
        proof {
            lemma_gcd_one_left(den as nat);
        }
        Ok(Rational { num, den })
    }

    /// The exact reciprocal of a rational; zero has none, and a denominator
    /// beyond `i64::MAX` cannot become a numerator.
    pub fn invert(&self) -> (r: Result<Rational, CalcError>)
        requires
            rat_wf(*self),
        ensures
            r == spec_rat_invert(*self),
            self.num == 0 <==> r == Err::<Rational, CalcError>(CalcError::DivByZero),
            r matches Ok(q) ==> rat_wf(q),
    {
        if self.num == 0 {
            return Err(CalcError::DivByZero);
        }
        if self.den > i64::MAX as u64 {
            return Err(CalcError::Inexact);
        }
        let num: i64 = if self.num < 0 {
            -(self.den as i64)
        } else {
            self.den as i64
        };
        let den: u64 = abs_u128(self.num as i128) as u64;
        proof {
            crate::gcd::lemma_gcd_symmetric(nat_abs(self.num as int), self.den as nat);
        }
        Ok(Rational { num, den })
    }

    /// Exact addition; `Inexact` when the reduced sum does not fit.
    pub fn add(self, rhs: Rational) -> (r: Result<Rational, CalcError>)
        requires
            rat_wf(self),
            rat_wf(rhs),
        ensures
            r == spec_rat_add(self, rhs),
            r matches Ok(q) ==> rat_wf(q),
    {
        proof {
            lemma_i64_u64_prod_bounds(self.num as int, rhs.den as int);
            lemma_i64_u64_prod_bounds(rhs.num as int, self.den as int);
            lemma_den_prod_bounds(self.den as int, rhs.den as int);
        }
        let n1: i128 = (self.num as i128) * (rhs.den as i128);
        let n2: i128 = (rhs.num as i128) * (self.den as i128);
        let d: u128 = (self.den as u128) * (rhs.den as u128);
        if (n1 >= 0) == (n2 >= 0) {
            let neg = n1 < 0;
            let m1 = abs_u128(n1);
            let m2 = abs_u128(n2);
            let mag = m1 + m2;
            proof {
                assert((if neg {
                    -(mag as int)
                } else {
                    mag as int
                }) == n1 + n2);
            }
            rat_normalize(neg, mag, d)
        } else {
            rat_make_i128(n1 + n2, d)
        }
    }

    /// Exact subtraction; `Inexact` when the reduced difference does not fit.
    pub fn sub(self, rhs: Rational) -> (r: Result<Rational, CalcError>)
        requires
            rat_wf(self),
            rat_wf(rhs),
        ensures
            r == spec_rat_sub(self, rhs),
            r matches Ok(q) ==> rat_wf(q),
    {
        proof {
            lemma_i64_u64_prod_bounds(self.num as int, rhs.den as int);
            lemma_i64_u64_prod_bounds(rhs.num as int, self.den as int);
            lemma_den_prod_bounds(self.den as int, rhs.den as int);
        }
        let n1: i128 = (self.num as i128) * (rhs.den as i128);
        let n2: i128 = (rhs.num as i128) * (self.den as i128);
        let d: u128 = (self.den as u128) * (rhs.den as u128);
        if (n1 >= 0) == (n2 <= 0) {
            // n1 and -n2 agree in sign: add magnitudes.
            let neg = n1 < 0 || (n1 == 0 && n2 > 0);
            let m1 = abs_u128(n1);
            let m2 = abs_u128(n2);
            let mag = m1 + m2;
            proof {
                assert((if neg {
                    -(mag as int)
                } else {
                    mag as int
                }) == n1 - n2);
            }
            rat_normalize(neg, mag, d)
        } else {
            rat_make_i128(n1 - n2, d)
        }
    }

    /// Exact multiplication; `Inexact` when the reduced product does not fit.
    pub fn mul(self, rhs: Rational) -> (r: Result<Rational, CalcError>)
        requires
            rat_wf(self),
            rat_wf(rhs),
        ensures
            r == spec_rat_mul(self, rhs),
            r matches Ok(q) ==> rat_wf(q),
    {
        proof {
            lemma_i64_i64_prod_bounds(self.num as int, rhs.num as int);
            lemma_den_prod_bounds(self.den as int, rhs.den as int);
        }
        let n: i128 = (self.num as i128) * (rhs.num as i128);
        let d: u128 = (self.den as u128) * (rhs.den as u128);
        proof {
            assert(self.num as int * (rhs.num as int) == n as int) by (nonlinear_arith)
                requires
                    n as int == self.num as int * rhs.num as int,
            ;
        }
        rat_make_i128(n, d)
    }

    /// Exact division; division by a zero rational fails with `DivByZero`.
    pub fn div(self, rhs: Rational) -> (r: Result<Rational, CalcError>)
        requires
            rat_wf(self),
            rat_wf(rhs),
        ensures
            r == spec_rat_div(self, rhs),
            r matches Ok(q) ==> rat_wf(q),
            r == Err::<Rational, CalcError>(CalcError::DivByZero) <==> rhs.num == 0,
    {
        if rhs.num == 0 {
            return Err(CalcError::DivByZero);
        }
        proof {
            lemma_i64_u64_prod_bounds(self.num as int, rhs.den as int);
            lemma_den_prod_bounds(self.den as int, nat_abs(rhs.num as int) as int);
        }
        let n0: i128 = (self.num as i128) * (rhs.den as i128);
        let n: i128 = if rhs.num < 0 {
            -n0
        } else {
            n0
        };
        let d: u128 = (self.den as u128) * abs_u128(rhs.num as i128);
        proof {
            assert(n as int == spec_sign(rhs.num as int) * self.num * rhs.den)
                by (nonlinear_arith)
                requires
                    n0 as int == self.num as int * rhs.den as int,
                    n as int == (if rhs.num < 0 { -(n0 as int) } else { n0 as int }),
                    rhs.num != 0,
                    spec_sign(rhs.num as int) == (if rhs.num < 0 { -1int } else { 1int }),
            ;
            assert(d as int == self.den as int * nat_abs(rhs.num as int));
        }
        let res = rat_make_i128(n, d);
        proof {
            assert(!(res == Err::<Rational, CalcError>(CalcError::DivByZero)));
        }
        res
    }

    /// Exact exponentiation by an `i32`, raising numerator and denominator
    /// separately; `None` when either power leaves the 64-bit range, and
    /// for a negative exponent also when the base is zero or the resulting
    /// numerator magnitude cannot be carried.
    pub fn checked_pow(&self, value: i32) -> (r: Option<Rational>)
        requires
            rat_wf(*self),
        ensures
            r == spec_rat_checked_pow(*self, value as int),
            r matches Some(q) ==> rat_wf(q),
    {
        let e: u32 = if value >= 0 {
            value as u32
        } else {
            (-(value as i64)) as u32
        };
        proof {
            assert(e as nat == nat_abs(value as int));
        }
        let pn_opt = crate::powers::pow_i64(self.num, e);
        let pd_opt = crate::powers::pow_u64(self.den, e);
        proof {
            vstd::arithmetic::power::lemma_pow_positive(self.den as int, e as nat);
        }
        match (pn_opt, pd_opt) {
            (Some(pn), Some(pd)) => {
                if value >= 0 {
                    proof {
                        lemma_reduce_props(pn as int, pd as int);
                    }
                    match rat_make_i128(pn as i128, pd as u128) {
                        Ok(q) => Some(q),
                        Err(_) => {
                            proof {
                                assert(false);
                            }
                            None
                        },
                    }
                } else {
                    if pn == 0 {
                        return None;
                    }
                    if pd > i64::MAX as u64 {
                        return None;
                    }
                    proof {
                        lemma_reduce_props(
                            spec_sign(pn as int) * (pd as int),
                            nat_abs(pn as int) as int,
                        );
                    }
                    let neg = pn < 0;
                    let den_mag: u128 = abs_u128(pn as i128);
                    match rat_normalize(neg, pd as u128, den_mag) {
                        Ok(q) => {
                            proof {
                                assert(spec_sign(pn as int) * (pd as int) == (if neg {
                                    -(pd as int)
                                } else {
                                    pd as int
                                }));
                            }
                            Some(q)
                        },
                        Err(_) => {
                            proof {
                                assert(false);
                            }
                            None
                        },
                    }
                }
            },
            _ => None,
        }
    }

    /// Exact exponentiation on inputs where it cannot fail.
    pub fn pow(&self, value: i32) -> (r: Rational)
        requires
            rat_wf(*self),
            spec_rat_checked_pow(*self, value as int) is Some,
        ensures
            Some(r) == spec_rat_checked_pow(*self, value as int),
            rat_wf(r),
    {
        match self.checked_pow(value) {
            Some(r) => r,
            None => {
                proof {
                    assert(false);
                }
                Rational { num: 0, den: 1 }
            },
        }
    }

    /// Negation, exact except for the numerator `i64::MIN`.
    pub fn neg(self) -> (r: Result<Rational, CalcError>)
        requires
            rat_wf(self),
        ensures
            r == spec_rat_neg(self),
            r matches Ok(q) ==> rat_wf(q),
    {
        if self.num == i64::MIN {
            Err(CalcError::Inexact)
        } else {
            Ok(Rational { num: -self.num, den: self.den })
        }
    }
}

} // verus!
