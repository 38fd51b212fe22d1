//! Exact integer exponentiation with overflow detection, verified against
//! vstd's `pow` specification.

use vstd::prelude::*;
use vstd::arithmetic::power::{lemma0_pow, lemma1_pow, lemma_pow_adds, lemma_pow_positive, pow};

use crate::gcd::nat_abs;

verus! {

/// A power relates to the power of the absolute base through the parity of
/// the exponent.
pub proof fn lemma_pow_sign(b: int, e: nat)
    ensures
        e % 2 == 1 && b < 0 ==> pow(b, e) == -pow(nat_abs(b) as int, e),
        e % 2 == 0 || b >= 0 ==> pow(b, e) == pow(nat_abs(b) as int, e),
    decreases e,
{
    reveal(pow);
    if e == 0 {
    } else {
        lemma_pow_sign(b, (e - 1) as nat);
        let p1 = pow(b, (e - 1) as nat);
        let a = nat_abs(b) as int;
        let q1 = pow(a, (e - 1) as nat);
        assert(pow(b, e) == b * p1);
        assert(pow(a, e) == a * q1);
        if b >= 0 {
        } else {
            if e % 2 == 1 {
                // e - 1 is even: p1 == q1, so b * p1 == -(a * q1).
                assert((e - 1) as nat % 2 == 0);
                assert(b * p1 == -(a * q1)) by (nonlinear_arith)
                    requires
                        p1 == q1,
                        b == -a,
                ;
            } else {
                assert((e - 1) as nat % 2 == 1);
                assert(b * p1 == a * q1) by (nonlinear_arith)
                    requires
                        p1 == -q1,
                        b == -a,
                ;
            }
        }
    }
}

/// `base ^ e` over `u64`, or `None` exactly when the result exceeds
/// `u64::MAX`.
pub fn pow_u64(base: u64, e: u32) -> (r: Option<u64>)
    ensures
        pow(base as int, e as nat) <= u64::MAX ==> r == Some(pow(base as int, e as nat) as u64),
        pow(base as int, e as nat) > u64::MAX ==> r is None,
{
    proof {
        reveal(pow);
    }
    if base == 0 {
        if e == 0 {
            return Some(1);
        }
        proof {
            lemma0_pow(e as nat);
        }
        return Some(0);
    }
    if base == 1 {
        proof {
            lemma1_pow(e as nat);
        }
        return Some(1);
    }
    let mut acc: u64 = 1;
    let mut i: u32 = 0;
    while i < e
        invariant
            base >= 2,
            i <= e,
            acc == pow(base as int, i as nat),
        decreases e - i,
    {
        match acc.checked_mul(base) {
            Some(next) => {
                proof {
                    reveal(pow);
                    assert(pow(base as int, (i + 1) as nat) == base * pow(base as int, i as nat));
                }
                acc = next;
                i = i + 1;
            },
            None => {
                proof {
                    reveal(pow);
                    let bi = base as int;
                    assert(pow(bi, (i + 1) as nat) == bi * pow(bi, i as nat));
                    lemma_pow_adds(bi, (i + 1) as nat, (e - i - 1) as nat);
                    lemma_pow_positive(bi, (e - i - 1) as nat);
                    lemma_pow_positive(bi, (i + 1) as nat);
                    assert(pow(bi, e as nat) >= pow(bi, (i + 1) as nat)) by (nonlinear_arith)
                        requires
                            pow(bi, e as nat) == pow(bi, (i + 1) as nat) * pow(
                                bi,
                                (e - i - 1) as nat,
                            ),
                            pow(bi, (i + 1) as nat) > 0,
                            pow(bi, (e - i - 1) as nat) >= 1,
                    ;
                    assert(bi * pow(bi, i as nat) == acc * base);
                }
                return None;
            },
        }
    }
    Some(acc)
}

/// The magnitude of an `i64`, exactly.
pub(crate) fn abs_u64(n: i64) -> (m: u64)
    ensures
        m == nat_abs(n as int),
{
    if n >= 0 {
        n as u64
    } else {
        ((-(n + 1)) as u64) + 1
    }
}

/// `base ^ e` over `i64`, or `None` exactly when the result leaves the
/// `i64` range.
pub fn pow_i64(base: i64, e: u32) -> (r: Option<i64>)
    ensures
        i64::MIN <= pow(base as int, e as nat) <= i64::MAX ==> r == Some(
            pow(base as int, e as nat) as i64,
        ),
        !(i64::MIN <= pow(base as int, e as nat) <= i64::MAX) ==> r is None,
{
    let neg = base < 0 && e % 2 == 1;
    let mag: u64 = abs_u64(base);
    proof {
        lemma_pow_sign(base as int, e as nat);
    }
    proof {
        if mag > 0 {
            lemma_pow_positive(mag as int, e as nat);
        } else {
            reveal(pow);
            if e > 0 {
                lemma0_pow(e as nat);
            }
        }
    }
    match pow_u64(mag, e) {
        None => None,
        Some(m) => {
            proof {
                assert(m == pow(mag as int, e as nat));
            }
            if neg {
                if m <= 0x7fff_ffff_ffff_ffffu64 {
                    Some(-(m as i64))
                } else if m == 0x8000_0000_0000_0000u64 {
                    Some(i64::MIN)
                } else {
                    None
                }
            } else {
                if m <= 0x7fff_ffff_ffff_ffffu64 {
                    Some(m as i64)
                } else {
                    None
                }
            }
        },
    }
}

} // verus!
