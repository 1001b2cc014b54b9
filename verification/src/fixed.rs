//! Fixed-point arithmetic helpers.
//!
//! Lengths are measured in micro-millimetres, velocities in
//! micro-millimetres per second and accelerations in micro-millimetres per
//! second squared: one unit is a millionth of the printed quantity.

use vstd::prelude::*;

verus! {

/// Scale of the fixed-point representation: units per whole quantity.
pub const MICRO: i64 = 1_000_000;

/// Mathematical greatest common divisor, used to keep ratios reduced.
pub open spec fn spec_gcd(a: nat, b: nat) -> nat
    decreases b,
{
    if b == 0 {
        a
    } else {
        spec_gcd(b, a % b)
    }
}

/// The gcd of two numbers divides both of them.
pub proof fn lemma_gcd_divides(a: nat, b: nat)
    ensures
        b > 0 || a > 0 ==> spec_gcd(a, b) > 0,
        a % spec_gcd(a, b) == 0 || (a == 0 && b == 0),
        b % spec_gcd(a, b) == 0 || (a == 0 && b == 0),
    decreases b,
{
    if b == 0 {
    } else {
        lemma_gcd_divides(b, a % b);
        let g = spec_gcd(b, (a % b) as nat);
        assert(g == spec_gcd(a, b));
        if g > 0 {
            vstd::arithmetic::div_mod::lemma_fundamental_div_mod(a as int, b as int);
            let r = a % b;
            assert(a == b * (a / b) + r);
            assert(b % g == 0 && r % g == 0);
            vstd::arithmetic::div_mod::lemma_fundamental_div_mod(b as int, g as int);
            vstd::arithmetic::div_mod::lemma_fundamental_div_mod(r as int, g as int);
            let qb = b as int / g as int;
            let qr = r as int / g as int;
            assert(a == g * qb * (a / b) + g * qr) by {
                assert(b == g * qb + 0);
                assert(r == g * qr + 0);
            };
            assert(a as int == g as int * (qb * (a / b) + qr)) by {
                assert(g as int * qb * (a / b) == g as int * (qb * (a / b)))
                    by (nonlinear_arith);
                assert(g as int * (qb * (a / b)) + g as int * qr == g as int * (qb * (a / b)
                    + qr)) by (nonlinear_arith);
            };
            assert(a as int % g as int == 0) by {
                vstd::arithmetic::div_mod::lemma_mod_multiples_basic(
                    qb * (a / b) + qr,
                    g as int,
                );
            };
        }
    }
}

/// Mathematical floor of the square root.
pub open spec fn sqrt_floor(n: nat) -> nat
    decreases n,
{
    if n == 0 {
        0
    } else {
        let r = sqrt_floor((n - 1) as nat);
        if n < (r + 1) * (r + 1) {
            r
        } else {
            (r + 1) as nat
        }
    }
}

/// `sqrt_floor` satisfies the defining inequalities of the floor square
/// root.
pub proof fn lemma_sqrt_floor(n: nat)
    ensures
        sqrt_floor(n) * sqrt_floor(n) <= n,
        n < (sqrt_floor(n) + 1) * (sqrt_floor(n) + 1),
    decreases n,
{
    if n == 0 {
        assert(sqrt_floor(0) == 0);
        assert(sqrt_floor(n) * sqrt_floor(n) <= n);
        assert(n < (sqrt_floor(n) + 1) * (sqrt_floor(n) + 1)) by (nonlinear_arith)
            requires
                n == 0,
                sqrt_floor(n) == 0,
        ;
    } else {
        lemma_sqrt_floor((n - 1) as nat);
        let r = sqrt_floor((n - 1) as nat);
        assert(sqrt_floor(n) == if n < (r + 1) * (r + 1) {
            r
        } else {
            (r + 1) as nat
        });
        if n < (r + 1) * (r + 1) {
            assert(r * r <= n - 1 <= n);
            assert(sqrt_floor(n) == r);
            assert(sqrt_floor(n) * sqrt_floor(n) <= n);
            assert(n < (sqrt_floor(n) + 1) * (sqrt_floor(n) + 1));
        } else {
            assert(n == (r + 1) * (r + 1)) by {
                assert(n - 1 < (r + 1) * (r + 1));
            };
            let s = (r + 1) as nat;
            assert(s * s <= n && n < (s + 1) * (s + 1)) by (nonlinear_arith)
                requires
                    n == s * s,
                    s >= 0,
            ;
            assert(sqrt_floor(n) == s);
            assert(sqrt_floor(n) * sqrt_floor(n) <= n);
            assert(n < (sqrt_floor(n) + 1) * (sqrt_floor(n) + 1));
        }
    }
}

/// The floor square root is unique, so any witness equals `sqrt_floor`.
pub proof fn lemma_sqrt_floor_unique(n: nat, r: nat)
    requires
        r * r <= n,
        n < (r + 1) * (r + 1),
    ensures
        sqrt_floor(n) == r,
{
    lemma_sqrt_floor(n);
    let q = sqrt_floor(n);
    if q < r {
        assert((q + 1) * (q + 1) <= r * r) by (nonlinear_arith)
            requires
                q + 1 <= r,
        ;
    } else if r < q {
        assert((r + 1) * (r + 1) <= q * q) by (nonlinear_arith)
            requires
                r + 1 <= q,
        ;
    }
}

/// Integer square root: the largest `r` with `r * r <= n`.
pub fn isqrt(n: u128) -> (r: u128)
    ensures
        r * r <= n,
        n < (r + 1) * (r + 1),
        r == sqrt_floor(n as nat),
{
    let r = isqrt_search(n);
    proof {
        lemma_sqrt_floor_unique(n as nat, r as nat);
    }
    r
}

fn isqrt_search(n: u128) -> (r: u128)
    ensures
        r * r <= n,
        n < (r + 1) * (r + 1),
{
    if n == 0 {
        return 0;
    }
    let mut lo: u128 = 0;
    let mut hi: u128 = 0x1_0000_0000_0000_0000u128;
    assert(hi * hi > n);
    while lo + 1 < hi
        invariant
            lo < hi,
            hi <= 0x1_0000_0000_0000_0000u128,
            lo * lo <= n,
            hi * hi > n,
        decreases hi - lo,
    {
        let mid: u128 = lo + (hi - lo) / 2;
        assert(mid * mid < 0x1_0000_0000_0000_0000u128 * 0x1_0000_0000_0000_0000u128)
            by (nonlinear_arith)
            requires
                mid < 0x1_0000_0000_0000_0000u128,
        ;
        if mid * mid <= n {
            lo = mid;
        } else {
            hi = mid;
        }
    }
    lo
}

} // verus!
