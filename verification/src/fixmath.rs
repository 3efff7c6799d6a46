//! Fixed-point arithmetic primitives: truncating division, saturation into
//! the representable kinematic range, and integer square root.

use vstd::prelude::*;
use vstd::arithmetic::div_mod::{
    lemma_div_is_ordered, lemma_div_multiples_vanish, lemma_div_pos_is_pos,
    lemma_fundamental_div_mod, lemma_div_is_ordered_by_denominator,
};

verus! {

/// One simulation unit expressed in stored milli-units; also the denominator
/// of every per-mille coefficient (restitution, friction, elasticity).
pub const SCALE: i64 = 1000;

/// Saturation bound of every stored kinematic quantity (milli-units).
pub const SAT: i64 = 1_000_000_000_000_000_000;

/// Absolute value over `int`.
pub open spec fn abs_i(a: int) -> int {
    if a < 0 {
        -a
    } else {
        a
    }
}

/// Truncating (round-toward-zero) division, the rounding used by every
/// fixed-point operation in this crate.  Verus's own `/` on `int` is
/// Euclidean, so truncation is spelled out through absolute values.
/// Unspecified for `b == 0`; all uses guard the divisor.
pub open spec fn div_trunc(a: int, b: int) -> int {
    if (a < 0) != (b < 0) {
        -(abs_i(a) / abs_i(b))
    } else {
        abs_i(a) / abs_i(b)
    }
}

/// Clamp into the representable kinematic range `[-SAT, SAT]`.
pub open spec fn sat_spec(x: int) -> int {
    if x > SAT as int {
        SAT as int
    } else if x < -(SAT as int) {
        -(SAT as int)
    } else {
        x
    }
}

pub fn sat_i64(x: i128) -> (r: i64)
    ensures
        r == sat_spec(x as int),
{
    if x > SAT as i128 {
        SAT
    } else if x < -(SAT as i128) {
        -SAT
    } else {
        x as i64
    }
}

/// Truncating division on `i128` values, computed through unsigned division.
pub fn div_i128(a: i128, b: i128) -> (r: i128)
    requires
        b != 0,
        a != i128::MIN,
        b != i128::MIN,
    ensures
        r == div_trunc(a as int, b as int),
        abs_i(r as int) <= abs_i(a as int),
{
    proof {
        lemma_div_trunc_shrinks(a as int, b as int);
    }
    let ua: u128 = if a >= 0 {
        a as u128
    } else {
        (-a) as u128
    };
    let ub: u128 = if b >= 0 {
        b as u128
    } else {
        (-b) as u128
    };
    let q: u128 = ua / ub;
    proof {
        lemma_div_pos_is_pos(ua as int, ub as int);
        lemma_div_is_ordered_by_denominator(ua as int, 1, ub as int);
    }
    if (a < 0) != (b < 0) {
        -(q as i128)
    } else {
        q as i128
    }
}

/// Product of a large and a small factor, with the overflow argument made
/// once here instead of at every call site.
pub fn mul_i128(a: i128, b: i128) -> (r: i128)
    requires
        -1_000_000_000_000_000_000_000 <= a <= 1_000_000_000_000_000_000_000,
        -10_000_000_000_000_000 <= b <= 10_000_000_000_000_000,
    ensures
        r == a * b,
        abs_i(r as int) <= 10_000_000_000_000_000_000_000_000_000_000_000_000,
{
    proof {
        assert(-10_000_000_000_000_000_000_000_000_000_000_000_000
            <= a * b <= 10_000_000_000_000_000_000_000_000_000_000_000_000) by (nonlinear_arith)
            requires
                -1_000_000_000_000_000_000_000 <= a <= 1_000_000_000_000_000_000_000,
                -10_000_000_000_000_000 <= b <= 10_000_000_000_000_000,
        ;
    }
    a * b
}

/// Widening product of two machine words; the result always fits in `i128`.
pub fn mul_wide(a: i64, b: i64) -> (r: i128)
    ensures
        r == a as int * b as int,
{
    proof {
        assert(-0x40000000000000000000000000000000 <= a as int * b as int
            <= 0x40000000000000000000000000000000) by (nonlinear_arith)
            requires
                -0x8000000000000000 <= a as int <= 0x7fffffffffffffff,
                -0x8000000000000000 <= b as int <= 0x7fffffffffffffff,
        ;
    }
    a as i128 * b as i128
}

/// The quotient shrinks: `|a / b| <= |a|` for `b != 0`.
pub proof fn lemma_div_trunc_shrinks(a: int, b: int)
    requires
        b != 0,
    ensures
        abs_i(div_trunc(a, b)) <= abs_i(a),
        a >= 0 && b > 0 ==> 0 <= div_trunc(a, b) <= a,
{
    lemma_div_pos_is_pos(abs_i(a), abs_i(b));
    lemma_div_is_ordered_by_denominator(abs_i(a), 1, abs_i(b));
}

/// A bound on the dividend gives the same bound on the quotient:
/// `|a| <= c * b` implies `|a / b| <= c`.
pub proof fn lemma_div_trunc_bound(a: int, b: int, c: int)
    requires
        b >= 1,
        c >= 0,
        -(c * b) <= a <= c * b,
    ensures
        -c <= div_trunc(a, b) <= c,
{
    assert(c * b == b * c) by (nonlinear_arith);
    lemma_div_multiples_vanish(c, b);
    assert((b * c) / b == c);
    if a >= 0 {
        assert(div_trunc(a, b) == a / b);
        lemma_div_pos_is_pos(a, b);
        lemma_div_is_ordered(a, b * c, b);
    } else {
        assert(div_trunc(a, b) == -((-a) / b));
        lemma_div_pos_is_pos(-a, b);
        lemma_div_is_ordered(-a, b * c, b);
    }
}

/// Multiplying the quotient back recovers the dividend to within the divisor:
/// `|b * (a / b) - a| < b`, and the product never overshoots the dividend.
pub proof fn lemma_div_trunc_exact(a: int, b: int)
    requires
        b >= 1,
    ensures
        abs_i(b * div_trunc(a, b) - a) < b,
        abs_i(b * div_trunc(a, b)) <= abs_i(a),
{
    if a >= 0 {
        let q = a / b;
        lemma_fundamental_div_mod(a, b);
        lemma_div_pos_is_pos(a, b);
        assert(div_trunc(a, b) == q);
        assert(b * q == a - a % b);
        assert(b * q >= 0) by (nonlinear_arith)
            requires
                b >= 1,
                q >= 0,
        ;
    } else {
        let q = (-a) / b;
        lemma_fundamental_div_mod(-a, b);
        lemma_div_pos_is_pos(-a, b);
        assert(div_trunc(a, b) == -q);
        assert(b * q == -a - (-a) % b);
        assert(b * (-q) == -(b * q)) by (nonlinear_arith);
        assert(b * q >= 0) by (nonlinear_arith)
            requires
                b >= 1,
                q >= 0,
        ;
    }
}

/// Integer square root, defined recursively; `isqrt_spec(n)` is the greatest
/// `r` with `r * r <= n`.
pub open spec fn isqrt_spec(n: nat) -> nat
    decreases n,
{
    if n == 0 {
        0
    } else {
        let r = isqrt_spec((n - 1) as nat);
        if (r + 1) * (r + 1) <= n {
            r + 1
        } else {
            r
        }
    }
}

pub proof fn lemma_isqrt_spec(n: nat)
    ensures
        isqrt_spec(n) * isqrt_spec(n) <= n,
        (n as int) < (isqrt_spec(n) as int + 1) * (isqrt_spec(n) as int + 1),
    decreases n,
{
    if n == 0 {
        assert(isqrt_spec(n) == 0);
    } else {
        lemma_isqrt_spec((n - 1) as nat);
        let r = isqrt_spec((n - 1) as nat);
        let s = isqrt_spec(n);
        assert(r * r <= n - 1);
        assert(n - 1 < (r + 1) * (r + 1));
        if (r + 1) * (r + 1) <= n {
            assert(s == r + 1);
            assert(n < (r + 2) * (r + 2)) by (nonlinear_arith)
                requires
                    n <= (r + 1) * (r + 1),
            ;
            assert(s * s <= n);
            assert(n < (s + 1) * (s + 1));
        } else {
            assert(s == r);
            assert(s * s <= n);
            assert(n < (s + 1) * (s + 1));
        }
    }
}

/// The pair of bounds `r * r <= n < (r + 1) * (r + 1)` determines `r`.
pub proof fn lemma_isqrt_unique(n: nat, r: nat)
    requires
        r * r <= n,
        n < (r + 1) * (r + 1),
    ensures
        r == isqrt_spec(n),
{
    lemma_isqrt_spec(n);
    let s = isqrt_spec(n);
    if r < s {
        assert((r + 1) * (r + 1) <= s * s) by (nonlinear_arith)
            requires
                r + 1 <= s,
        ;
    }
    if s < r {
        assert((s + 1) * (s + 1) <= r * r) by (nonlinear_arith)
            requires
                s + 1 <= r,
        ;
    }
}

/// Integer square root by binary search.
pub fn isqrt_u128(n: u128) -> (r: u128)
    ensures
        r == isqrt_spec(n as nat),
        r * r <= n,
        n < (r + 1) * (r + 1),
{
    let mut lo: u128 = 0;
    let mut hi: u128 = if n < 0xffff_ffff_ffff_ffff {
        n
    } else {
        0xffff_ffff_ffff_ffff
    };
    proof {
        assert(n < (hi + 1) * (hi + 1)) by (nonlinear_arith)
            requires
                hi == if n < 0xffff_ffff_ffff_ffff {
                    n as int
                } else {
                    0xffff_ffff_ffff_ffff
                },
                n <= u128::MAX,
        ;
    }
    while lo < hi
        invariant
            lo <= hi,
            hi <= 0xffff_ffff_ffff_ffff,
            lo * lo <= n,
            n < (hi + 1) * (hi + 1),
        decreases hi - lo,
    {
        let mid: u128 = lo + (hi - lo + 1) / 2;
        assert(lo < mid <= hi);
        proof {
            assert(mid * mid <= u128::MAX) by (nonlinear_arith)
                requires
                    mid <= 0xffff_ffff_ffff_ffff,
            ;
        }
        if mid * mid <= n {
            lo = mid;
        } else {
            hi = mid - 1;
        }
    }
    proof {
        lemma_isqrt_unique(n as nat, lo as nat);
    }
    lo
}

} // verus!
