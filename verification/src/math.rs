//! Integer arithmetic for the fixed-point physics: integer square root,
//! Euclidean remainder, rounding division, and clamping.

use vstd::prelude::*;

verus! {

/// Floor of the square root of `n`, defined by counting up.
pub open spec fn isqrt_spec(n: nat) -> nat
    decreases n,
{
    if n == 0 {
        0
    } else {
        let r = isqrt_spec((n - 1) as nat);
        if (r + 1) * (r + 1) <= n {
            r + 1
        } else {
            r
        }
    }
}

/// `isqrt_spec(n)` is the unique `r` with `r * r <= n < (r + 1) * (r + 1)`.
pub proof fn lemma_isqrt_bounds(n: nat)
    ensures
        (isqrt_spec(n) as int) * (isqrt_spec(n) as int) <= n as int,
        (n as int) < ((isqrt_spec(n) as int) + 1) * ((isqrt_spec(n) as int) + 1),
    decreases n,
{
    if n == 0 {
        assert(isqrt_spec(0) == 0);
    } else {
        let m = (n - 1) as nat;
        lemma_isqrt_bounds(m);
        let r = isqrt_spec(m) as int;
        assert(r * r <= m as int);
        assert((m as int) < (r + 1) * (r + 1));
        if (r + 1) * (r + 1) <= n as int {
            assert(isqrt_spec(n) == r + 1);
            assert(n as int <= (r + 1) * (r + 1));
            assert((r + 1) * (r + 1) < (r + 1 + 1) * (r + 1 + 1)) by (nonlinear_arith)
                requires
                    r >= 0,
            ;
        } else {
            assert(isqrt_spec(n) == r);
        }
    }
}

/// Any `r` within the square-root bounds equals `isqrt_spec(n)`.
pub proof fn lemma_isqrt_unique(n: nat, r: nat)
    requires
        (r as int) * (r as int) <= n as int,
        (n as int) < ((r as int) + 1) * ((r as int) + 1),
    ensures
        r == isqrt_spec(n),
{
    let s = isqrt_spec(n) as int;
    lemma_isqrt_bounds(n);
    assert(r as int == s) by (nonlinear_arith)
        requires
            (r as int) * (r as int) <= n as int,
            (n as int) < ((r as int) + 1) * ((r as int) + 1),
            s * s <= n as int,
            (n as int) < (s + 1) * (s + 1),
            r as int >= 0,
            s >= 0,
    ;
}

/// Integer square root by bisection over the 64-bit candidates.
pub fn isqrt(n: u128) -> (r: u64)
    ensures
        r == isqrt_spec(n as nat),
        r * r <= n < (r + 1) * (r + 1),
{
    let mut lo: u128 = 0;
    let mut hi: u128 = 1u128 << 64;
    proof {
        assert((1u128 << 64) == 0x1_0000_0000_0000_0000u128) by (bit_vector);
        assert(hi * hi > n) by (nonlinear_arith)
            requires
                hi == 0x1_0000_0000_0000_0000u128,
                n <= u128::MAX,
        ;
    }
    while lo + 1 < hi
        invariant
            lo < hi <= 0x1_0000_0000_0000_0000u128,
            lo * lo <= n,
            hi * hi > n,
        decreases hi - lo,
    {
        let mid = lo + (hi - lo) / 2;
        proof {
            assert(mid * mid <= u128::MAX) by (nonlinear_arith)
                requires
                    mid < 0x1_0000_0000_0000_0000u128,
            ;
        }
        if mid * mid <= n {
            lo = mid;
        } else {
            hi = mid;
        }
    }
    proof {
        assert(n < (lo + 1) * (lo + 1));
        lemma_isqrt_unique(n as nat, lo as nat);
        assert(lo * lo <= n < 0x1_0000_0000_0000_0000u128 * 0x1_0000_0000_0000_0000u128);
        assert(lo < 0x1_0000_0000_0000_0000u128) by (nonlinear_arith)
            requires
                lo * lo < 0x1_0000_0000_0000_0000u128 * 0x1_0000_0000_0000_0000u128,
                lo >= 0,
        ;
    }
    lo as u64
}

/// Euclidean remainder: the representative of `p` modulo `m` in `[0, m)`.
pub fn wrap_mod(p: i64, m: i64) -> (r: i64)
    requires
        1 <= m,
    ensures
        r == p as int % m as int,
        0 <= r < m,
{
    if p >= 0 {
        let r = (p as u64) % (m as u64);
        proof {
            vstd::arithmetic::div_mod::lemma_mod_bound(p as int, m as int);
        }
        r as i64
    } else {
        let a: u128 = (-(p as i128)) as u128;
        let q: u64 = (a % (m as u128)) as u64;
        proof {
            let aa = a as int;
            let mm = m as int;
            assert(aa == -(p as int));
            vstd::arithmetic::div_mod::lemma_mod_bound(aa, mm);
            vstd::arithmetic::div_mod::lemma_fundamental_div_mod(aa, mm);
            assert(q == aa % mm);
            let d = aa / mm;
            assert(aa == mm * d + q);
            // -a is (-(a / m) - 1) * m + (m - q), unless q is 0
            if q == 0 {
                assert(p as int == (-d) * mm + 0) by (nonlinear_arith)
                    requires
                        p as int == -aa,
                        aa == mm * d + 0,
                ;
                vstd::arithmetic::div_mod::lemma_fundamental_div_mod_converse(p as int, mm, -d, 0);
            } else {
                assert(p as int == (-d - 1) * mm + (mm - q)) by (nonlinear_arith)
                    requires
                        p as int == -aa,
                        aa == mm * d + q,
                ;
                vstd::arithmetic::div_mod::lemma_fundamental_div_mod_converse(
                    p as int,
                    mm,
                    -d - 1,
                    mm - q,
                );
            }
        }
        if q == 0 {
            0
        } else {
            m - q as i64
        }
    }
}

/// Division by a positive divisor, rounded to the nearest integer with
/// halves away from zero (matching a round-then-truncate of the exact
/// quotient).
pub open spec fn round_div_spec(a: int, b: int) -> int
    recommends
        b >= 1,
{
    if a >= 0 {
        (2 * a + b) / (2 * b)
    } else {
        -((2 * -a + b) / (2 * b))
    }
}

/// Executable rounding division.
pub fn round_div(a: i64, b: i64) -> (r: i64)
    requires
        1 <= b <= 0x10_0000_0000,
        -0x1000_0000_0000_0000 <= a <= 0x1000_0000_0000_0000,
    ensures
        r == round_div_spec(a as int, b as int),
        iabs(r as int) <= iabs(a as int),
{
    if a >= 0 {
        let q = (2 * a + b) / (2 * b);
        proof {
            let aa = a as int;
            let bb = b as int;
            vstd::arithmetic::div_mod::lemma_div_pos_is_pos(2 * aa + bb, 2 * bb);
            if aa == 0 {
                vstd::arithmetic::div_mod::lemma_basic_div(bb, 2 * bb);
            } else {
                assert(2 * aa + bb < (2 * bb) * (aa + 1)) by (nonlinear_arith)
                    requires
                        aa >= 1,
                        bb >= 1,
                ;
                vstd::arithmetic::div_mod::lemma_multiply_divide_lt(2 * aa + bb, 2 * bb, aa + 1);
            }
        }
        q
    } else {
        let q = (2 * -a + b) / (2 * b);
        proof {
            let aa = -a as int;
            let bb = b as int;
            vstd::arithmetic::div_mod::lemma_div_pos_is_pos(2 * aa + bb, 2 * bb);
            assert(2 * aa + bb < (2 * bb) * (aa + 1)) by (nonlinear_arith)
                requires
                    aa >= 1,
                    bb >= 1,
            ;
            vstd::arithmetic::div_mod::lemma_multiply_divide_lt(2 * aa + bb, 2 * bb, aa + 1);
        }
        -q
    }
}

/// Magnitude of `x` as a mathematical integer.
pub open spec fn iabs(x: int) -> int {
    if x < 0 {
        -x
    } else {
        x
    }
}

/// Sign of `x`: `-1`, `0` or `1`.
pub open spec fn isgn(x: int) -> int {
    if x > 0 {
        1
    } else if x < 0 {
        -1
    } else {
        0
    }
}

/// Division by a positive divisor, rounded toward zero (the semantics of
/// machine division on signed integers).
pub open spec fn div_trunc(a: int, b: int) -> int
    recommends
        b >= 1,
{
    if a >= 0 {
        a / b
    } else {
        -((-a) / b)
    }
}

/// Truncating division never grows the magnitude.
pub proof fn lemma_div_trunc_bound(a: int, b: int)
    requires
        b >= 1,
    ensures
        iabs(div_trunc(a, b)) <= iabs(a),
        a >= 0 ==> div_trunc(a, b) >= 0,
        a <= 0 ==> div_trunc(a, b) <= 0,
{
    if a >= 0 {
        vstd::arithmetic::div_mod::lemma_div_pos_is_pos(a, b);
        vstd::arithmetic::div_mod::lemma_div_nonincreasing(a, b);
    } else {
        vstd::arithmetic::div_mod::lemma_div_pos_is_pos(-a, b);
        vstd::arithmetic::div_mod::lemma_div_nonincreasing(-a, b);
    }
}

/// If the numerator's magnitude is at most `b * c`, the truncated quotient's
/// magnitude is at most `c`.
pub proof fn lemma_div_trunc_le(a: int, b: int, c: int)
    requires
        b >= 1,
        0 <= c,
        iabs(a) <= b * c,
    ensures
        iabs(div_trunc(a, b)) <= c,
{
    if a >= 0 {
        vstd::arithmetic::div_mod::lemma_div_pos_is_pos(a, b);
        vstd::arithmetic::div_mod::lemma_multiply_divide_le(a, b, c);
    } else {
        vstd::arithmetic::div_mod::lemma_div_pos_is_pos(-a, b);
        vstd::arithmetic::div_mod::lemma_multiply_divide_le(-a, b, c);
    }
}

/// Bound on the magnitude of a product from bounds on its factors.
pub proof fn lemma_mul_bound(a: int, b: int, ma: int, mb: int)
    requires
        iabs(a) <= ma,
        iabs(b) <= mb,
    ensures
        iabs(a * b) <= ma * mb,
{
    assert(iabs(a * b) <= ma * mb) by (nonlinear_arith)
        requires
            iabs(a) <= ma,
            iabs(b) <= mb,
    ;
}

/// Executable truncating division (machine semantics, positive divisor).
pub fn div_trunc_i128(a: i128, b: i128) -> (r: i128)
    requires
        1 <= b,
        i128::MIN < a,
    ensures
        r == div_trunc(a as int, b as int),
        iabs(r as int) <= iabs(a as int),
{
    proof {
        lemma_div_trunc_bound(a as int, b as int);
    }
    if a >= 0 {
        a / b
    } else {
        -((-a) / b)
    }
}

/// The magnitude of a truncated quotient is the floored quotient of the
/// magnitudes.
pub proof fn lemma_div_trunc_abs(a: int, b: int)
    requires
        b >= 1,
    ensures
        iabs(div_trunc(a, b)) == iabs(a) / b,
{
    if a >= 0 {
        vstd::arithmetic::div_mod::lemma_div_pos_is_pos(a, b);
    } else {
        vstd::arithmetic::div_mod::lemma_div_pos_is_pos(-a, b);
    }
}

/// The root of a sum of two squares is at least each component's magnitude.
pub proof fn lemma_isqrt_ge_component(x: int, y: int)
    ensures
        isqrt_spec((x * x + y * y) as nat) >= iabs(x),
        isqrt_spec((x * x + y * y) as nat) >= iabs(y),
{
    let n = x * x + y * y;
    assert(n >= x * x >= 0 && n >= y * y >= 0) by (nonlinear_arith)
        requires
            n == x * x + y * y,
    ;
    lemma_isqrt_bounds(n as nat);
    let r = isqrt_spec(n as nat) as int;
    assert(r >= iabs(x) && r >= iabs(y)) by (nonlinear_arith)
        requires
            r >= 0,
            n < (r + 1) * (r + 1),
            n >= x * x,
            n >= y * y,
    ;
}

/// Clamp `v` into `[lo, hi]`.
pub open spec fn clamp_spec(v: int, lo: int, hi: int) -> int
    recommends
        lo <= hi,
{
    if v < lo {
        lo
    } else if v > hi {
        hi
    } else {
        v
    }
}

/// Executable clamp on `i64`.
pub fn clamp_i64(v: i64, lo: i64, hi: i64) -> (r: i64)
    requires
        lo <= hi,
    ensures
        r == clamp_spec(v as int, lo as int, hi as int),
{
    if v < lo {
        lo
    } else if v > hi {
        hi
    } else {
        v
    }
}

/// Clamp a wide intermediate into `[lo, hi]` and narrow it.
pub fn clamp_i128_to_i64(v: i128, lo: i64, hi: i64) -> (r: i64)
    requires
        lo <= hi,
    ensures
        r == clamp_spec(v as int, lo as int, hi as int),
{
    if v < lo as i128 {
        lo
    } else if v > hi as i128 {
        hi
    } else {
        v as i64
    }
}

} // verus!
