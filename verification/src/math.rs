use vstd::prelude::*;
use crate::pixel::clamp255;

verus! {

/// A scaled channel value brought back to `[0, 255]`: negative numerators
/// clamp to zero, the quotient clamps to 255.
pub open spec fn clampq(n: int, d: int) -> u8 {
    if n < 0 {
        0
    } else {
        clamp255(n / d)
    }
}

/// Executable form of `clampq` for the wide intermediates the color math
/// produces.
pub fn clampq_exec(n: i64, d: u64) -> (r: u8)
    requires
        0 < d,
    ensures
        r == clampq(n as int, d as int),
{
    if n < 0 {
        0
    } else {
        let q: u64 = (n as u64) / d;
        if q > 255 {
            255
        } else {
            q as u8
        }
    }
}

/// A product of two bounded factors, with its bound: the color math
/// multiplies a small scaled channel term by a configured parameter, and the
/// bound carries into the overflow reasoning of the sums around it.
pub fn mul_bounded(a: i64, b: i64, ab: i64, bb: i64) -> (r: i64)
    requires
        -ab <= a <= ab,
        -bb <= b <= bb,
        0 <= ab,
        0 <= bb,
        ab * bb <= i64::MAX,
    ensures
        r == a as int * b as int,
        -(ab as int * bb as int) <= r <= ab as int * bb as int,
{
    proof {
        assert(-((ab as int) * (bb as int)) <= (a as int) * (b as int) <= (ab as int) * (
        bb as int)) by (nonlinear_arith)
            requires
                -ab <= a <= ab,
                -bb <= b <= bb,
                0 <= ab,
                0 <= bb,
        ;
    }
    a * b
}

/// Squaring keeps order on nonnegative numbers.
pub proof fn lemma_sq_le(a: int, b: int)
    requires
        0 <= a <= b,
    ensures
        a * a <= b * b,
{
    vstd::arithmetic::mul::lemma_mul_upper_bound(a, b, a, b);
}

/// Division truncated toward zero, the narrowing the per-pixel math uses for
/// signed intermediates.
pub open spec fn div_trunc(n: int, d: int) -> int {
    if n >= 0 {
        n / d
    } else {
        -((-n) / d)
    }
}

/// Executable truncating division on a signed numerator.
pub fn div_trunc_exec(n: i64, d: u64) -> (r: i64)
    requires
        0 < d <= i64::MAX,
        i64::MIN < n,
    ensures
        r == div_trunc(n as int, d as int),
        n >= 0 ==> 0 <= r <= n,
        n < 0 ==> n <= r <= 0,
{
    if n >= 0 {
        proof {
            vstd::arithmetic::div_mod::lemma_div_nonincreasing(n as int, d as int);
            vstd::arithmetic::div_mod::lemma_div_pos_is_pos(n as int, d as int);
        }
        ((n as u64) / d) as i64
    } else {
        proof {
            vstd::arithmetic::div_mod::lemma_div_nonincreasing(-n as int, d as int);
            vstd::arithmetic::div_mod::lemma_div_pos_is_pos(-n as int, d as int);
        }
        -((((-n) as u64) / d) as i64)
    }
}

/// `r` is the floor of the square root of `n`.
pub open spec fn is_sqrt_floor(n: int, r: int) -> bool {
    0 <= r && r * r <= n && n < (r + 1) * (r + 1)
}

/// The floor of the square root, as a value: the unique `r` with
/// `r * r <= n < (r + 1) * (r + 1)`.
pub open spec fn sqrt_floor(n: int) -> int {
    choose|r: int| is_sqrt_floor(n, r)
}

/// Any witness of `is_sqrt_floor` is the `sqrt_floor`.
pub proof fn lemma_sqrt_floor_unique(n: int, r: int)
    requires
        is_sqrt_floor(n, r),
    ensures
        sqrt_floor(n) == r,
{
    assert(is_sqrt_floor(n, sqrt_floor(n)));
    let c = sqrt_floor(n);
    if c < r {
        lemma_sq_le(c + 1, r);
        assert(false);
    }
    if r < c {
        lemma_sq_le(r + 1, c);
        assert(false);
    }
}

/// Square roots keep order.
pub proof fn lemma_sqrt_floor_le(s: int, t: int, rs: int, rt: int)
    requires
        is_sqrt_floor(s, rs),
        is_sqrt_floor(t, rt),
        s <= t,
    ensures
        rs <= rt,
{
    if rs > rt {
        lemma_sq_le(rt + 1, rs);
        assert(false);
    }
}

/// The square of a small signed value, widened so it cannot overflow.
pub fn sq_u128(a: i64) -> (r: u128)
    requires
        -0x2_0000_0000i64 <= a <= 0x2_0000_0000i64,
    ensures
        r == a as int * a as int,
        r <= 0x4_0000_0000_0000_0000u128,
{
    let m: u64 = if a < 0 {
        (-a) as u64
    } else {
        a as u64
    };
    proof {
        assert((m as int) * (m as int) == (a as int) * (a as int) && (m as int) * (m as int)
            <= 0x4_0000_0000_0000_0000) by (nonlinear_arith)
            requires
                m == (if a < 0 {
                    -(a as int)
                } else {
                    a as int
                }),
                -0x2_0000_0000 <= a as int <= 0x2_0000_0000,
        ;
    }
    (m as u128) * (m as u128)
}

/// Floor of the square root, by bisection.
pub fn isqrt(n: u128) -> (r: u64)
    requires
        n < 0x1000000000000000000000000u128,
    ensures
        (r as int) * (r as int) <= n < (r as int + 1) * (r as int + 1),
        r < 0x1000000000000u64,
{
    let mut lo: u128 = 0;
    let mut hi: u128 = 0x1000000000000u128;
    while lo + 1 < hi
        invariant
            lo < hi <= 0x1000000000000u128,
            (lo as int) * (lo as int) <= n,
            n < (hi as int) * (hi as int),
        decreases hi - lo,
    {
        let mid: u128 = lo + (hi - lo) / 2;
        proof {
            lemma_sq_le(mid as int, 0x1000000000000int);
        }
        let sq: u128 = mid * mid;
        if sq <= n {
            lo = mid;
        } else {
            hi = mid;
        }
    }
    lo as u64
}

} // verus!
