//! Integer arithmetic primitives for the fixed-point engine: division that
//! truncates toward zero (mirroring Rust's `/` on signed integers) and an
//! integer square root, each with an exact specification.

use vstd::prelude::*;

verus! {

/// Division truncated toward zero, as a mathematical function.
/// (`/` on `int` rounds toward negative infinity; the engine's executable
/// arithmetic truncates, so contracts are stated with this function.)
pub open spec fn div_trunc(a: int, b: int) -> int {
    if a >= 0 {
        a / b
    } else {
        -((-a) / b)
    }
}

/// Floor of the square root, defined by counting up.
pub open spec fn sqrt_floor(n: nat) -> nat
    decreases n,
{
    if n == 0 {
        0
    } else {
        let r = sqrt_floor((n - 1) as nat);
        if (r + 1) * (r + 1) <= n {
            r + 1
        } else {
            r
        }
    }
}

/// Ceiling of the square root.
pub open spec fn sqrt_ceil(n: nat) -> nat {
    let r = sqrt_floor(n);
    if r * r == n {
        r
    } else {
        r + 1
    }
}

/// `sqrt_floor` is what its name says: its square is at most `n`, and the
/// next square is beyond `n`.
pub proof fn lemma_sqrt_floor(n: nat)
    ensures
        sqrt_floor(n) * sqrt_floor(n) <= n,
        n < (sqrt_floor(n) + 1) * (sqrt_floor(n) + 1),
    decreases n,
{
    if n == 0 {
        let s = sqrt_floor(n);
        assert(s == 0);
        assert(s * s <= n && n < (s + 1) * (s + 1)) by (nonlinear_arith)
            requires
                n == 0,
                s == 0,
        ;
    } else {
        lemma_sqrt_floor((n - 1) as nat);
        let r = sqrt_floor((n - 1) as nat);
        if (r + 1) * (r + 1) <= n {
            assert(sqrt_floor(n) == r + 1);
            assert(n < (r + 1 + 1) * (r + 1 + 1)) by (nonlinear_arith)
                requires
                    n - 1 < (r + 1) * (r + 1),
            ;
            assert(sqrt_floor(n) * sqrt_floor(n) <= n);
            assert(n < (sqrt_floor(n) + 1) * (sqrt_floor(n) + 1));
        } else {
            assert(sqrt_floor(n) == r);
            assert(sqrt_floor(n) * sqrt_floor(n) <= n);
            assert(n < (sqrt_floor(n) + 1) * (sqrt_floor(n) + 1));
        }
    }
}

/// Any `r` with `r*r <= n < (r+1)*(r+1)` is `sqrt_floor(n)`.
pub proof fn lemma_sqrt_floor_unique(n: nat, r: nat)
    requires
        r * r <= n,
        n < (r + 1) * (r + 1),
    ensures
        r == sqrt_floor(n),
{
    lemma_sqrt_floor(n);
    let s = sqrt_floor(n);
    assert(r == s) by (nonlinear_arith)
        requires
            r * r <= n,
            n < (r + 1) * (r + 1),
            s * s <= n,
            n < (s + 1) * (s + 1),
    ;
}

/// `n` never exceeds the square of `sqrt_ceil(n)`.
pub proof fn lemma_sqrt_ceil(n: nat)
    ensures
        n <= sqrt_ceil(n) * sqrt_ceil(n),
        sqrt_ceil(n) <= sqrt_floor(n) + 1,
        n > 0 ==> sqrt_ceil(n) > 0,
{
    lemma_sqrt_floor(n);
}

/// Euclidean division by a positive divisor never grows a nonnegative
/// numerator.
pub proof fn lemma_div_le_self(a: int, b: int) by (nonlinear_arith)
    requires
        a >= 0,
        b >= 1,
    ensures
        0 <= a / b <= a,
{
}

/// Executable square root, rounded down.
pub fn isqrt(n: u128) -> (r: u128)
    requires
        n < 0x4000_0000_0000_0000_0000_0000_0000_0000u128,
    ensures
        r == sqrt_floor(n as nat),
{
    let mut lo: u128 = 0;
    let mut hi: u128 = 0x8000_0000_0000_0000u128;
    assert(hi * hi > n) by (nonlinear_arith)
        requires
            hi == 0x8000_0000_0000_0000u128,
            n < 0x4000_0000_0000_0000_0000_0000_0000_0000u128,
    ;
    while lo + 1 < hi
        invariant
            lo < hi,
            hi <= 0x8000_0000_0000_0000u128,
            lo * lo <= n,
            n < hi * hi,
        decreases hi - lo,
    {
        let mid = lo + (hi - lo) / 2;
        assert(mid * mid <= 0x8000_0000_0000_0000u128 * 0x8000_0000_0000_0000u128)
            by (nonlinear_arith)
            requires
                mid <= 0x8000_0000_0000_0000u128,
        ;
        if mid * mid <= n {
            lo = mid;
        } else {
            hi = mid;
        }
    }
    proof {
        lemma_sqrt_floor_unique(n as nat, lo as nat);
    }
    lo
}

/// Executable square root, rounded up.
pub fn isqrt_up(n: u128) -> (r: u128)
    requires
        n < 0x4000_0000_0000_0000_0000_0000_0000_0000u128,
    ensures
        r == sqrt_ceil(n as nat),
{
    let r = isqrt(n);
    proof {
        lemma_sqrt_floor(n as nat);
        assert(r < 0x8000_0000_0000_0000u128) by (nonlinear_arith)
            requires
                r * r <= n,
                n < 0x4000_0000_0000_0000_0000_0000_0000_0000u128,
        ;
    }
    if r * r == n {
        r
    } else {
        r + 1
    }
}

/// Executable division truncated toward zero.
pub fn div_to_zero(a: i64, b: i64) -> (r: i64)
    requires
        a > i64::MIN,
        b > 0,
    ensures
        r == div_trunc(a as int, b as int),
{
    if a >= 0 {
        let q = (a as u64) / (b as u64);
        proof {
            lemma_div_le_self(a as int, b as int);
        }
        q as i64
    } else {
        let q = ((-a) as u64) / (b as u64);
        proof {
            lemma_div_le_self(-a as int, b as int);
        }
        -(q as i64)
    }
}

/// Magnitude, as a mathematical function.
pub open spec fn abs_i(a: int) -> int {
    if a >= 0 {
        a
    } else {
        -a
    }
}

/// A product is bounded by the product of the factors' bounds.
pub proof fn lemma_abs_mul_le(a: int, b: int, ma: int, mb: int) by (nonlinear_arith)
    requires
        -ma <= a <= ma,
        -mb <= b <= mb,
        0 <= ma,
        0 <= mb,
    ensures
        -(ma * mb) <= a * b <= ma * mb,
{
}

/// Bounds on a square.
pub proof fn lemma_square_bounds(a: int, ma: int) by (nonlinear_arith)
    requires
        -ma <= a <= ma,
        0 <= ma,
    ensures
        0 <= a * a <= ma * ma,
{
}

/// A number is bounded by anything whose square dominates its own.
pub proof fn lemma_abs_le_of_sq_le(a: int, c: int) by (nonlinear_arith)
    requires
        a * a <= c * c,
        0 <= c,
    ensures
        -c <= a <= c,
{
}

/// The product of a truncating quotient and its divisor lies between zero
/// and the numerator.
pub proof fn lemma_div_trunc_times_divisor(a: int, b: int)
    requires
        b > 0,
    ensures
        a >= 0 ==> 0 <= div_trunc(a, b) * b <= a,
        a < 0 ==> a <= div_trunc(a, b) * b <= 0,
{
    if a >= 0 {
        vstd::arithmetic::div_mod::lemma_fundamental_div_mod(a, b);
        vstd::arithmetic::div_mod::lemma_mod_bound(a, b);
        lemma_div_le_self(a, b);
        assert(0 <= (a / b) * b <= a) by (nonlinear_arith)
            requires
                b > 0,
                a / b >= 0,
                a == b * (a / b) + a % b,
                0 <= a % b,
        ;
    } else {
        vstd::arithmetic::div_mod::lemma_fundamental_div_mod(-a, b);
        vstd::arithmetic::div_mod::lemma_mod_bound(-a, b);
        lemma_div_le_self(-a, b);
        assert(0 <= ((-a) / b) * b <= -a) by (nonlinear_arith)
            requires
                b > 0,
                (-a) / b >= 0,
                -a == b * ((-a) / b) + (-a) % b,
                0 <= (-a) % b,
        ;
        assert(div_trunc(a, b) * b == -(((-a) / b) * b)) by (nonlinear_arith)
            requires
                div_trunc(a, b) == -((-a) / b),
        ;
    }
}

/// Dividing by at least one never grows the magnitude.
pub proof fn lemma_div_trunc_shrinks(a: int, b: int)
    requires
        b >= 1,
    ensures
        -abs_i(a) <= div_trunc(a, b) <= abs_i(a),
{
    if a >= 0 {
        lemma_div_le_self(a, b);
    } else {
        lemma_div_le_self(-a, b);
    }
}

/// Rescaling a vector by `m / c` with truncating division keeps its squared
/// length within `m * m`, provided its own squared length was within `c * c`.
pub proof fn lemma_rescaled_len_sq(vx: int, vz: int, m: int, c: int)
    requires
        c > 0,
        m >= 0,
        vx * vx + vz * vz <= c * c,
    ensures
        div_trunc(vx * m, c) * div_trunc(vx * m, c) + div_trunc(vz * m, c) * div_trunc(vz * m, c)
            <= m * m,
{
    let rx = div_trunc(vx * m, c);
    let rz = div_trunc(vz * m, c);
    lemma_div_trunc_times_divisor(vx * m, c);
    lemma_div_trunc_times_divisor(vz * m, c);
    assert((rx * c) * (rx * c) <= (vx * m) * (vx * m)) by (nonlinear_arith)
        requires
            (vx * m >= 0 ==> 0 <= rx * c <= vx * m),
            (vx * m < 0 ==> vx * m <= rx * c <= 0),
    ;
    assert((rz * c) * (rz * c) <= (vz * m) * (vz * m)) by (nonlinear_arith)
        requires
            (vz * m >= 0 ==> 0 <= rz * c <= vz * m),
            (vz * m < 0 ==> vz * m <= rz * c <= 0),
    ;
    assert((rx * rx) * (c * c) == (rx * c) * (rx * c)) by (nonlinear_arith);
    assert((rz * rz) * (c * c) == (rz * c) * (rz * c)) by (nonlinear_arith);
    assert((vx * vx) * (m * m) == (vx * m) * (vx * m)) by (nonlinear_arith);
    assert((vz * vz) * (m * m) == (vz * m) * (vz * m)) by (nonlinear_arith);
    assert((rx * rx + rz * rz) * (c * c) <= (vx * vx + vz * vz) * (m * m)) by (nonlinear_arith)
        requires
            (rx * rx) * (c * c) <= (vx * vx) * (m * m),
            (rz * rz) * (c * c) <= (vz * vz) * (m * m),
    ;
    assert((vx * vx + vz * vz) * (m * m) <= (c * c) * (m * m)) by (nonlinear_arith)
        requires
            vx * vx + vz * vz <= c * c,
            m >= 0,
    ;
    assert(rx * rx + rz * rz <= m * m) by (nonlinear_arith)
        requires
            c > 0,
            (rx * rx + rz * rz) * (c * c) <= (c * c) * (m * m),
    ;
}

/// Truncating division never grows the magnitude of a bound on the numerator:
/// if `|a| <= b * m`, then `|div_trunc(a, b)| <= m`.
pub proof fn lemma_div_trunc_bound(a: int, b: int, m: int)
    requires
        b > 0,
        m >= 0,
        -(b * m) <= a <= b * m,
    ensures
        -m <= div_trunc(a, b) <= m,
{
    if a >= 0 {
        assert(a / b <= m) by (nonlinear_arith)
            requires
                b > 0,
                m >= 0,
                a <= b * m,
                a >= 0,
        ;
        assert(a / b >= 0) by (nonlinear_arith)
            requires
                b > 0,
                a >= 0,
        ;
    } else {
        assert((-a) / b <= m) by (nonlinear_arith)
            requires
                b > 0,
                m >= 0,
                -a <= b * m,
                -a >= 0,
        ;
        assert((-a) / b >= 0) by (nonlinear_arith)
            requires
                b > 0,
                -a >= 0,
        ;
    }
}

} // verus!
