//! Decimal fixed-point arithmetic.
//!
//! Every physical quantity in this crate is a whole number of 10⁻¹² units
//! held in an `i128`; `SCALE` is the number of such steps in one whole unit.
//! Products and quotients round toward negative infinity, so each operation
//! is stated exactly with the mathematical floor division of `int`.
use vstd::arithmetic::div_mod::{
    lemma_div_is_ordered, lemma_div_multiples_vanish, lemma_fundamental_div_mod,
    lemma_fundamental_div_mod_converse,
};
use vstd::prelude::*;

verus! {

/// Fixed-point steps in one whole unit (resolution 10⁻¹²).
pub const SCALE: i128 = 1_000_000_000_000;

/// The fixed-point product of two raw values: `a · b / SCALE`, rounded down.
#[verifier::opaque]
pub open spec fn fixed_mul(a: int, b: int) -> int {
    (a * b) / (SCALE as int)
}

/// The fixed-point quotient of two raw values: `a · SCALE / b`, rounded down.
#[verifier::opaque]
pub open spec fn fixed_div(a: int, b: int) -> int {
    (a * SCALE) / b
}

/// `r` is the non-negative square root of `n`, rounded down.
pub open spec fn is_floor_sqrt(n: int, r: int) -> bool {
    0 <= r && r * r <= n && n < (r + 1) * (r + 1)
}

/// `r` is the non-negative cube root of `n`, rounded down.
pub open spec fn is_floor_cbrt(n: int, r: int) -> bool {
    0 <= r && r * r * r <= n && n < (r + 1) * (r + 1) * (r + 1)
}

/// The largest `r >= 0` with `r * r <= n`.
pub open spec fn floor_sqrt(n: int) -> int {
    choose|r: int| #[trigger] is_floor_sqrt(n, r)
}

/// The largest `r >= 0` with `r * r * r <= n`.
pub open spec fn floor_cbrt(n: int) -> int {
    choose|r: int| #[trigger] is_floor_cbrt(n, r)
}

/// Division by a positive divisor, rounded toward negative infinity.
pub fn floor_div(n: i128, d: i128) -> (r: i128)
    requires
        d > 0,
    ensures
        r == n / d,
{
    if n >= 0 {
        n / d
    } else {
        let m: i128 = -(n + 1);
        let q: i128 = m / d;
        proof {
            let s = m % d;
            lemma_fundamental_div_mod(m as int, d as int);
            assert(m == d * q + s);
            assert(0 <= s < d);
            assert(n == (-q - 1) * d + (d - s - 1)) by (nonlinear_arith)
                requires
                    m == d * q + s,
                    n == -m - 1,
            ;
            lemma_fundamental_div_mod_converse(n as int, d as int, -q - 1, d - s - 1);
        }
        -q - 1
    }
}

/// Fixed-point product, rounded down.
pub fn mul_fixed(a: i128, b: i128) -> (r: i128)
    requires
        i128::MIN < a * b <= i128::MAX,
    ensures
        r == fixed_mul(a as int, b as int),
{
    proof {
        reveal(fixed_mul);
    }
    floor_div(a * b, SCALE)
}

/// Fixed-point quotient, rounded down.
pub fn div_fixed(a: i128, b: i128) -> (r: i128)
    requires
        b > 0,
        i128::MIN < a * SCALE <= i128::MAX,
    ensures
        r == fixed_div(a as int, b as int),
{
    proof {
        reveal(fixed_div);
    }
    floor_div(a * SCALE, b)
}

/// Multiplying by one (raw `SCALE`) leaves a value unchanged.
pub proof fn lemma_fixed_mul_one(a: int)
    ensures
        fixed_mul(a, SCALE as int) == a,
        fixed_mul(SCALE as int, a) == a,
{
    reveal(fixed_mul);
    lemma_div_multiples_vanish(a, SCALE as int);
    assert(a * SCALE == SCALE * a) by (nonlinear_arith);
}

/// Bounds on the fixed-point product of two non-negative factors.
pub proof fn lemma_fixed_mul_le(a: int, b: int, ma: int, mb: int)
    requires
        0 <= a <= ma,
        0 <= b <= mb,
    ensures
        0 <= a * b <= ma * mb,
        0 <= fixed_mul(a, b) <= (ma * mb) / (SCALE as int),
{
    reveal(fixed_mul);
    assert(0 <= a * b <= ma * mb) by (nonlinear_arith)
        requires
            0 <= a <= ma,
            0 <= b <= mb,
    ;
    lemma_div_is_ordered(a * b, ma * mb, SCALE as int);
    lemma_div_is_ordered(0, a * b, SCALE as int);
}

/// The fixed-point product of two factors of at least one is at least one.
pub proof fn lemma_fixed_mul_ge_one(a: int, b: int)
    requires
        SCALE <= a,
        SCALE <= b,
    ensures
        SCALE * SCALE <= a * b,
        SCALE <= fixed_mul(a, b),
{
    reveal(fixed_mul);
    let s = SCALE as int;
    assert(s * s <= a * b) by (nonlinear_arith)
        requires
            s <= a,
            s <= b,
            0 < s,
    ;
    lemma_div_is_ordered(s * s, a * b, s);
    lemma_div_multiples_vanish(s, s);
}

/// Bounds on the fixed-point product of a factor of either sign and a
/// non-negative one.
pub proof fn lemma_fixed_mul_abs_le(a: int, b: int, ma: int, mb: int)
    requires
        -ma <= a <= ma,
        0 <= b <= mb,
    ensures
        -(ma * mb) <= a * b <= ma * mb,
        (-(ma * mb)) / (SCALE as int) <= fixed_mul(a, b) <= (ma * mb) / (SCALE as int),
{
    reveal(fixed_mul);
    assert(-(ma * mb) <= a * b <= ma * mb) by (nonlinear_arith)
        requires
            -ma <= a <= ma,
            0 <= b <= mb,
    ;
    lemma_div_is_ordered(a * b, ma * mb, SCALE as int);
    lemma_div_is_ordered(-(ma * mb), a * b, SCALE as int);
}

/// The raw square of a bounded value is non-negative and bounded.
pub proof fn lemma_fixed_square_le(a: int, ma: int)
    requires
        -ma <= a <= ma,
    ensures
        0 <= a * a <= ma * ma,
        0 <= fixed_mul(a, a) <= (ma * ma) / (SCALE as int),
{
    reveal(fixed_mul);
    assert(0 <= a * a <= ma * ma) by (nonlinear_arith)
        requires
            -ma <= a <= ma,
    ;
    lemma_div_is_ordered(a * a, ma * ma, SCALE as int);
    lemma_div_is_ordered(0, a * a, SCALE as int);
}

/// A fixed-point quotient by a divisor of at least one raw step is no larger
/// in magnitude than the dividend times `SCALE`, and keeps its sign.
pub proof fn lemma_fixed_div_bounds(a: int, b: int)
    requires
        1 <= b,
    ensures
        a >= 0 ==> 0 <= fixed_div(a, b) <= a * SCALE,
        a < 0 ==> a * SCALE <= fixed_div(a, b) < 0,
{
    reveal(fixed_div);
    let x = a * SCALE;
    let q = x / b;
    let r = x % b;
    lemma_fundamental_div_mod(x, b);
    if a >= 0 {
        assert(x >= 0) by (nonlinear_arith)
            requires
                x == a * SCALE,
                a >= 0,
        ;
        vstd::arithmetic::div_mod::lemma_div_is_ordered_by_denominator(x, 1, b);
        lemma_div_is_ordered(0, x, b);
    } else {
        assert(x < 0) by (nonlinear_arith)
            requires
                x == a * SCALE,
                a < 0,
        ;
        assert(x <= q && q < 0) by (nonlinear_arith)
            requires
                x == b * q + r,
                0 <= r < b,
                1 <= b,
                x < 0,
        ;
    }
}

/// A square root rounded down is at most any bound whose square is at least
/// the radicand.
pub proof fn lemma_sqrt_le(n: int, r: int, b: int)
    requires
        0 <= r,
        0 <= b,
        r * r <= n,
        n <= b * b,
    ensures
        r <= b,
{
    if r > b {
        assert(b * b < r * r) by (nonlinear_arith)
            requires
                0 <= b < r,
        ;
    }
}

/// A square root rounded down is at least any bound whose square is at most
/// the radicand.
pub proof fn lemma_sqrt_ge(n: int, r: int, b: int)
    requires
        0 <= r,
        0 <= b,
        n < (r + 1) * (r + 1),
        b * b <= n,
    ensures
        b <= r,
{
    if b > r {
        assert((r + 1) * (r + 1) <= b * b) by (nonlinear_arith)
            requires
                0 <= r < b,
        ;
    }
}

/// Two non-negative roots that both bracket `n` are the same number.
pub proof fn lemma_floor_sqrt_unique(n: int, r: int)
    requires
        0 <= r,
        r * r <= n < (r + 1) * (r + 1),
    ensures
        floor_sqrt(n) == r,
{
    assert(is_floor_sqrt(n, r));
    let s = floor_sqrt(n);
    assert(is_floor_sqrt(n, s));
    assert(0 <= s && s * s <= n && n < (s + 1) * (s + 1));
    if s < r {
        assert((s + 1) * (s + 1) <= r * r) by (nonlinear_arith)
            requires
                0 <= s < r,
        ;
    }
    if r < s {
        assert((r + 1) * (r + 1) <= s * s) by (nonlinear_arith)
            requires
                0 <= r < s,
        ;
    }
}

/// Two non-negative cube roots that both bracket `n` are the same number.
pub proof fn lemma_floor_cbrt_unique(n: int, r: int)
    requires
        0 <= r,
        r * r * r <= n < (r + 1) * (r + 1) * (r + 1),
    ensures
        floor_cbrt(n) == r,
{
    assert(is_floor_cbrt(n, r));
    let s = floor_cbrt(n);
    assert(is_floor_cbrt(n, s));
    assert(0 <= s && s * s * s <= n && n < (s + 1) * (s + 1) * (s + 1));
    if s < r {
        assert((s + 1) * (s + 1) * (s + 1) <= r * r * r) by (nonlinear_arith)
            requires
                0 <= s < r,
        ;
    }
    if r < s {
        assert((r + 1) * (r + 1) * (r + 1) <= s * s * s) by (nonlinear_arith)
            requires
                0 <= r < s,
        ;
    }
}

/// Integer square root by bisection: the largest `r` with `r * r <= n`.
pub fn isqrt(n: u128) -> (r: u128)
    requires
        n < 0x4000_0000_0000_0000_0000_0000_0000_0000,
    ensures
        r * r <= n < (r + 1) * (r + 1),
        r == floor_sqrt(n as int),
{
    let mut lo: u128 = 0;
    let mut hi: u128 = 0x8000_0000_0000_0000;
    assert(hi * hi == 0x4000_0000_0000_0000_0000_0000_0000_0000);
    while lo + 1 < hi
        invariant
            lo < hi <= 0x8000_0000_0000_0000,
            lo * lo <= n,
            n < hi * hi,
        decreases hi - lo,
    {
        let mid: u128 = lo + (hi - lo) / 2;
        assert(mid * mid <= 0x4000_0000_0000_0000_0000_0000_0000_0000) by (nonlinear_arith)
            requires
                mid <= 0x8000_0000_0000_0000,
        ;
        if mid * mid <= n {
            lo = mid;
        } else {
            hi = mid;
        }
    }
    proof {
        lemma_floor_sqrt_unique(n as int, lo as int);
    }
    lo
}

/// Integer cube root by bisection: the largest `r` with `r * r * r <= n`.
pub fn icbrt(n: u128) -> (r: u128)
    requires
        n < 0x4000_0000_0000_0000_0000_0000_0000_0000,
    ensures
        r * r * r <= n < (r + 1) * (r + 1) * (r + 1),
        r == floor_cbrt(n as int),
{
    let mut lo: u128 = 0;
    let mut hi: u128 = 0x400_0000_0000;
    assert(hi * hi * hi == 0x4000_0000_0000_0000_0000_0000_0000_0000);
    while lo + 1 < hi
        invariant
            lo < hi <= 0x400_0000_0000,
            lo * lo * lo <= n,
            n < hi * hi * hi,
        decreases hi - lo,
    {
        let mid: u128 = lo + (hi - lo) / 2;
        assert(mid * mid <= 0x10_0000_0000_0000_0000_0000 && mid * mid * mid
            <= 0x4000_0000_0000_0000_0000_0000_0000_0000) by (nonlinear_arith)
            requires
                mid <= 0x400_0000_0000,
        ;
        if mid * mid * mid <= n {
            lo = mid;
        } else {
            hi = mid;
        }
    }
    proof {
        lemma_floor_cbrt_unique(n as int, lo as int);
    }
    lo
}

/// Number of Taylor terms summed for sin and sinh.
pub const SERIES_TERMS: i128 = 20;

/// Largest argument the sin and sinh series accept (raw): 4.
pub const MAX_SERIES_ARGUMENT: i128 = 4 * SCALE;

/// The `j`-th Taylor term of sinh at `x` (raw): x^(2j+1) / (2j+1)!, each
/// factor x² / ((2j)(2j+1)) applied to the previous term and rounded down.
pub open spec fn series_term(x: int, j: nat) -> int
    decreases j,
{
    if j == 0 {
        x
    } else {
        fixed_mul(fixed_mul(series_term(x, (j - 1) as nat), x), x) / ((2 * j * (2 * j + 1)) as int)
    }
}

/// The sum of the first `n` Taylor terms of sinh (`hyperbolic`) or sin at
/// `x` (raw); sin alternates the signs of the terms.
pub open spec fn series_sum(x: int, hyperbolic: bool, n: nat) -> int
    decreases n,
{
    if n == 0 {
        0
    } else {
        series_sum(x, hyperbolic, (n - 1) as nat) + if hyperbolic || (n - 1) % 2 == 0 {
            series_term(x, (n - 1) as nat)
        } else {
            -series_term(x, (n - 1) as nat)
        }
    }
}

/// sinh x (`hyperbolic`) or sin x by the first `SERIES_TERMS` terms of the
/// Taylor series, in fixed point.
pub fn sine_series(x: i128, hyperbolic: bool) -> (r: i128)
    requires
        0 <= x <= MAX_SERIES_ARGUMENT,
    ensures
        r == series_sum(x as int, hyperbolic, SERIES_TERMS as nat),
        -400 * SCALE <= r <= 400 * SCALE,
        hyperbolic ==> r >= 0,
{
    let mut term: i128 = x;
    let mut sum: i128 = 0;
    let mut j: i128 = 0;
    while j < SERIES_TERMS
        invariant
            0 <= x <= MAX_SERIES_ARGUMENT,
            0 <= j <= SERIES_TERMS,
            term == series_term(x as int, j as nat),
            sum == series_sum(x as int, hyperbolic, j as nat),
            0 <= term <= 16 * SCALE,
            j == 0 ==> term <= MAX_SERIES_ARGUMENT,
            -j * 16 * SCALE <= sum <= j * 16 * SCALE,
            hyperbolic ==> sum >= 0,
        decreases SERIES_TERMS - j,
    {
        if hyperbolic || j % 2 == 0 {
            sum = sum + term;
        } else {
            sum = sum - term;
        }
        proof {
            reveal(fixed_mul);
            lemma_fixed_mul_le(term as int, x as int, term as int, MAX_SERIES_ARGUMENT as int);
            assert((term * MAX_SERIES_ARGUMENT) / (SCALE as int) == 4 * term);
        }
        let u = mul_fixed(term, x);
        proof {
            lemma_fixed_mul_le(u as int, x as int, u as int, MAX_SERIES_ARGUMENT as int);
            assert((u * MAX_SERIES_ARGUMENT) / (SCALE as int) == 4 * u);
        }
        let v = mul_fixed(u, x);
        assert(6 <= (2 * j + 2) * (2 * j + 3) <= 2000) by (nonlinear_arith)
            requires
                0 <= j < 20,
        ;
        let d: i128 = (2 * j + 2) * (2 * j + 3);
        proof {
            assert(0 <= v <= 16 * term);
            if j == 0 {
                assert(v <= 64 * SCALE);
                assert(d == 6) by (nonlinear_arith)
                    requires
                        j == 0,
                        d == (2 * j + 2) * (2 * j + 3),
                ;
                lemma_div_is_ordered(v as int, 64_000_000_000_000, 6);
                assert(v / d <= 16 * SCALE);
            } else {
                assert(d >= 20) by (nonlinear_arith)
                    requires
                        j >= 1,
                        d == (2 * j + 2) * (2 * j + 3),
                ;
                vstd::arithmetic::div_mod::lemma_div_is_ordered_by_denominator(v as int, 20, d as int);
                assert(v <= 256 * SCALE);
                lemma_div_is_ordered(v as int, 256_000_000_000_000, 20);
                assert(v / d <= 16 * SCALE);
            }
            vstd::arithmetic::div_mod::lemma_div_is_ordered(0, v as int, d as int);
            assert(series_term(x as int, (j + 1) as nat) == fixed_mul(fixed_mul(term as int, x as int), x as int) / (d as int));
        }
        term = v / d;
        j = j + 1;
    }
    sum
}

/// Number of terms summed for atan and atanh.
pub const ARCTAN_TERMS: i128 = 1_000;

/// The `k`-th odd power w^(2k+1) used by the atan and atanh series (raw),
/// each factor w² applied to the previous power and rounded down.
pub open spec fn arctan_power(w: int, k: nat) -> int
    decreases k,
{
    if k == 0 {
        w
    } else {
        fixed_mul(fixed_mul(arctan_power(w, (k - 1) as nat), w), w)
    }
}

/// The sum of the first `n` terms w^(2k+1) / (2k+1) of atanh (`hyperbolic`)
/// or atan at `w` (raw); atan alternates the signs of the terms.
pub open spec fn arctan_sum(w: int, hyperbolic: bool, n: nat) -> int
    decreases n,
{
    if n == 0 {
        0
    } else {
        let k = (n - 1) as nat;
        let t = arctan_power(w, k) / ((2 * k + 1) as int);
        arctan_sum(w, hyperbolic, k) + if hyperbolic || k % 2 == 0 {
            t
        } else {
            -t
        }
    }
}

/// atanh w (`hyperbolic`) or atan w by the first `ARCTAN_TERMS` terms of
/// their series, in fixed point, for 0 <= w <= 1.
pub fn arctan_series(w: i128, hyperbolic: bool) -> (r: i128)
    requires
        0 <= w <= SCALE,
    ensures
        r == arctan_sum(w as int, hyperbolic, ARCTAN_TERMS as nat),
        -ARCTAN_TERMS * SCALE <= r <= ARCTAN_TERMS * SCALE,
        hyperbolic ==> r >= 0,
{
    let mut power: i128 = w;
    let mut sum: i128 = 0;
    let mut k: i128 = 0;
    while k < ARCTAN_TERMS
        invariant
            0 <= w <= SCALE,
            0 <= k <= ARCTAN_TERMS,
            power == arctan_power(w as int, k as nat),
            sum == arctan_sum(w as int, hyperbolic, k as nat),
            0 <= power <= SCALE,
            -k * SCALE <= sum <= k * SCALE,
            hyperbolic ==> sum >= 0,
        decreases ARCTAN_TERMS - k,
    {
        let t: i128 = power / (2 * k + 1);
        proof {
            vstd::arithmetic::div_mod::lemma_div_is_ordered_by_denominator(power as int, 1, 2 * k + 1);
            vstd::arithmetic::div_mod::lemma_div_is_ordered(0, power as int, 2 * k + 1);
        }
        if hyperbolic || k % 2 == 0 {
            sum = sum + t;
        } else {
            sum = sum - t;
        }
        proof {
            lemma_fixed_mul_le(power as int, w as int, SCALE as int, SCALE as int);
        }
        let u = mul_fixed(power, w);
        proof {
            lemma_fixed_mul_le(u as int, w as int, SCALE as int, SCALE as int);
        }
        power = mul_fixed(u, w);
        k = k + 1;
    }
    sum
}

/// asinh y = ln(y + √(1 + y²)), in fixed point (raw).
pub open spec fn asinh_fixed(y: int) -> int {
    ln_fixed(y + floor_sqrt(SCALE * SCALE + y * y))
}

/// ln 2, fixed-point.
pub const LN_2: i128 = 693_147_180_560;

/// The number of halvings (each rounded down) that bring `u` below two.
pub open spec fn octaves(u: int) -> nat
    decreases u,
{
    if u < 2 * SCALE {
        0
    } else {
        1 + octaves(u / 2)
    }
}

/// `u` halved (each time rounded down) until it is below two.
pub open spec fn mantissa(u: int) -> int
    decreases u,
{
    if u < 2 * SCALE {
        u
    } else {
        mantissa(u / 2)
    }
}

/// ln u for u >= 1 (raw): u = 2^n v with v in [1, 2), and
/// ln u = n ln 2 + 2 atanh((v - 1) / (v + 1)).
pub open spec fn ln_fixed(u: int) -> int {
    let v = mantissa(u);
    octaves(u) * LN_2 + 2 * arctan_sum(fixed_div(v - SCALE, v + SCALE), true, ARCTAN_TERMS as nat)
}

/// Natural logarithm in fixed point (`ln_fixed`), for 1 <= u <= 2·10⁷.
pub fn ln(u: i128) -> (r: i128)
    requires
        SCALE <= u <= 20_000_000 * SCALE,
    ensures
        r == ln_fixed(u as int),
        0 <= r <= 20_000_000_000_000_000_000,
{
    let mut v: i128 = u;
    let mut n: i128 = 0;
    let mut p: i128 = 1;
    while v >= 2 * SCALE
        invariant
            SCALE <= v <= u <= 20_000_000 * SCALE,
            1 <= p,
            p * v <= u,
            0 <= n < p,
            n + octaves(v as int) == octaves(u as int),
            mantissa(v as int) == mantissa(u as int),
        decreases v,
    {
        assert(2 * p * (v / 2) <= p * v) by (nonlinear_arith)
            requires
                1 <= p,
                0 <= v,
        ;
        assert(p <= 20_000_000) by (nonlinear_arith)
            requires
                p * v <= u,
                SCALE <= v,
                u <= 20_000_000 * SCALE,
                1 <= p,
                SCALE == 1_000_000_000_000,
        ;
        v = v / 2;
        n = n + 1;
        p = 2 * p;
    }
    assert(p <= 20_000_000) by (nonlinear_arith)
        requires
            p * v <= u,
            SCALE <= v,
            u <= 20_000_000 * SCALE,
            1 <= p,
            SCALE == 1_000_000_000_000,
    ;
    proof {
        lemma_fixed_div_unit(v - SCALE, v + SCALE);
    }
    let w = div_fixed(v - SCALE, v + SCALE);
    let t = arctan_series(w, true);
    assert(n * LN_2 <= 20_000_000 * 693_147_180_560) by (nonlinear_arith)
        requires
            0 <= n <= 20_000_000,
            LN_2 == 693_147_180_560,
    ;
    n * LN_2 + 2 * t
}

/// asin y = 4 atan(b), where a = y / (1 + √(1 - y²)) and
/// b = a / (1 + √(1 + a²)) halve the angle twice, in fixed point (raw).
pub open spec fn asin_fixed(y: int) -> int {
    let a = fixed_div(y, SCALE + floor_sqrt(SCALE * SCALE - y * y));
    let b = fixed_div(a, SCALE + floor_sqrt(SCALE * SCALE + a * a));
    4 * arctan_sum(b, false, ARCTAN_TERMS as nat)
}

/// `SCALE * SCALE`: the raw square of one.
pub const SCALE_SQUARED: i128 = 1_000_000_000_000_000_000_000_000;

/// Largest argument of `asinh` (raw): 9·10⁶, where 1 + y² still fits the
/// fixed-point square root.
pub const MAX_ASINH_ARGUMENT: i128 = 9_000_000 * SCALE;

/// A fixed-point quotient `a / b` with `0 <= a <= b` lies in `[0, 1]`.
pub proof fn lemma_fixed_div_unit(a: int, b: int)
    requires
        0 <= a <= b,
        0 < b,
    ensures
        0 <= fixed_div(a, b) <= SCALE,
{
    reveal(fixed_div);
    let s = SCALE as int;
    assert(0 <= a * s <= b * s) by (nonlinear_arith)
        requires
            0 <= a <= b,
            s > 0,
    ;
    lemma_div_is_ordered(a * s, b * s, b);
    lemma_div_is_ordered(0, a * s, b);
    lemma_div_multiples_vanish(s, b);
    assert(b * s == s * b) by (nonlinear_arith);
}

/// Inverse hyperbolic sine in fixed point (`asinh_fixed`).
pub fn asinh(y: i128) -> (r: i128)
    requires
        0 <= y <= MAX_ASINH_ARGUMENT,
    ensures
        r == asinh_fixed(y as int),
        0 <= r <= 20_000_000_000_000_000_000,
{
    assert(0 <= y * y <= 81_000_000_000_000_000_000_000_000_000_000_000_000) by (nonlinear_arith)
        requires
            0 <= y <= 9_000_000_000_000_000_000,
    ;
    let n: i128 = SCALE_SQUARED + y * y;
    let s = isqrt(n as u128);
    proof {
        lemma_sqrt_le(n as int, s as int, 9_100_000_000_000_000_000);
        lemma_sqrt_ge(n as int, s as int, 1_000_000_000_000);
    }
    ln(y + s as i128)
}

/// Inverse sine in fixed point (`asin_fixed`), for 0 <= y <= 1.
pub fn asin(y: i128) -> (r: i128)
    requires
        0 <= y <= SCALE,
    ensures
        r == asin_fixed(y as int),
        -4 * ARCTAN_TERMS * SCALE <= r <= 4 * ARCTAN_TERMS * SCALE,
{
    assert(0 <= y * y <= SCALE_SQUARED) by (nonlinear_arith)
        requires
            0 <= y <= 1_000_000_000_000,
            SCALE_SQUARED == 1_000_000_000_000_000_000_000_000,
    ;
    let n: i128 = SCALE_SQUARED - y * y;
    let c = isqrt(n as u128);
    proof {
        lemma_sqrt_le(n as int, c as int, 1_000_000_000_000);
        lemma_fixed_div_unit(y as int, SCALE + c);
    }
    let a = div_fixed(y, SCALE + c as i128);
    assert(0 <= a * a <= SCALE_SQUARED) by (nonlinear_arith)
        requires
            0 <= a <= 1_000_000_000_000,
            SCALE_SQUARED == 1_000_000_000_000_000_000_000_000,
    ;
    let m: i128 = SCALE_SQUARED + a * a;
    let d = isqrt(m as u128);
    proof {
        lemma_sqrt_le(m as int, d as int, 2_000_000_000_000);
        lemma_fixed_div_unit(a as int, SCALE + d);
    }
    let b = div_fixed(a, SCALE + d as i128);
    4 * arctan_series(b, false)
}

/// A fixed-point product of non-negative factors is at least the second
/// factor when the first is at least one, and at least the first when the
/// second is.
pub proof fn lemma_fixed_mul_ge(a: int, b: int)
    requires
        0 <= a,
        0 <= b,
    ensures
        SCALE <= a ==> b <= fixed_mul(a, b),
        SCALE <= b ==> a <= fixed_mul(a, b),
{
    reveal(fixed_mul);
    let s = SCALE as int;
    if s <= a {
        assert(b * s <= a * b) by (nonlinear_arith)
            requires
                s <= a,
                0 <= b,
        ;
        lemma_div_is_ordered(b * s, a * b, s);
        lemma_div_multiples_vanish(b, s);
        assert(s * b == b * s) by (nonlinear_arith);
    }
    if s <= b {
        assert(a * s <= a * b) by (nonlinear_arith)
            requires
                s <= b,
                0 <= a,
        ;
        lemma_div_is_ordered(a * s, a * b, s);
        lemma_div_multiples_vanish(a, s);
        assert(s * a == a * s) by (nonlinear_arith);
    }
}

/// The product of two numbers split at a common base.
proof fn lemma_expand_split(x: int, y: int, u: int, v: int, s: int)
    ensures
        (s * x + u) * (s * y + v) == (x * y * s + x * v + u * y) * s + u * v,
{
    assert((s * x + u) * (s * y + v) == (s * x) * (s * y + v) + u * (s * y + v)) by (nonlinear_arith);
    assert((s * x) * (s * y + v) == (x * y * s) * s + (x * v) * s) by (nonlinear_arith);
    assert(u * (s * y + v) == (u * y) * s + u * v) by (nonlinear_arith);
    assert((x * y * s + x * v + u * y) * s == (x * y * s) * s + (x * v) * s + (u * y) * s)
        by (nonlinear_arith);
}

/// Fixed-point product of two non-negative values over the whole `i128`
/// range: `None` exactly when the product itself exceeds `i128::MAX`.
pub fn mul_fixed_checked(a: i128, b: i128) -> (r: Option<i128>)
    requires
        0 <= a,
        0 <= b,
    ensures
        r is None <==> fixed_mul(a as int, b as int) > i128::MAX,
        r matches Some(v) ==> v == fixed_mul(a as int, b as int),
{
    let ah: i128 = a / SCALE;
    let al: i128 = a % SCALE;
    let bh: i128 = b / SCALE;
    let bl: i128 = b % SCALE;
    let ghost s = SCALE as int;
    proof {
        reveal(fixed_mul);
        lemma_fundamental_div_mod(a as int, s);
        lemma_fundamental_div_mod(b as int, s);
        lemma_div_is_ordered(a as int, i128::MAX as int, s);
        lemma_div_is_ordered(b as int, i128::MAX as int, s);
        assert(ah * bl <= 170_141_183_460_469_231_731_687_303 * 999_999_999_999) by (nonlinear_arith)
            requires
                0 <= ah <= 170_141_183_460_469_231_731_687_303,
                0 <= bl < 1_000_000_000_000,
        ;
        assert(al * bh <= 170_141_183_460_469_231_731_687_303 * 999_999_999_999) by (nonlinear_arith)
            requires
                0 <= bh <= 170_141_183_460_469_231_731_687_303,
                0 <= al < 1_000_000_000_000,
        ;
        assert(0 <= al * bl < 1_000_000_000_000_000_000_000_000) by (nonlinear_arith)
            requires
                0 <= al < 1_000_000_000_000,
                0 <= bl < 1_000_000_000_000,
        ;
        assert(0 <= ah * bh) by (nonlinear_arith)
            requires
                0 <= ah,
                0 <= bh,
        ;
    }
    let low: i128 = al * bl / SCALE;
    let cross1: i128 = ah * bl;
    let cross2: i128 = al * bh;
    proof {
        let t = ah * bh * s + cross1 + cross2 + low;
        let rem = (al * bl) % s;
        lemma_fundamental_div_mod(al * bl, s);
        lemma_expand_split(ah as int, bh as int, al as int, bl as int, s);
        assert(a * b == (ah * bh * s + cross1 + cross2) * s + al * bl);
        assert(a * b == t * s + rem);
        lemma_fundamental_div_mod_converse(a * b, s, t, rem);
        assert(0 <= cross1 && 0 <= cross2 && 0 <= low) by (nonlinear_arith)
            requires
                cross1 == ah * bl,
                cross2 == al * bh,
                0 <= ah,
                0 <= bh,
                0 <= al,
                0 <= bl,
                low == (al * bl) / s,
                0 <= al * bl,
                s > 0,
        ;
    }
    let high = match ah.checked_mul(bh) {
        None => {
            proof {
                assert(ah * bh * s >= ah * bh) by (nonlinear_arith)
                    requires
                        0 <= ah * bh,
                        s > 0,
                ;
            }
            return None;
        },
        Some(h) => h,
    };
    let high = match high.checked_mul(SCALE) {
        None => return None,
        Some(h) => h,
    };
    let sum = match high.checked_add(cross1) {
        None => return None,
        Some(v) => v,
    };
    let sum = match sum.checked_add(cross2) {
        None => return None,
        Some(v) => v,
    };
    sum.checked_add(low)
}

/// 2π, fixed-point.
pub const TWO_PI: i128 = 6_283_185_307_180;

/// π, fixed-point.
pub const PI_FIXED: i128 = 3_141_592_653_590;

/// π/2, fixed-point.
pub const HALF_PI: i128 = 1_570_796_326_795;

/// sin x for x >= 0 (raw): x is reduced modulo 2π, then into [0, π/2] by
/// sin(x) = -sin(x - π) and sin(x) = sin(π - x), and the series summed there.
pub open spec fn sin_fixed(x: int) -> int {
    let r = x % (TWO_PI as int);
    let negative = r >= PI_FIXED;
    let r2 = if negative {
        r - PI_FIXED
    } else {
        r
    };
    let r3 = if r2 > HALF_PI {
        PI_FIXED - r2
    } else {
        r2
    };
    let v = series_sum(r3, false, SERIES_TERMS as nat);
    if negative {
        -v
    } else {
        v
    }
}

/// Sine of any non-negative argument, in fixed point (`sin_fixed`).
pub fn sin_reduced(x: i128) -> (r: i128)
    requires
        0 <= x,
    ensures
        r == sin_fixed(x as int),
        -400 * SCALE <= r <= 400 * SCALE,
{
    let r = x % TWO_PI;
    let negative = r >= PI_FIXED;
    let r2 = if negative {
        r - PI_FIXED
    } else {
        r
    };
    let r3 = if r2 > HALF_PI {
        PI_FIXED - r2
    } else {
        r2
    };
    let v = sine_series(r3, false);
    if negative {
        -v
    } else {
        v
    }
}

/// The number of halvings (each rounded down) that bring `x` to at most one.
pub open spec fn halvings(x: int) -> nat
    decreases x,
{
    if x <= SCALE {
        0
    } else {
        1 + halvings(x / 2)
    }
}

/// `x` halved (each time rounded down) until it is at most one.
pub open spec fn halved(x: int) -> int
    decreases x,
{
    if x <= SCALE {
        x
    } else {
        halved(x / 2)
    }
}

/// `n` doublings of a pair (sinh y, cosh y) by sinh 2y = 2 sinh y cosh y and
/// cosh 2y = cosh² y + sinh² y, in fixed point; `None` once a value exceeds
/// `i128`.
pub open spec fn doubled(s: int, c: int, n: nat) -> Option<(int, int)>
    decreases n,
{
    if n == 0 {
        Some((s, c))
    } else {
        match doubled(s, c, (n - 1) as nat) {
            None => None,
            Some((s1, c1)) => {
                let s2 = 2 * fixed_mul(s1, c1);
                let c2 = fixed_mul(c1, c1) + fixed_mul(s1, s1);
                if s2 <= i128::MAX && c2 <= i128::MAX {
                    Some((s2, c2))
                } else {
                    None
                }
            },
        }
    }
}

/// sinh x for x >= 0 (raw): x is halved to at most one, sinh of that comes
/// from the series and cosh from √(1 + sinh²), and the pair is doubled back;
/// `None` once a value exceeds `i128`.
pub open spec fn sinh_fixed(x: int) -> Option<int> {
    let h = halved(x);
    let s = series_sum(h, true, SERIES_TERMS as nat);
    let c = floor_sqrt(SCALE * SCALE + s * s);
    match doubled(s, c, halvings(x)) {
        Some((s1, _)) => Some(s1),
        None => None,
    }
}

/// Hyperbolic sine of any non-negative argument, in fixed point
/// (`sinh_fixed`).
pub fn sinh_reduced(x: i128) -> (r: Option<i128>)
    requires
        0 <= x,
    ensures
        r is None <==> sinh_fixed(x as int) is None,
        r matches Some(v) ==> sinh_fixed(x as int) == Some(v as int) && v >= 0,
{
    let mut h: i128 = x;
    let mut n: i128 = 0;
    while h > SCALE
        invariant
            0 <= h <= x,
            0 <= n,
            n + h <= x,
            halved(h as int) == halved(x as int),
            n + halvings(h as int) == halvings(x as int),
        decreases h,
    {
        h = h / 2;
        n = n + 1;
    }
    let s = sine_series(h, true);
    assert(0 <= s * s <= 160_000_000_000_000_000_000_000_000_000) by (nonlinear_arith)
        requires
            0 <= s <= 400_000_000_000_000,
    ;
    let m: i128 = SCALE_SQUARED + s * s;
    let c0 = isqrt(m as u128);
    proof {
        lemma_sqrt_le(m as int, c0 as int, 500_000_000_000_000);
        assert(SCALE_SQUARED == SCALE * SCALE);
    }
    let mut sh: i128 = s;
    let mut ch: i128 = c0 as i128;
    let mut i: i128 = 0;
    while i < n
        invariant
            0 <= i <= n,
            n == halvings(x as int),
            doubled(s as int, c0 as int, i as nat) == Some((sh as int, ch as int)),
            0 <= sh,
            0 <= ch,
            s == series_sum(halved(x as int), true, SERIES_TERMS as nat),
            c0 == floor_sqrt(SCALE * SCALE + s * s),
        decreases n - i,
    {
        proof {
            let j = (i + 1) as nat;
            assert((j - 1) as nat == i as nat);
            assert(doubled(s as int, c0 as int, j) == {
                let s2 = 2 * fixed_mul(sh as int, ch as int);
                let c2 = fixed_mul(ch as int, ch as int) + fixed_mul(sh as int, sh as int);
                if s2 <= i128::MAX && c2 <= i128::MAX {
                    Some((s2, c2))
                } else {
                    None
                }
            });
        }
        let p = match mul_fixed_checked(sh, ch) {
            None => {
                proof {
                    lemma_doubled_none_after(s as int, c0 as int, (i + 1) as nat, n as nat);
                }
                return None;
            },
            Some(p) => p,
        };
        proof {
            lemma_fixed_mul_le(sh as int, sh as int, sh as int, sh as int);
            lemma_fixed_mul_le(ch as int, ch as int, ch as int, ch as int);
            lemma_fixed_mul_le(sh as int, ch as int, sh as int, ch as int);
        }
        let s2 = match p.checked_mul(2) {
            None => {
                proof {
                    lemma_doubled_none_after(s as int, c0 as int, (i + 1) as nat, n as nat);
                }
                return None;
            },
            Some(v) => v,
        };
        let cc = match mul_fixed_checked(ch, ch) {
            None => {
                proof {
                    lemma_doubled_none_after(s as int, c0 as int, (i + 1) as nat, n as nat);
                }
                return None;
            },
            Some(v) => v,
        };
        let ss = match mul_fixed_checked(sh, sh) {
            None => {
                proof {
                    lemma_doubled_none_after(s as int, c0 as int, (i + 1) as nat, n as nat);
                }
                return None;
            },
            Some(v) => v,
        };
        let c2 = match cc.checked_add(ss) {
            None => {
                proof {
                    lemma_doubled_none_after(s as int, c0 as int, (i + 1) as nat, n as nat);
                }
                return None;
            },
            Some(v) => v,
        };
        sh = s2;
        ch = c2;
        i = i + 1;
    }
    Some(sh)
}

/// Once a doubling overflows, every later one stays `None`.
pub proof fn lemma_doubled_none_after(s: int, c: int, i: nat, n: nat)
    requires
        doubled(s, c, i) is None,
        i <= n,
    ensures
        doubled(s, c, n) is None,
    decreases n - i,
{
    if i < n {
        lemma_doubled_none_after(s, c, (i + 1) as nat, n);
    }
}

} // verus!
