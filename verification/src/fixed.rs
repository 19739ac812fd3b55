//! Q32.32 fixed-point arithmetic on raw `i64` bits.
//!
//! A value `v` is represented by the integer `v × 2^32`. Every operation
//! here either is exact or rounds toward negative infinity, and every
//! operation requires its exact result to fit in an `i64` (an overflowing
//! fixed-point operation is a simulation invariant violation).

use vstd::prelude::*;

verus! {

/// Raw bits of the fixed-point value 1.0.
pub const ONE: i64 = 4294967296;

/// Scale factor 2^32 as a mathematical integer.
pub open spec fn scale() -> int {
    4294967296
}

/// Does the mathematical integer `x` fit in an `i64`?
pub open spec fn fits(x: int) -> bool {
    i64::MIN <= x <= i64::MAX
}

/// The raw bits of the whole number `n`.
pub open spec fn from_int_spec(n: int) -> int {
    n * scale()
}

/// Fixed-point product: the exact product of the two values, rounded toward
/// negative infinity to the nearest representable value.
pub open spec fn mul_spec(a: int, b: int) -> int {
    (a * b) / scale()
}

/// Fixed-point quotient of two non-negative values, rounded down.
pub open spec fn div_spec(a: int, b: int) -> int {
    (a * scale()) / b
}

/// Raw bits of the whole number `n`.
pub fn from_int(n: i32) -> (r: i64)
    ensures
        r == from_int_spec(n as int),
{
    (n as i64) * 4294967296
}

/// Fixed-point multiplication.
pub fn q_mul(a: i64, b: i64) -> (r: i64)
    requires
        fits(mul_spec(a as int, b as int)),
    ensures
        r == mul_spec(a as int, b as int),
{
    let p: i128 = (a as i128) * (b as i128);
    let q: i128 = p >> 32u32;
    assert(q == p / 4294967296) by (bit_vector)
        requires
            q == p >> 32u32,
    ;
    q as i64
}

/// Fixed-point division of a non-negative value by a positive value.
pub fn q_div(a: i64, b: i64) -> (r: i64)
    requires
        a >= 0,
        b > 0,
        fits(div_spec(a as int, b as int)),
    ensures
        r == div_spec(a as int, b as int),
{
    let n: i128 = (a as i128) * 4294967296i128;
    let q: i128 = n / (b as i128);
    q as i64
}

/// Squared distance between `(ax, ay)` and `(bx, by)` in fixed point:
/// `(ax − bx)² + (ay − by)²`, each square rounded as by [`mul_spec`].
pub open spec fn dist_sq_spec(ax: int, ay: int, bx: int, by: int) -> int {
    mul_spec(ax - bx, ax - bx) + mul_spec(ay - by, ay - by)
}

/// Every step of the squared-distance computation fits in an `i64`.
pub open spec fn dist_sq_fits(ax: int, ay: int, bx: int, by: int) -> bool {
    &&& fits(ax - bx)
    &&& fits(ay - by)
    &&& fits(mul_spec(ax - bx, ax - bx))
    &&& fits(mul_spec(ay - by, ay - by))
    &&& fits(dist_sq_spec(ax, ay, bx, by))
}

/// Squared distance between two points.
pub fn dist_sq(ax: i64, ay: i64, bx: i64, by: i64) -> (d: i64)
    requires
        dist_sq_fits(ax as int, ay as int, bx as int, by as int),
    ensures
        d == dist_sq_spec(ax as int, ay as int, bx as int, by as int),
{
    let dx = ax - bx;
    let dy = ay - by;
    q_mul(dx, dx) + q_mul(dy, dy)
}

/// `s` is the integer square root of `x`: the largest whole number whose
/// square does not exceed `x`.
pub open spec fn is_isqrt(x: int, s: int) -> bool {
    0 <= s && s * s <= x && x < (s + 1) * (s + 1)
}

/// Fixed-point square root of a non-negative value, rounded down: the raw
/// value `s` with `s² ≤ v · 2^32 < (s + 1)²`.
pub open spec fn sqrt_spec(v: int) -> int {
    isqrt_spec(v * scale())
}

/// The integer square root of `x` (see [`is_isqrt`]).
pub open spec fn isqrt_spec(x: int) -> int {
    choose|s: int| is_isqrt(x, s)
}

/// A whole number has at most one integer square root.
pub proof fn lemma_isqrt_unique(x: int, s: int, t: int)
    requires
        is_isqrt(x, s),
        is_isqrt(x, t),
    ensures
        s == t,
{
    if s < t {
        assert((s + 1) * (s + 1) <= t * t) by (nonlinear_arith)
            requires
                0 <= s + 1 <= t,
        ;
    } else if t < s {
        assert((t + 1) * (t + 1) <= s * s) by (nonlinear_arith)
            requires
                0 <= t + 1 <= s,
        ;
    }
}

/// Fixed-point square root, rounded down (see [`sqrt_spec`]).
pub fn q_sqrt(v: i64) -> (r: i64)
    requires
        v >= 0,
    ensures
        is_isqrt(v * scale(), r as int),
        r == sqrt_spec(v as int),
{
    let x: u128 = (v as u128) * 4294967296u128;
    let mut lo: u128 = 0;
    let mut hi: u128 = 281474976710656;
    assert(x < hi * hi) by (nonlinear_arith)
        requires
            x == v * 4294967296,
            v <= 9223372036854775807,
            hi == 281474976710656,
    ;
    while hi - lo > 1
        invariant
            lo < hi <= 281474976710656,
            lo * lo <= x,
            x < hi * hi,
        decreases hi - lo,
    {
        let mid: u128 = lo + (hi - lo) / 2;
        assert(mid * mid < 281474976710656 * 281474976710656) by (nonlinear_arith)
            requires
                mid < 281474976710656,
        ;
        if mid * mid <= x {
            lo = mid;
        } else {
            hi = mid;
        }
    }
    proof {
        let xi: int = v * scale();
        assert(is_isqrt(xi, lo as int));
        lemma_isqrt_unique(xi, lo as int, isqrt_spec(xi));
    }
    lo as i64
}

/// Fixed-point quotient of `a` by a positive `b`, rounded toward zero.
pub open spec fn div_trunc_spec(a: int, b: int) -> int {
    if a >= 0 {
        div_spec(a, b)
    } else {
        -div_spec(-a, b)
    }
}

/// Fixed-point division by a positive value, rounded toward zero.
pub fn q_div_trunc(a: i64, b: i64) -> (r: i64)
    requires
        b > 0,
        fits(div_spec(abs_spec(a as int), b as int)),
    ensures
        r == div_trunc_spec(a as int, b as int),
{
    let n: i128 = (a as i128) * 4294967296i128;
    let d: i128 = b as i128;
    let q: i128 = if n >= 0 {
        n / d
    } else {
        -((-n) / d)
    };
    q as i64
}

/// An offset of magnitude at most 2^45 has a fixed-point square between 0
/// and 2^58.
pub proof fn lemma_square_bound(d: int)
    requires
        abs_spec(d) <= 35184372088832,
    ensures
        0 <= mul_spec(d, d) <= 288230376151711744,
{
    assert(0 <= d * d <= 1237940039285380274899124224int) by (nonlinear_arith)
        requires
            abs_spec(d) <= 35184372088832,
    ;
    vstd::arithmetic::div_mod::lemma_div_is_ordered(
        d * d,
        1237940039285380274899124224int,
        scale(),
    );
    vstd::arithmetic::div_mod::lemma_div_is_ordered(0, d * d, scale());
}

/// Squared distances between points whose coordinates lie within 2^44
/// never overflow.
pub proof fn lemma_dist_sq_fits_bounded(ax: int, ay: int, bx: int, by: int)
    requires
        abs_spec(ax) <= 17592186044416,
        abs_spec(ay) <= 17592186044416,
        abs_spec(bx) <= 17592186044416,
        abs_spec(by) <= 17592186044416,
    ensures
        dist_sq_fits(ax, ay, bx, by),
        0 <= dist_sq_spec(ax, ay, bx, by),
{
    lemma_square_bound(ax - bx);
    lemma_square_bound(ay - by);
}

/// Every non-negative whole number has an integer square root.
pub proof fn lemma_isqrt_exists(x: int)
    requires
        x >= 0,
    ensures
        exists|s: int| is_isqrt(x, s),
    decreases x,
{
    if x == 0 {
        assert(is_isqrt(0, 0));
    } else {
        let y = x - 1;
        lemma_isqrt_exists(y);
        let s = choose|s: int| is_isqrt(y, s);
        if x < (s + 1) * (s + 1) {
            assert(is_isqrt(x, s));
        } else {
            assert(y < (s + 1) * (s + 1));
            assert(x < (s + 2) * (s + 2)) by (nonlinear_arith)
                requires
                    x == (s + 1) * (s + 1),
                    s >= 0,
            ;
            assert(is_isqrt(x, s + 1));
        }
    }
}

/// For an offset `(dx, dy)` whose fixed-point squared length `ds` is at
/// least one raw step: the fixed-point length `sqrt(ds)` is a true integer
/// root, is at least `2^16`, and each offset component is at most twice it.
pub proof fn lemma_root_bounds_offset(dx: int, dy: int)
    requires
        abs_spec(dx) <= 35184372088832,
        abs_spec(dy) <= 35184372088832,
        1 <= mul_spec(dx, dx) + mul_spec(dy, dy),
    ensures
        is_isqrt(
            (mul_spec(dx, dx) + mul_spec(dy, dy)) * scale(),
            sqrt_spec(mul_spec(dx, dx) + mul_spec(dy, dy)),
        ),
        65536 <= sqrt_spec(mul_spec(dx, dx) + mul_spec(dy, dy)),
        abs_spec(dx) <= 2 * sqrt_spec(mul_spec(dx, dx) + mul_spec(dy, dy)),
        abs_spec(dy) <= 2 * sqrt_spec(mul_spec(dx, dx) + mul_spec(dy, dy)),
{
    let ds = mul_spec(dx, dx) + mul_spec(dy, dy);
    lemma_square_bound(dx);
    lemma_square_bound(dy);
    let x = ds * scale();
    // The square root exists: it is the value the executable root computes.
    let w = choose|s: int| is_isqrt(x, s);
    assert(exists|s: int| is_isqrt(x, s)) by {
        lemma_isqrt_exists(x);
    }
    assert(is_isqrt(x, w));
    let d = sqrt_spec(ds);
    assert(d == w);
    // d ≥ 2^16, since 2^32 ≤ x < (d + 1)².
    assert(65536 <= d) by (nonlinear_arith)
        requires
            4294967296 <= x,
            x < (d + 1) * (d + 1),
            0 <= d,
    ;
    // dx² < (d + 1)² + 2^32 ≤ (d + 1)² + d² ≤ 4 d².
    vstd::arithmetic::div_mod::lemma_fundamental_div_mod(dx * dx, scale());
    vstd::arithmetic::div_mod::lemma_fundamental_div_mod(dy * dy, scale());
    assert(dx * dx < x + scale()) by (nonlinear_arith)
        requires
            dx * dx == scale() * ((dx * dx) / scale()) + (dx * dx) % scale(),
            0 <= (dx * dx) % scale() < scale(),
            x == ((dx * dx) / scale() + mul_spec(dy, dy)) * scale(),
            mul_spec(dy, dy) >= 0,
            scale() == 4294967296,
    ;
    assert(dy * dy < x + scale()) by (nonlinear_arith)
        requires
            dy * dy == scale() * ((dy * dy) / scale()) + (dy * dy) % scale(),
            0 <= (dy * dy) % scale() < scale(),
            x == (mul_spec(dx, dx) + (dy * dy) / scale()) * scale(),
            mul_spec(dx, dx) >= 0,
            scale() == 4294967296,
    ;
    assert(abs_spec(dx) <= 2 * d) by (nonlinear_arith)
        requires
            dx * dx < x + 4294967296,
            x < (d + 1) * (d + 1),
            65536 <= d,
    ;
    assert(abs_spec(dy) <= 2 * d) by (nonlinear_arith)
        requires
            dy * dy < x + 4294967296,
            x < (d + 1) * (d + 1),
            65536 <= d,
    ;
}

/// An integer root of a value below `b²` lies below `b`.
pub proof fn lemma_root_below(x: int, s: int, b: int)
    requires
        is_isqrt(x, s),
        0 <= b,
        x < b * b,
    ensures
        s < b,
{
    if s >= b {
        assert(b * b <= s * s) by (nonlinear_arith)
            requires
                0 <= b <= s,
        ;
    }
}

/// A signed offset scaled by a direction component: `|mul(q, h)| ≤ 2h + 1`
/// when `|q| ≤ 2 · 2^32` and `h ≥ 0`.
pub proof fn lemma_scaled_direction_bound(q: int, h: int)
    requires
        abs_spec(q) <= 2 * scale(),
        0 <= h,
    ensures
        abs_spec(mul_spec(q, h)) <= 2 * h + 1,
{
    vstd::arithmetic::div_mod::lemma_fundamental_div_mod(q * h, scale());
    assert(abs_spec(q * h) <= 2 * scale() * h) by (nonlinear_arith)
        requires
            abs_spec(q) <= 2 * scale(),
            0 <= h,
    ;
    assert(abs_spec((q * h) / scale()) <= 2 * h + 1) by (nonlinear_arith)
        requires
            q * h == scale() * ((q * h) / scale()) + (q * h) % scale(),
            0 <= (q * h) % scale() < scale(),
            abs_spec(q * h) <= 2 * scale() * h,
            scale() == 4294967296,
    ;
}

/// A direction component: `|dx| ≤ 2·dist` gives `|dx / dist| ≤ 2 · 2^32`.
pub proof fn lemma_direction_bound(d: int, dist: int)
    requires
        abs_spec(d) <= 2 * dist,
        dist > 0,
    ensures
        div_spec(abs_spec(d), dist) <= 2 * scale(),
        abs_spec(div_trunc_spec(d, dist)) <= 2 * scale(),
{
    let a = abs_spec(d) * scale();
    let m = 2 * scale();
    assert(a <= dist * m) by (nonlinear_arith)
        requires
            abs_spec(d) <= 2 * dist,
            dist > 0,
            a == abs_spec(d) * scale(),
            m == 2 * scale(),
            scale() > 0,
    ;
    vstd::arithmetic::div_mod::lemma_div_is_ordered(a, dist * m, dist);
    vstd::arithmetic::div_mod::lemma_div_multiples_vanish(m, dist);
    assert(div_spec(abs_spec(d), dist) == a / dist);
    if d < 0 {
        assert(-d == abs_spec(d));
    }
}

/// Magnitude of a raw value.
pub open spec fn abs_spec(v: int) -> int {
    if v >= 0 {
        v
    } else {
        -v
    }
}

/// Magnitude of a raw value as an unsigned integer (exact for every
/// `i64`, including the most negative one).
pub fn abs_bits(v: i64) -> (r: u64)
    ensures
        r == abs_spec(v as int),
{
    if v >= 0 {
        v as u64
    } else if v == i64::MIN {
        9223372036854775808u64
    } else {
        (-v) as u64
    }
}

/// A product of two values in `[0, 1]` lies in `[0, 1]`.
pub proof fn lemma_mul_unit(a: int, b: int)
    requires
        0 <= a <= scale(),
        0 <= b <= scale(),
    ensures
        0 <= mul_spec(a, b) <= scale(),
        mul_spec(a, b) <= a,
        mul_spec(a, b) <= b,
{
    assert(0 <= a * b) by (nonlinear_arith)
        requires
            0 <= a,
            0 <= b,
    ;
    assert(a * b <= a * scale()) by (nonlinear_arith)
        requires
            0 <= a,
            b <= scale(),
    ;
    assert(a * b <= scale() * b) by (nonlinear_arith)
        requires
            0 <= b,
            a <= scale(),
    ;
}

/// Scaling `x` by a value in `[0, 1]` gives a value between 0 and `x`.
pub proof fn lemma_mul_by_unit(x: int, u: int)
    requires
        0 <= u <= scale(),
    ensures
        x >= 0 ==> 0 <= mul_spec(x, u) <= x,
        x < 0 ==> x <= mul_spec(x, u) <= 0,
{
    if x >= 0 {
        assert(0 <= x * u <= x * scale()) by (nonlinear_arith)
            requires
                0 <= x,
                0 <= u <= scale(),
        ;
    } else {
        assert(x * scale() <= x * u <= 0) by (nonlinear_arith)
            requires
                x < 0,
                0 <= u <= scale(),
        ;
    }
}

/// Scaling a non-negative `x` by a non-negative `u` is bounded by
/// `x · u_max` for any bound `u ≤ u_max`.
pub proof fn lemma_mul_nonneg_bound(x: int, u: int, x_max: int, u_max: int)
    requires
        0 <= x <= x_max,
        0 <= u <= u_max,
    ensures
        0 <= mul_spec(x, u) <= (x_max * u_max) / scale(),
{
    assert(0 <= x * u <= x_max * u_max) by (nonlinear_arith)
        requires
            0 <= x <= x_max,
            0 <= u <= u_max,
    ;
    vstd::arithmetic::div_mod::lemma_div_is_ordered(x * u, x_max * u_max, scale());
}

/// The fixed-point product is monotone in both non-negative arguments.
pub proof fn lemma_mul_monotone(a: int, b: int, la: int, lb: int)
    requires
        0 <= la <= a,
        0 <= lb <= b,
    ensures
        mul_spec(la, lb) <= mul_spec(a, b),
{
    assert(la * lb <= a * b) by (nonlinear_arith)
        requires
            0 <= la <= a,
            0 <= lb <= b,
    ;
    vstd::arithmetic::div_mod::lemma_div_is_ordered(la * lb, a * b, scale());
}

/// Dividing a non-negative value by the whole number `n ≥ 1` gives the
/// value divided by `n`, rounded down.
pub proof fn lemma_div_by_int(a: int, n: int)
    requires
        a >= 0,
        n >= 1,
    ensures
        div_spec(a, from_int_spec(n)) == a / n,
{
    vstd::arithmetic::div_mod::lemma_fundamental_div_mod(a, n);
    vstd::arithmetic::div_mod::lemma_mod_bound(a, n);
    assert(a * scale() == (a / n) * (n * scale()) + (a % n) * scale()) by (nonlinear_arith)
        requires
            a == n * (a / n) + (a % n),
    ;
    assert(0 <= (a % n) * scale() < n * scale()) by (nonlinear_arith)
        requires
            0 <= a % n < n,
    ;
    vstd::arithmetic::div_mod::lemma_fundamental_div_mod_converse(
        a * scale(),
        n * scale(),
        a / n,
        (a % n) * scale(),
    );
}

/// Arithmetic core of the speed cap: components `a`, `b` of a direction
/// `(X, Y) / D` scaled to `2^32`, with `D` the rounded-down root of the
/// squared offset and at least `vm`, give, scaled by `vm` and rounded, a
/// vector whose squared length exceeds `vm²` by at most `32·vm`.
pub proof fn lemma_unit_scaled_speed(
    x: int,
    y: int,
    a: int,
    b: int,
    d: int,
    ds: int,
    vm: int,
    vx: int,
    vy: int,
)
    requires
        0 <= x,
        0 <= y,
        0 <= a <= 2 * scale(),
        0 <= b <= 2 * scale(),
        a * d <= x * scale(),
        b * d <= y * scale(),
        x * x + y * y < (ds + 2) * scale(),
        ds * scale() < (d + 1) * (d + 1),
        scale() <= vm <= d,
        0 <= vx,
        0 <= vy,
        vx * scale() <= a * vm + scale(),
        vy * scale() <= b * vm + scale(),
    ensures
        vx * vx + vy * vy <= vm * vm + 32 * vm,
{
    let s = scale();
    assert(a * a * (d * d) <= x * x * (s * s)) by (nonlinear_arith)
        requires
            0 <= a,
            0 <= d,
            a * d <= x * s,
    ;
    assert(b * b * (d * d) <= y * y * (s * s)) by (nonlinear_arith)
        requires
            0 <= b,
            0 <= d,
            b * d <= y * s,
    ;
    let q = a * a + b * b;
    let dd = d * d;
    let ss = s * s;
    let xy = x * x + y * y;
    assert(q * dd == a * a * dd + b * b * dd) by (nonlinear_arith)
        requires
            q == a * a + b * b,
    ;
    assert(xy * ss == x * x * ss + y * y * ss) by (nonlinear_arith)
        requires
            xy == x * x + y * y,
    ;
    assert(xy * ss < (ds + 2) * s * ss) by (nonlinear_arith)
        requires
            xy < (ds + 2) * s,
            ss > 0,
    ;
    assert((ds + 2) * s * ss == ds * s * ss + 2 * s * ss) by (nonlinear_arith);
    assert(ds * s * ss < (d + 1) * (d + 1) * ss) by (nonlinear_arith)
        requires
            ds * s < (d + 1) * (d + 1),
            ss > 0,
    ;
    assert(((d + 1) * (d + 1) + 2 * s) * ss == (d + 1) * (d + 1) * ss + 2 * s * ss) by (nonlinear_arith);
    assert(q * (d * d) < ((d + 1) * (d + 1) + 2 * s) * (s * s));
    assert(q * (vm * vm) <= (s * s) * (vm * vm) + (s * s) * (2 * vm + 1 + 2 * s)) by (nonlinear_arith)
        requires
            q * (d * d) < ((d + 1) * (d + 1) + 2 * s) * (s * s),
            0 < vm <= d,
            0 <= q,
            s > 0,
    ;
    assert(vx * vx * (s * s) <= a * a * (vm * vm) + 2 * a * vm * s + s * s) by (nonlinear_arith)
        requires
            0 <= vx,
            vx * s <= a * vm + s,
            0 <= a,
            0 <= vm,
            s > 0,
    ;
    assert(vy * vy * (s * s) <= b * b * (vm * vm) + 2 * b * vm * s + s * s) by (nonlinear_arith)
        requires
            0 <= vy,
            vy * s <= b * vm + s,
            0 <= b,
            0 <= vm,
            s > 0,
    ;
    assert(2 * a * vm * s + 2 * b * vm * s <= 8 * vm * (s * s)) by (nonlinear_arith)
        requires
            0 <= a <= 2 * s,
            0 <= b <= 2 * s,
            0 <= vm,
            s > 0,
    ;
    assert((s * s) * (2 * vm + 1 + 2 * s) + 2 * (s * s) <= 4 * vm * (s * s) + 3 * (s * s)) by (nonlinear_arith)
        requires
            s <= vm,
            s > 0,
    ;
    assert(q * (vm * vm) == a * a * (vm * vm) + b * b * (vm * vm)) by (nonlinear_arith)
        requires
            q == a * a + b * b,
    ;
    assert(3 * (s * s) <= 3 * vm * (s * s)) by (nonlinear_arith)
        requires
            s <= vm,
            s > 0,
    ;
    assert((vx * vx + vy * vy) * (s * s) == vx * vx * (s * s) + vy * vy * (s * s)) by (nonlinear_arith);
    assert((vm * vm + 32 * vm) * (s * s) == (s * s) * (vm * vm) + 32 * vm * (s * s)) by (nonlinear_arith);
    assert((vx * vx + vy * vy) * (s * s) <= (vm * vm + 32 * vm) * (s * s));
    assert(vx * vx + vy * vy <= vm * vm + 32 * vm) by (nonlinear_arith)
        requires
            (vx * vx + vy * vy) * (s * s) <= (vm * vm + 32 * vm) * (s * s),
            s > 0,
    ;
}

} // verus!
