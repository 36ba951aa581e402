//! Fixed-point scalar arithmetic.
//!
//! Geometric quantities are carried as signed 64-bit integers holding
//! multiples of `1/SCALE`, so every arithmetic step is exact integer
//! computation with truncating (round-toward-zero) rescaling.

use vstd::prelude::*;

verus! {

/// Fixed-point steps per unit: a quantity `v` stands for the real number
/// `v / SCALE`.
pub const SCALE: i64 = 1048576;

/// Largest coordinate magnitude the geometry routines work with; keeps all
/// products and sums of the mesh generators inside `i64`.
pub const COORD_LIMIT: i64 = 274877906944;

/// A scalar small enough to take part in coordinate arithmetic.
pub open spec fn in_coord_range(v: int) -> bool {
    -(COORD_LIMIT as int) <= v <= COORD_LIMIT as int
}

/// A mathematical value that a 64-bit signed machine word can hold.
pub open spec fn fits_i64(v: int) -> bool {
    i64::MIN <= v <= i64::MAX
}

pub open spec fn abs_i(x: int) -> int {
    if x >= 0 {
        x
    } else {
        -x
    }
}

/// Truncating (round-toward-zero) integer division: the rounding rule of
/// Rust's `/` on machine integers, stated over mathematical integers.
pub open spec fn div_trunc(x: int, d: int) -> int
    recommends
        d != 0,
{
    if x == 0 {
        0
    } else if x > 0 && d > 0 {
        x / d
    } else if x < 0 && d < 0 {
        (x * -1) / (d * -1)
    } else if x < 0 {
        ((x * -1) / d) * -1
    } else {
        (x / (d * -1)) * -1
    }
}

/// Fixed-point product: the real value `(a/SCALE)·(b/SCALE)`, scaled back and
/// truncated toward zero.
pub open spec fn fmul(a: int, b: int) -> int {
    div_trunc(a * b, SCALE as int)
}

/// Fixed-point quotient: the real value `(a/SCALE)/(b/SCALE)`, scaled back
/// and truncated toward zero.
pub open spec fn fdiv(a: int, b: int) -> int
    recommends
        b != 0,
{
    div_trunc(a * (SCALE as int), b)
}

/// Linear interpolation `a·(1 - t) + b·t` in fixed point.
pub open spec fn lerp(a: int, b: int, t: int) -> int {
    fmul(a, SCALE - t) + fmul(b, t)
}

/// The non-negative square root of `x`, rounded down.
pub open spec fn sqrt_floor(x: int) -> int
    recommends
        x >= 0,
{
    choose|r: int| 0 <= r && #[trigger] (r * r) <= x && x < (r + 1) * (r + 1)
}

pub proof fn lemma_sqrt_floor_exists(x: int)
    requires
        x >= 0,
    ensures
        0 <= sqrt_floor(x),
        sqrt_floor(x) * sqrt_floor(x) <= x,
        x < (sqrt_floor(x) + 1) * (sqrt_floor(x) + 1),
    decreases x,
{
    if x == 0 {
        assert(0 <= 0 && 0 * 0 <= x && x < (0 + 1) * (0 + 1));
    } else {
        lemma_sqrt_floor_exists(x - 1);
        let r = sqrt_floor(x - 1);
        if (r + 1) * (r + 1) <= x {
            assert(x == (r + 1) * (r + 1));
            assert(x < ((r + 1) + 1) * ((r + 1) + 1)) by (nonlinear_arith)
                requires
                    x == (r + 1) * (r + 1),
                    r >= 0,
            ;
            assert(0 <= r + 1 && (r + 1) * (r + 1) <= x && x < ((r + 1) + 1) * ((r + 1) + 1));
        } else {
            assert(0 <= r && r * r <= x && x < (r + 1) * (r + 1));
        }
    }
}

pub proof fn lemma_sqrt_floor_unique(x: int, r: int)
    requires
        x >= 0,
        0 <= r,
        r * r <= x,
        x < (r + 1) * (r + 1),
    ensures
        r == sqrt_floor(x),
{
    lemma_sqrt_floor_exists(x);
    let s = sqrt_floor(x);
    if r < s {
        assert((r + 1) * (r + 1) <= s * s) by (nonlinear_arith)
            requires
                0 <= r,
                r < s,
        ;
    }
    if s < r {
        assert((s + 1) * (s + 1) <= r * r) by (nonlinear_arith)
            requires
                0 <= s,
                s < r,
        ;
    }
}

/// Multiplying by the fixed-point unit is exact.
pub proof fn lemma_fmul_one(a: int)
    ensures
        fmul(a, SCALE as int) == a,
        fmul(a, 0) == 0,
{
    if a > 0 {
        assert(a * (SCALE as int) / (SCALE as int) == a) by (nonlinear_arith);
    } else if a < 0 {
        assert((a * (SCALE as int)) * -1 == (-a) * (SCALE as int)) by (nonlinear_arith);
        assert((-a) * (SCALE as int) / (SCALE as int) == -a) by (nonlinear_arith);
    }
    assert(a * 0 == 0);
}

/// The magnitude of a truncated quotient, scaled back up by the divisor,
/// never exceeds the magnitude of the dividend.
pub proof fn lemma_div_trunc_mag(x: int, d: int)
    requires
        d > 0,
    ensures
        abs_i(div_trunc(x, d)) * d <= abs_i(x),
        abs_i(div_trunc(x, d)) <= abs_i(x),
{
    if x > 0 {
        assert(x / d >= 0 && (x / d) * d <= x) by (nonlinear_arith)
            requires
                x > 0,
                d > 0,
        ;
        assert(div_trunc(x, d) == x / d);
        assert(abs_i(div_trunc(x, d)) == x / d);
        assert(abs_i(x) == x);
    } else if x < 0 {
        let y = x * -1;
        assert(y / d >= 0 && (y / d) * d <= y) by (nonlinear_arith)
            requires
                y > 0,
                d > 0,
        ;
        assert(div_trunc(x, d) == (y / d) * -1);
        assert(abs_i(div_trunc(x, d)) == y / d);
        assert(abs_i(x) == y);
    } else {
        assert(div_trunc(x, d) == 0);
        assert(abs_i(div_trunc(x, d)) * d == 0) by (nonlinear_arith)
            requires
                abs_i(div_trunc(x, d)) == 0,
        ;
    }
    assert(abs_i(div_trunc(x, d)) * d <= abs_i(x));
    assert(abs_i(div_trunc(x, d)) <= abs_i(x)) by (nonlinear_arith)
        requires
            d >= 1,
            abs_i(div_trunc(x, d)) >= 0,
            abs_i(div_trunc(x, d)) * d <= abs_i(x),
    ;
}

/// A product with a weight from `[0, SCALE]` keeps the other factor's bound.
pub proof fn lemma_fmul_weight_bound(a: int, t: int, m: int)
    requires
        0 <= t <= SCALE as int,
        abs_i(a) <= m,
    ensures
        abs_i(fmul(a, t)) <= m,
        abs_i(fmul(a, t)) * (SCALE as int) <= abs_i(a) * t,
    decreases 0int,
{
    assert(abs_i(a * t) == abs_i(a) * t) by (nonlinear_arith)
        requires
            t >= 0,
    ;
    lemma_div_trunc_mag(a * t, SCALE as int);
    assert(abs_i(a) * t <= m * (SCALE as int)) by (nonlinear_arith)
        requires
            0 <= t <= SCALE as int,
            0 <= abs_i(a) <= m,
    ;
    assert(abs_i(fmul(a, t)) * (SCALE as int) <= m * (SCALE as int));
    assert(abs_i(fmul(a, t)) <= m) by (nonlinear_arith)
        requires
            abs_i(fmul(a, t)) * (SCALE as int) <= m * (SCALE as int),
            SCALE as int > 0,
    ;
}

/// Interpolating between two bounded values stays within their common bound.
pub proof fn lemma_lerp_bound(a: int, b: int, t: int, m: int)
    requires
        0 <= t <= SCALE as int,
        abs_i(a) <= m,
        abs_i(b) <= m,
    ensures
        abs_i(lerp(a, b, t)) <= m,
        lerp(a, b, 0) == a,
        lerp(a, b, SCALE as int) == b,
{
    lemma_fmul_weight_bound(a, SCALE as int - t, m);
    lemma_fmul_weight_bound(b, t, m);
    let u = fmul(a, SCALE as int - t);
    let v = fmul(b, t);
    assert((abs_i(u) + abs_i(v)) * (SCALE as int) <= abs_i(a) * ((SCALE as int) - t) + abs_i(b)
        * t) by (nonlinear_arith)
        requires
            abs_i(u) * (SCALE as int) <= abs_i(a) * ((SCALE as int) - t),
            abs_i(v) * (SCALE as int) <= abs_i(b) * t,
    ;
    assert(abs_i(a) * ((SCALE as int) - t) + abs_i(b) * t <= m * (SCALE as int)) by (nonlinear_arith)
        requires
            0 <= t <= SCALE as int,
            0 <= abs_i(a) <= m,
            0 <= abs_i(b) <= m,
    ;
    assert(abs_i(u + v) <= abs_i(u) + abs_i(v));
    assert(abs_i(u + v) * (SCALE as int) <= (abs_i(u) + abs_i(v)) * (SCALE as int))
        by (nonlinear_arith)
        requires
            abs_i(u + v) <= abs_i(u) + abs_i(v),
            SCALE as int > 0,
    ;
    assert(abs_i(lerp(a, b, t)) * (SCALE as int) <= m * (SCALE as int));
    assert(abs_i(lerp(a, b, t)) <= m) by (nonlinear_arith)
        requires
            abs_i(lerp(a, b, t)) * (SCALE as int) <= m * (SCALE as int),
            SCALE as int > 0,
    ;
    lemma_fmul_one(a);
    lemma_fmul_one(b);
}

/// Magnitude bound for a fixed-point product.
pub proof fn lemma_fmul_mag(a: int, b: int, ma: int, mb: int)
    requires
        abs_i(a) <= ma,
        abs_i(b) <= mb,
    ensures
        abs_i(fmul(a, b)) * (SCALE as int) <= ma * mb,
        abs_i(fmul(a, b)) <= ma * mb,
    decreases 0int,
{
    assert(abs_i(a * b) <= ma * mb) by (nonlinear_arith)
        requires
            abs_i(a) <= ma,
            abs_i(b) <= mb,
    ;
    lemma_div_trunc_mag(a * b, SCALE as int);
    assert(abs_i(fmul(a, b)) * (SCALE as int) <= ma * mb);
    assert(abs_i(fmul(a, b)) <= ma * mb) by (nonlinear_arith)
        requires
            abs_i(fmul(a, b)) * (SCALE as int) <= ma * mb,
            SCALE as int >= 1,
            abs_i(fmul(a, b)) >= 0,
    ;
}

/// A product of factors with equal signs is non-negative after rescaling.
pub proof fn lemma_fmul_nonneg(a: int, b: int)
    requires
        a * b >= 0,
    ensures
        fmul(a, b) >= 0,
    decreases 0int,
{
    let p = a * b;
    if p > 0 {
        assert(p / (SCALE as int) >= 0) by (nonlinear_arith)
            requires
                p > 0,
        ;
    }
}

/// Derived bound: if the factor bounds multiply to at most `bound·SCALE`,
/// the rescaled product stays within `bound`.
pub proof fn lemma_fmul_bound_by(a: int, b: int, ma: int, mb: int, bound: int)
    requires
        abs_i(a) <= ma,
        abs_i(b) <= mb,
        ma * mb <= bound * (SCALE as int),
    ensures
        abs_i(fmul(a, b)) <= bound,
    decreases 0int,
{
    lemma_fmul_mag(a, b, ma, mb);
    assert(abs_i(fmul(a, b)) <= bound) by (nonlinear_arith)
        requires
            abs_i(fmul(a, b)) * (SCALE as int) <= ma * mb,
            ma * mb <= bound * (SCALE as int),
            SCALE as int > 0,
    ;
}

/// A truncated quotient of a non-negative dividend rounds down by less than
/// one divisor step.
pub proof fn lemma_div_trunc_upper(x: int, d: int)
    requires
        x >= 0,
        d > 0,
    ensures
        x < (div_trunc(x, d) + 1) * d,
    decreases 0int,
{
    vstd::arithmetic::div_mod::lemma_fundamental_div_mod(x, d);
    vstd::arithmetic::div_mod::lemma_mod_division_less_than_divisor(x, d);
    if x > 0 {
        assert(div_trunc(x, d) == x / d);
        assert(x < (x / d + 1) * d) by (nonlinear_arith)
            requires
                x == d * (x / d) + (x % d),
                x % d < d,
        ;
    } else {
        assert(div_trunc(x, d) == 0);
        assert(x < (div_trunc(x, d) + 1) * d) by (nonlinear_arith)
            requires
                x == 0,
                div_trunc(x, d) == 0,
                d > 0,
        ;
    }
}

/// Fixed-point multiply.
pub fn fx_mul(a: i64, b: i64) -> (r: i64)
    requires
        i64::MIN <= fmul(a as int, b as int) <= i64::MAX,
    ensures
        r as int == fmul(a as int, b as int),
{
    proof {
        assert((a as i128) * (b as i128) == (a as int) * (b as int)) by (nonlinear_arith);
        assert(i128::MIN <= (a as int) * (b as int) <= i128::MAX) by (nonlinear_arith)
            requires
                i64::MIN <= a <= i64::MAX,
                i64::MIN <= b <= i64::MAX,
        ;
    }
    let p: i128 = (a as i128) * (b as i128);
    proof {
        lemma_div_trunc_mag(p as int, SCALE as int);
    }
    let q: i128 = p.checked_div(1048576).unwrap();
    proof {
        assert(q == div_trunc(p as int, SCALE as int));
        assert(q == fmul(a as int, b as int));
    }
    q as i64
}

/// Fixed-point divide; the divisor must be non-zero.
pub fn fx_div(a: i64, b: i64) -> (r: i64)
    requires
        b != 0,
        i64::MIN <= fdiv(a as int, b as int) <= i64::MAX,
    ensures
        r as int == fdiv(a as int, b as int),
{
    proof {
        assert((a as i128) * 1048576 == (a as int) * (SCALE as int)) by (nonlinear_arith);
        assert(i128::MIN <= (a as int) * (SCALE as int) <= i128::MAX) by (nonlinear_arith)
            requires
                i64::MIN <= a <= i64::MAX,
        ;
    }
    let p: i128 = (a as i128) * 1048576;
    proof {
        lemma_div_trunc_mag_any(p as int, b as int);
    }
    let q: i128 = p.checked_div(b as i128).unwrap();
    proof {
        assert(q == div_trunc(p as int, b as int));
        assert(q == fdiv(a as int, b as int));
    }
    q as i64
}

/// As `lemma_div_trunc_mag`, for a divisor of either sign.
pub proof fn lemma_div_trunc_mag_any(x: int, d: int)
    requires
        d != 0,
    ensures
        abs_i(div_trunc(x, d)) <= abs_i(x),
    decreases 0int,
{
    if d > 0 {
        lemma_div_trunc_mag(x, d);
    } else {
        lemma_div_trunc_mag(x, d * -1);
        assert(div_trunc(x, d) == div_trunc(x, d * -1) * -1);
    }
}

/// Linear interpolation `a·(1 - t) + b·t`, truncating each weighted term.
pub fn fx_lerp(a: i64, b: i64, t: i64) -> (r: i64)
    requires
        i64::MIN <= (SCALE as int) - t <= i64::MAX,
        i64::MIN <= fmul(a as int, (SCALE as int) - t) <= i64::MAX,
        i64::MIN <= fmul(b as int, t as int) <= i64::MAX,
        i64::MIN <= lerp(a as int, b as int, t as int) <= i64::MAX,
    ensures
        r as int == lerp(a as int, b as int, t as int),
{
    let u = fx_mul(a, SCALE - t);
    let v = fx_mul(b, t);
    u + v
}

/// Bilinear interpolation over four corner values `a b / c d`, weighting by
/// `t1` toward the `c d` row and `t2` toward the `b d` column.
pub open spec fn bilin(a: int, b: int, c: int, d: int, t1: int, t2: int) -> int {
    fmul(fmul(a, SCALE - t1), SCALE - t2) + fmul(fmul(b, SCALE - t1), t2) + fmul(
        fmul(c, t1),
        SCALE - t2,
    ) + fmul(fmul(d, t1), t2)
}

/// At the four parameter corners, bilinear interpolation returns the matching
/// corner value exactly.
pub proof fn lemma_bilin_corners(a: int, b: int, c: int, d: int)
    ensures
        bilin(a, b, c, d, 0, 0) == a,
        bilin(a, b, c, d, 0, SCALE as int) == b,
        bilin(a, b, c, d, SCALE as int, 0) == c,
        bilin(a, b, c, d, SCALE as int, SCALE as int) == d,
{
    lemma_fmul_one(a);
    lemma_fmul_one(b);
    lemma_fmul_one(c);
    lemma_fmul_one(d);
    lemma_fmul_one(0);
}

/// Bilinear interpolation with weights inside the unit square keeps the
/// common bound of its corner values.
pub proof fn lemma_bilin_bound(a: int, b: int, c: int, d: int, t1: int, t2: int, m: int)
    requires
        0 <= t1 <= SCALE as int,
        0 <= t2 <= SCALE as int,
        abs_i(a) <= m,
        abs_i(b) <= m,
        abs_i(c) <= m,
        abs_i(d) <= m,
    ensures
        abs_i(bilin(a, b, c, d, t1, t2)) <= m,
        abs_i(fmul(a, SCALE - t1)) <= m,
        abs_i(fmul(b, SCALE - t1)) <= m,
        abs_i(fmul(c, t1)) <= m,
        abs_i(fmul(d, t1)) <= m,
{
    let s = SCALE as int;
    lemma_fmul_weight_bound(a, s - t1, m);
    lemma_fmul_weight_bound(b, s - t1, m);
    lemma_fmul_weight_bound(c, t1, m);
    lemma_fmul_weight_bound(d, t1, m);
    let ra = fmul(a, s - t1);
    let rb = fmul(b, s - t1);
    let rc = fmul(c, t1);
    let rd = fmul(d, t1);
    lemma_fmul_weight_bound(ra, s - t2, m);
    lemma_fmul_weight_bound(rb, t2, m);
    lemma_fmul_weight_bound(rc, s - t2, m);
    lemma_fmul_weight_bound(rd, t2, m);
    let ta = fmul(ra, s - t2);
    let tb = fmul(rb, t2);
    let tc = fmul(rc, s - t2);
    let td = fmul(rd, t2);
    assert(ta + tb + tc + td == bilin(a, b, c, d, t1, t2));
    let wa = (s - t1) * (s - t2);
    let wb = (s - t1) * t2;
    let wc = t1 * (s - t2);
    let wd = t1 * t2;
    lemma_weighted_term(abs_i(ta), abs_i(ra), abs_i(a), s - t2, s - t1, m, s);
    lemma_weighted_term(abs_i(tb), abs_i(rb), abs_i(b), t2, s - t1, m, s);
    lemma_weighted_term(abs_i(tc), abs_i(rc), abs_i(c), s - t2, t1, m, s);
    lemma_weighted_term(abs_i(td), abs_i(rd), abs_i(d), t2, t1, m, s);
    assert(abs_i(ta) * (s * s) <= m * wa);
    assert(abs_i(tb) * (s * s) <= m * wb);
    assert(abs_i(tc) * (s * s) <= m * wc);
    assert(abs_i(td) * (s * s) <= m * wd);
    assert(wa + wb + wc + wd == s * s) by (nonlinear_arith)
        requires
            wa == (s - t1) * (s - t2),
            wb == (s - t1) * t2,
            wc == t1 * (s - t2),
            wd == t1 * t2,
    ;
    assert(m * (wa + wb + wc + wd) == m * wa + m * wb + m * wc + m * wd) by (nonlinear_arith);
    let q = abs_i(ta) + abs_i(tb) + abs_i(tc) + abs_i(td);
    assert(q * (s * s) == abs_i(ta) * (s * s) + abs_i(tb) * (s * s) + abs_i(tc) * (s * s) + abs_i(
        td,
    ) * (s * s)) by (nonlinear_arith)
        requires
            q == abs_i(ta) + abs_i(tb) + abs_i(tc) + abs_i(td),
    ;
    assert(q * (s * s) <= m * (s * s));
    assert(abs_i(ta + tb + tc + td) <= abs_i(ta) + abs_i(tb) + abs_i(tc) + abs_i(td));
    assert(abs_i(bilin(a, b, c, d, t1, t2)) <= m) by (nonlinear_arith)
        requires
            abs_i(bilin(a, b, c, d, t1, t2)) <= abs_i(ta) + abs_i(tb) + abs_i(tc) + abs_i(td),
            (abs_i(ta) + abs_i(tb) + abs_i(tc) + abs_i(td)) * (s * s) <= m * (s * s),
            s > 0,
            m >= 0,
    ;
}

/// One term of the bilinear bound: magnitudes shrink through two weighted
/// truncating products.
proof fn lemma_weighted_term(t_abs: int, r_abs: int, a_abs: int, w2: int, w1: int, m: int, s: int)
    requires
        t_abs * s <= r_abs * w2,
        r_abs * s <= a_abs * w1,
        a_abs <= m,
        0 <= w1 <= s,
        0 <= w2 <= s,
        t_abs >= 0,
        r_abs >= 0,
        a_abs >= 0,
        s > 0,
        m >= 0,
    ensures
        t_abs * (s * s) <= m * (w1 * w2),
{
    assert(t_abs * (s * s) <= m * (w1 * w2)) by (nonlinear_arith)
        requires
            t_abs * s <= r_abs * w2,
            r_abs * s <= a_abs * w1,
            a_abs <= m,
            0 <= w1 <= s,
            0 <= w2 <= s,
            t_abs >= 0,
            r_abs >= 0,
            a_abs >= 0,
            s > 0,
            m >= 0,
    ;
}

/// Bilinear interpolation of four corner scalars inside the coordinate
/// range.
pub fn fx_bilin(a: i64, b: i64, c: i64, d: i64, t1: i64, t2: i64) -> (r: i64)
    requires
        0 <= t1 <= SCALE,
        0 <= t2 <= SCALE,
        abs_i(a as int) <= COORD_LIMIT as int,
        abs_i(b as int) <= COORD_LIMIT as int,
        abs_i(c as int) <= COORD_LIMIT as int,
        abs_i(d as int) <= COORD_LIMIT as int,
    ensures
        r as int == bilin(a as int, b as int, c as int, d as int, t1 as int, t2 as int),
        abs_i(r as int) <= COORD_LIMIT as int,
{
    proof {
        lemma_bilin_bound(
            a as int,
            b as int,
            c as int,
            d as int,
            t1 as int,
            t2 as int,
            COORD_LIMIT as int,
        );
        lemma_fmul_weight_bound(a as int, (SCALE as int) - t1, COORD_LIMIT as int);
        lemma_fmul_weight_bound(b as int, (SCALE as int) - t1, COORD_LIMIT as int);
        lemma_fmul_weight_bound(c as int, t1 as int, COORD_LIMIT as int);
        lemma_fmul_weight_bound(d as int, t1 as int, COORD_LIMIT as int);
    }
    let ra = fx_mul(a, SCALE - t1);
    let rb = fx_mul(b, SCALE - t1);
    let rc = fx_mul(c, t1);
    let rd = fx_mul(d, t1);
    proof {
        lemma_fmul_weight_bound(ra as int, (SCALE as int) - t2, COORD_LIMIT as int);
        lemma_fmul_weight_bound(rb as int, t2 as int, COORD_LIMIT as int);
        lemma_fmul_weight_bound(rc as int, (SCALE as int) - t2, COORD_LIMIT as int);
        lemma_fmul_weight_bound(rd as int, t2 as int, COORD_LIMIT as int);
    }
    fx_mul(ra, SCALE - t2) + fx_mul(rb, t2) + fx_mul(rc, SCALE - t2) + fx_mul(rd, t2)
}

/// Fixed-point square root of a non-negative scalar, rounded down.
pub fn fx_sqrt(x: i64) -> (r: i64)
    requires
        0 <= x,
    ensures
        0 <= r,
        r as int == sqrt_floor(x * (SCALE as int)),
        (r as int) * (r as int) <= x * (SCALE as int),
        x * (SCALE as int) < (r as int + 1) * (r as int + 1),
{
    proof {
        assert((x as u128) * 1048576 == (x as int) * (SCALE as int)) by (nonlinear_arith)
            requires
                0 <= x,
        ;
    }
    let v: u128 = (x as u128) * 1048576;
    let mut lo: u128 = 0;
    let mut hi: u128 = 4398046511104;
    proof {
        assert((x as int) * (SCALE as int) < 4398046511104int * 4398046511104int)
            by (nonlinear_arith)
            requires
                0 <= x <= i64::MAX,
        ;
    }
    while lo + 1 < hi
        invariant
            0 <= lo < hi <= 4398046511104,
            (lo as int) * (lo as int) <= v as int,
            (v as int) < (hi as int) * (hi as int),
            v == x * (SCALE as int),
        decreases hi - lo,
    {
        let mid: u128 = lo + (hi - lo) / 2;
        proof {
            assert(lo < mid < hi);
            assert((mid as int) * (mid as int) <= 4398046511104int * 4398046511104int)
                by (nonlinear_arith)
                requires
                    0 <= mid as int <= 4398046511104int,
            ;
        }
        let sq: u128 = mid * mid;
        if sq <= v {
            lo = mid;
        } else {
            hi = mid;
        }
    }
    proof {
        assert((v as int) < ((lo as int) + 1) * ((lo as int) + 1));
        lemma_sqrt_floor_unique(v as int, lo as int);
    }
    lo as i64
}

} // verus!
