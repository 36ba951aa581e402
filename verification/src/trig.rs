//! Fixed-point trigonometry: a table of sines at multiples of one
//! thirty-second of a half turn, with linear interpolation between entries
//! for arbitrary non-negative angles in fixed-point radians.

use vstd::prelude::*;

use crate::scalar::{abs_i, div_trunc, SCALE};

verus! {

/// Half a turn in fixed-point radians.
pub const PI_FX: i64 = 3294199;

/// A full turn in fixed-point radians.
pub const TWO_PI_FX: i64 = 6588398;

/// A quarter turn in fixed-point radians.
pub const HALF_PI_FX: i64 = 1647099;

/// The table spacing: one thirty-second of a half turn.
pub const TRIG_STEP: i64 = 102944;

/// The sine table: entry `k` holds the sine of `k` table steps, in fixed
/// point.
pub open spec fn sin_tab_spec(k: int) -> int {
    if k == 0 {
        0
    } else if k == 1 {
        102778
    } else if k == 2 {
        204567
    } else if k == 3 {
        304386
    } else if k == 4 {
        401273
    } else if k == 5 {
        494295
    } else if k == 6 {
        582558
    } else if k == 7 {
        665210
    } else if k == 8 {
        741455
    } else if k == 9 {
        810560
    } else if k == 10 {
        871859
    } else if k == 11 {
        924761
    } else if k == 12 {
        968758
    } else if k == 13 {
        1003425
    } else if k == 14 {
        1028428
    } else if k == 15 {
        1043527
    } else if k == 16 {
        1048576
    } else if k == 17 {
        1043527
    } else if k == 18 {
        1028428
    } else if k == 19 {
        1003425
    } else if k == 20 {
        968758
    } else if k == 21 {
        924761
    } else if k == 22 {
        871859
    } else if k == 23 {
        810560
    } else if k == 24 {
        741455
    } else if k == 25 {
        665210
    } else if k == 26 {
        582558
    } else if k == 27 {
        494295
    } else if k == 28 {
        401273
    } else if k == 29 {
        304386
    } else if k == 30 {
        204567
    } else if k == 31 {
        102778
    } else if k == 32 {
        0
    } else if k == 33 {
        -102778
    } else if k == 34 {
        -204567
    } else if k == 35 {
        -304386
    } else if k == 36 {
        -401273
    } else if k == 37 {
        -494295
    } else if k == 38 {
        -582558
    } else if k == 39 {
        -665210
    } else if k == 40 {
        -741455
    } else if k == 41 {
        -810560
    } else if k == 42 {
        -871859
    } else if k == 43 {
        -924761
    } else if k == 44 {
        -968758
    } else if k == 45 {
        -1003425
    } else if k == 46 {
        -1028428
    } else if k == 47 {
        -1043527
    } else if k == 48 {
        -1048576
    } else if k == 49 {
        -1043527
    } else if k == 50 {
        -1028428
    } else if k == 51 {
        -1003425
    } else if k == 52 {
        -968758
    } else if k == 53 {
        -924761
    } else if k == 54 {
        -871859
    } else if k == 55 {
        -810560
    } else if k == 56 {
        -741455
    } else if k == 57 {
        -665210
    } else if k == 58 {
        -582558
    } else if k == 59 {
        -494295
    } else if k == 60 {
        -401273
    } else if k == 61 {
        -304386
    } else if k == 62 {
        -204567
    } else if k == 63 {
        -102778
    } else {
        0
    }
}

/// The cosine table: entry `k` holds the cosine of `k` table steps, in
/// fixed point.
pub open spec fn cos_tab_spec(k: int) -> int {
    if k == 0 {
        1048576
    } else if k == 1 {
        1043527
    } else if k == 2 {
        1028428
    } else if k == 3 {
        1003425
    } else if k == 4 {
        968758
    } else if k == 5 {
        924761
    } else if k == 6 {
        871859
    } else if k == 7 {
        810560
    } else if k == 8 {
        741455
    } else if k == 9 {
        665210
    } else if k == 10 {
        582558
    } else if k == 11 {
        494295
    } else if k == 12 {
        401273
    } else if k == 13 {
        304386
    } else if k == 14 {
        204567
    } else if k == 15 {
        102778
    } else if k == 16 {
        0
    } else if k == 17 {
        -102778
    } else if k == 18 {
        -204567
    } else if k == 19 {
        -304386
    } else if k == 20 {
        -401273
    } else if k == 21 {
        -494295
    } else if k == 22 {
        -582558
    } else if k == 23 {
        -665210
    } else if k == 24 {
        -741455
    } else if k == 25 {
        -810560
    } else if k == 26 {
        -871859
    } else if k == 27 {
        -924761
    } else if k == 28 {
        -968758
    } else if k == 29 {
        -1003425
    } else if k == 30 {
        -1028428
    } else if k == 31 {
        -1043527
    } else if k == 32 {
        -1048576
    } else if k == 33 {
        -1043527
    } else if k == 34 {
        -1028428
    } else if k == 35 {
        -1003425
    } else if k == 36 {
        -968758
    } else if k == 37 {
        -924761
    } else if k == 38 {
        -871859
    } else if k == 39 {
        -810560
    } else if k == 40 {
        -741455
    } else if k == 41 {
        -665210
    } else if k == 42 {
        -582558
    } else if k == 43 {
        -494295
    } else if k == 44 {
        -401273
    } else if k == 45 {
        -304386
    } else if k == 46 {
        -204567
    } else if k == 47 {
        -102778
    } else if k == 48 {
        0
    } else if k == 49 {
        102778
    } else if k == 50 {
        204567
    } else if k == 51 {
        304386
    } else if k == 52 {
        401273
    } else if k == 53 {
        494295
    } else if k == 54 {
        582558
    } else if k == 55 {
        665210
    } else if k == 56 {
        741455
    } else if k == 57 {
        810560
    } else if k == 58 {
        871859
    } else if k == 59 {
        924761
    } else if k == 60 {
        968758
    } else if k == 61 {
        1003425
    } else if k == 62 {
        1028428
    } else if k == 63 {
        1043527
    } else {
        1048576
    }
}

/// Table lookup for the sine of `k` table steps.
pub fn sin_tab(k: u16) -> (r: i64)
    requires
        k <= 64,
    ensures
        r == sin_tab_spec(k as int),
        -SCALE <= r <= SCALE,
{
    match k {
        0 => 0,
        1 => 102778,
        2 => 204567,
        3 => 304386,
        4 => 401273,
        5 => 494295,
        6 => 582558,
        7 => 665210,
        8 => 741455,
        9 => 810560,
        10 => 871859,
        11 => 924761,
        12 => 968758,
        13 => 1003425,
        14 => 1028428,
        15 => 1043527,
        16 => 1048576,
        17 => 1043527,
        18 => 1028428,
        19 => 1003425,
        20 => 968758,
        21 => 924761,
        22 => 871859,
        23 => 810560,
        24 => 741455,
        25 => 665210,
        26 => 582558,
        27 => 494295,
        28 => 401273,
        29 => 304386,
        30 => 204567,
        31 => 102778,
        32 => 0,
        33 => -102778,
        34 => -204567,
        35 => -304386,
        36 => -401273,
        37 => -494295,
        38 => -582558,
        39 => -665210,
        40 => -741455,
        41 => -810560,
        42 => -871859,
        43 => -924761,
        44 => -968758,
        45 => -1003425,
        46 => -1028428,
        47 => -1043527,
        48 => -1048576,
        49 => -1043527,
        50 => -1028428,
        51 => -1003425,
        52 => -968758,
        53 => -924761,
        54 => -871859,
        55 => -810560,
        56 => -741455,
        57 => -665210,
        58 => -582558,
        59 => -494295,
        60 => -401273,
        61 => -304386,
        62 => -204567,
        63 => -102778,
        _ => 0,
    }
}

/// Table lookup for the cosine of `k` table steps.
pub fn cos_tab(k: u16) -> (r: i64)
    requires
        k <= 64,
    ensures
        r == cos_tab_spec(k as int),
        -SCALE <= r <= SCALE,
{
    match k {
        0 => 1048576,
        1 => 1043527,
        2 => 1028428,
        3 => 1003425,
        4 => 968758,
        5 => 924761,
        6 => 871859,
        7 => 810560,
        8 => 741455,
        9 => 665210,
        10 => 582558,
        11 => 494295,
        12 => 401273,
        13 => 304386,
        14 => 204567,
        15 => 102778,
        16 => 0,
        17 => -102778,
        18 => -204567,
        19 => -304386,
        20 => -401273,
        21 => -494295,
        22 => -582558,
        23 => -665210,
        24 => -741455,
        25 => -810560,
        26 => -871859,
        27 => -924761,
        28 => -968758,
        29 => -1003425,
        30 => -1028428,
        31 => -1043527,
        32 => -1048576,
        33 => -1043527,
        34 => -1028428,
        35 => -1003425,
        36 => -968758,
        37 => -924761,
        38 => -871859,
        39 => -810560,
        40 => -741455,
        41 => -665210,
        42 => -582558,
        43 => -494295,
        44 => -401273,
        45 => -304386,
        46 => -204567,
        47 => -102778,
        48 => 0,
        49 => 102778,
        50 => 204567,
        51 => 304386,
        52 => 401273,
        53 => 494295,
        54 => 582558,
        55 => 665210,
        56 => 741455,
        57 => 810560,
        58 => 871859,
        59 => 924761,
        60 => 968758,
        61 => 1003425,
        62 => 1028428,
        63 => 1043527,
        _ => 1048576,
    }
}

/// Every table entry is at most one fixed-point unit in magnitude.
pub proof fn lemma_tab_bounds(k: int)
    ensures
        -(SCALE as int) <= sin_tab_spec(k) <= SCALE as int,
        -(SCALE as int) <= cos_tab_spec(k) <= SCALE as int,
{
}

/// The sine of a non-negative fixed-point angle, by reduction to one turn
/// and linear interpolation of the table.
pub open spec fn sin_approx(x: int) -> int {
    let y = x % (TWO_PI_FX as int);
    let k = y / (TRIG_STEP as int);
    let frac = y - k * (TRIG_STEP as int);
    let a = sin_tab_spec(k);
    let b = sin_tab_spec(k + 1);
    a + div_trunc((b - a) * frac, TRIG_STEP as int)
}

/// Fixed-point sine by table interpolation.
pub fn sin_fx(x: i64) -> (r: i64)
    requires
        0 <= x,
    ensures
        r == sin_approx(x as int),
        -SCALE <= r <= SCALE,
{
    let y: i64 = ((x as u64) % 6588398) as i64;
    let k: i64 = ((y as u64) / 102944) as i64;
    proof {
        vstd::arithmetic::div_mod::lemma_fundamental_div_mod(y as int, TRIG_STEP as int);
        vstd::arithmetic::div_mod::lemma_mod_division_less_than_divisor(y as int, TRIG_STEP as int);
        assert(0 <= k < 64) by (nonlinear_arith)
            requires
                y == (TRIG_STEP as int) * k + (y as int) % (TRIG_STEP as int),
                0 <= (y as int) % (TRIG_STEP as int) < TRIG_STEP as int,
                0 <= y < 6588398,
                TRIG_STEP as int == 102944,
                k == (y as int) / (TRIG_STEP as int),
        ;
    }
    let frac: i64 = y - k * 102944;
    let a = sin_tab(k as u16);
    let b = sin_tab(k as u16 + 1);
    proof {
        lemma_tab_bounds(k as int);
        lemma_tab_bounds(k as int + 1);
        assert(0 <= frac < 102944);
        assert(abs_i((b - a) as int) <= 2 * SCALE as int);
        assert(abs_i(((b - a) as int) * (frac as int)) <= 2 * (SCALE as int) * 102944)
            by (nonlinear_arith)
            requires
                abs_i((b - a) as int) <= 2 * SCALE as int,
                0 <= frac < 102944,
        ;
        crate::scalar::lemma_div_trunc_mag((b as int - a as int) * (frac as int), TRIG_STEP as int);
        assert(abs_i(div_trunc(((b - a) as int) * (frac as int), TRIG_STEP as int)) <= 2 * (
        SCALE as int)) by (nonlinear_arith)
            requires
                abs_i(div_trunc(((b - a) as int) * (frac as int), TRIG_STEP as int)) * (
                TRIG_STEP as int) <= abs_i(((b - a) as int) * (frac as int)),
                abs_i(((b - a) as int) * (frac as int)) <= 2 * (SCALE as int) * 102944,
                TRIG_STEP as int == 102944,
                abs_i(div_trunc(((b - a) as int) * (frac as int), TRIG_STEP as int)) >= 0,
        ;
    }
    let q = fx_div_step(b - a, frac);
    proof {
        lemma_lerp_between(a as int, b as int, q as int, frac as int);
    }
    a + q
}

/// Fixed-point cosine: the sine a quarter turn ahead.
pub fn cos_fx(x: i64) -> (r: i64)
    requires
        0 <= x,
        x + (HALF_PI_FX as int) <= i64::MAX,
    ensures
        r == sin_approx(x + HALF_PI_FX as int),
        -SCALE <= r <= SCALE,
{
    sin_fx(x + HALF_PI_FX)
}

/// The interpolation step `(b - a) * frac / TRIG_STEP`, truncated.
fn fx_div_step(delta: i64, frac: i64) -> (r: i64)
    requires
        abs_i(delta as int) <= 4 * SCALE as int,
        0 <= frac < TRIG_STEP,
    ensures
        r == div_trunc((delta as int) * (frac as int), TRIG_STEP as int),
{
    proof {
        assert(abs_i((delta as int) * (frac as int)) <= 4 * (SCALE as int) * (TRIG_STEP as int))
            by (nonlinear_arith)
            requires
                abs_i(delta as int) <= 4 * SCALE as int,
                0 <= frac < TRIG_STEP,
                TRIG_STEP as int == 102944,
        ;
        crate::scalar::lemma_div_trunc_mag((delta as int) * (frac as int), TRIG_STEP as int);
        assert((delta as i128) * (frac as i128) == (delta as int) * (frac as int))
            by (nonlinear_arith);
        assert(i128::MIN <= (delta as int) * (frac as int) <= i128::MAX) by (nonlinear_arith)
            requires
                abs_i((delta as int) * (frac as int)) <= 4 * (SCALE as int) * (TRIG_STEP as int),
        ;
    }
    let p: i128 = (delta as i128) * (frac as i128);
    let q: i128 = p.checked_div(102944).unwrap();
    proof {
        assert(q == div_trunc(p as int, TRIG_STEP as int));
    }
    q as i64
}

/// Linear interpolation between two bounded values stays between them.
proof fn lemma_lerp_between(a: int, b: int, q: int, frac: int)
    requires
        -(SCALE as int) <= a <= SCALE as int,
        -(SCALE as int) <= b <= SCALE as int,
        0 <= frac < TRIG_STEP as int,
        q == div_trunc((b - a) * frac, TRIG_STEP as int),
    ensures
        -(SCALE as int) <= a + q <= SCALE as int,
{
    let d = b - a;
    crate::scalar::lemma_div_trunc_mag(d * frac, TRIG_STEP as int);
    if d >= 0 {
        assert(d * frac >= 0) by (nonlinear_arith)
            requires
                d >= 0,
                frac >= 0,
        ;
        crate::scalar::lemma_fmul_nonneg(d, frac);
        assert(q >= 0) by {
            if d * frac > 0 {
                assert(div_trunc(d * frac, TRIG_STEP as int) == (d * frac) / (TRIG_STEP as int));
                assert((d * frac) / (TRIG_STEP as int) >= 0) by (nonlinear_arith)
                    requires
                        d * frac > 0,
                        TRIG_STEP as int > 0,
                ;
            }
        }
        assert(abs_i(q) * (TRIG_STEP as int) <= abs_i(d * frac));
        assert(abs_i(d * frac) == d * frac) by (nonlinear_arith)
            requires
                d * frac >= 0,
        ;
        assert(d * frac <= d * (TRIG_STEP as int)) by (nonlinear_arith)
            requires
                d >= 0,
                0 <= frac < TRIG_STEP as int,
        ;
        assert(q <= d) by (nonlinear_arith)
            requires
                q * (TRIG_STEP as int) <= d * (TRIG_STEP as int),
                TRIG_STEP as int > 0,
                abs_i(q) == q,
        ;
    } else {
        assert(d * frac <= 0) by (nonlinear_arith)
            requires
                d < 0,
                frac >= 0,
        ;
        assert(q <= 0) by {
            if d * frac < 0 {
                assert(div_trunc(d * frac, TRIG_STEP as int) == ((d * frac * -1) / (
                TRIG_STEP as int)) * -1);
                assert(((d * frac * -1) / (TRIG_STEP as int)) >= 0) by (nonlinear_arith)
                    requires
                        d * frac < 0,
                        TRIG_STEP as int > 0,
                ;
            }
        }
        assert(abs_i(q) * (TRIG_STEP as int) <= abs_i(d * frac));
        assert(abs_i(d * frac) == (d * -1) * frac) by (nonlinear_arith)
            requires
                d < 0,
                frac >= 0,
        ;
        assert((d * -1) * frac <= (d * -1) * (TRIG_STEP as int)) by (nonlinear_arith)
            requires
                d < 0,
                0 <= frac < TRIG_STEP as int,
        ;
        assert(d <= q) by (nonlinear_arith)
            requires
                abs_i(q) * (TRIG_STEP as int) <= (d * -1) * (TRIG_STEP as int),
                TRIG_STEP as int > 0,
                abs_i(q) == -q,
        ;
    }
}

} // verus!
