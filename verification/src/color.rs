//! RGBA colors: four fixed-point channels, nominally in `[0, 1]` but never
//! clamped by arithmetic.

use vstd::prelude::*;

use rand::Rng;

use crate::scalar::{fdiv, fits_i64, fmul, fx_div, fx_mul, in_coord_range, SCALE};

verus! {

#[derive(Clone, Copy, Debug, PartialEq, Eq, Structural)]
pub struct Color {
    pub r: i64,
    pub g: i64,
    pub b: i64,
    pub a: i64,
}

/// All channels lie within the working coordinate range.
pub open spec fn col_in_range(c: Color) -> bool {
    &&& in_coord_range(c.r as int)
    &&& in_coord_range(c.g as int)
    &&& in_coord_range(c.b as int)
    &&& in_coord_range(c.a as int)
}

/// Half a unit in fixed point.
pub const HALF: i64 = 524288;

/// Three quarters of a unit in fixed point.
pub const THREE_QUARTERS: i64 = 786432;

/// A quarter of a unit in fixed point.
pub const QUARTER: i64 = 262144;

/// The green channel of gold, `0.84` in fixed point.
pub const GOLD_GREEN: i64 = 880804;

/// Relies on `rand::Rng::gen_range`: a uniformly distributed value drawn
/// from the given half-open range.
#[verifier::external_body]
fn random_unit_scalar() -> (r: i64)
    ensures
        0 <= r < SCALE,
{
    rand::thread_rng().gen_range(0i64..1048576i64)
}

impl Color {
    pub fn new(r: i64, g: i64, b: i64, a: i64) -> (c: Self)
        ensures
            c.r == r,
            c.g == g,
            c.b == b,
            c.a == a,
    {
        Self { r, g, b, a }
    }

    pub fn black() -> (c: Self)
        ensures
            c == (Color { r: 0, g: 0, b: 0, a: SCALE }),
    {
        Self { r: 0, g: 0, b: 0, a: SCALE }
    }

    pub fn white() -> (c: Self)
        ensures
            c == (Color { r: SCALE, g: SCALE, b: SCALE, a: SCALE }),
    {
        Self { r: SCALE, g: SCALE, b: SCALE, a: SCALE }
    }

    pub fn red() -> (c: Self)
        ensures
            c == (Color { r: SCALE, g: 0, b: 0, a: SCALE }),
    {
        Self { r: SCALE, g: 0, b: 0, a: SCALE }
    }

    pub fn green() -> (c: Self)
        ensures
            c == (Color { r: 0, g: SCALE, b: 0, a: SCALE }),
    {
        Self { r: 0, g: SCALE, b: 0, a: SCALE }
    }

    pub fn blue() -> (c: Self)
        ensures
            c == (Color { r: 0, g: 0, b: SCALE, a: SCALE }),
    {
        Self { r: 0, g: 0, b: SCALE, a: SCALE }
    }

    pub fn yellow() -> (c: Self)
        ensures
            c == (Color { r: SCALE, g: SCALE, b: 0, a: SCALE }),
    {
        Self { r: SCALE, g: SCALE, b: 0, a: SCALE }
    }

    pub fn cyan() -> (c: Self)
        ensures
            c == (Color { r: 0, g: SCALE, b: SCALE, a: SCALE }),
    {
        Self { r: 0, g: SCALE, b: SCALE, a: SCALE }
    }

    pub fn magenta() -> (c: Self)
        ensures
            c == (Color { r: SCALE, g: 0, b: SCALE, a: SCALE }),
    {
        Self { r: SCALE, g: 0, b: SCALE, a: SCALE }
    }

    pub fn orange() -> (c: Self)
        ensures
            c == (Color { r: SCALE, g: HALF, b: 0, a: SCALE }),
    {
        Self { r: SCALE, g: HALF, b: 0, a: SCALE }
    }

    pub fn purple() -> (c: Self)
        ensures
            c == (Color { r: HALF, g: 0, b: HALF, a: SCALE }),
    {
        Self { r: HALF, g: 0, b: HALF, a: SCALE }
    }

    pub fn pink() -> (c: Self)
        ensures
            c == (Color { r: SCALE, g: 0, b: HALF, a: SCALE }),
    {
        Self { r: SCALE, g: 0, b: HALF, a: SCALE }
    }

    pub fn brown() -> (c: Self)
        ensures
            c == (Color { r: HALF, g: 0, b: 0, a: SCALE }),
    {
        Self { r: HALF, g: 0, b: 0, a: SCALE }
    }

    pub fn turquoise() -> (c: Self)
        ensures
            c == (Color { r: 0, g: HALF, b: HALF, a: SCALE }),
    {
        Self { r: 0, g: HALF, b: HALF, a: SCALE }
    }

    pub fn lime() -> (c: Self)
        ensures
            c == (Color { r: 0, g: SCALE, b: 0, a: SCALE }),
    {
        Self { r: 0, g: SCALE, b: 0, a: SCALE }
    }

    pub fn maroon() -> (c: Self)
        ensures
            c == (Color { r: HALF, g: 0, b: 0, a: SCALE }),
    {
        Self { r: HALF, g: 0, b: 0, a: SCALE }
    }

    pub fn olive() -> (c: Self)
        ensures
            c == (Color { r: HALF, g: HALF, b: 0, a: SCALE }),
    {
        Self { r: HALF, g: HALF, b: 0, a: SCALE }
    }

    pub fn teal() -> (c: Self)
        ensures
            c == (Color { r: 0, g: HALF, b: HALF, a: SCALE }),
    {
        Self { r: 0, g: HALF, b: HALF, a: SCALE }
    }

    pub fn navy() -> (c: Self)
        ensures
            c == (Color { r: 0, g: 0, b: HALF, a: SCALE }),
    {
        Self { r: 0, g: 0, b: HALF, a: SCALE }
    }

    pub fn violet() -> (c: Self)
        ensures
            c == (Color { r: HALF, g: 0, b: HALF, a: SCALE }),
    {
        Self { r: HALF, g: 0, b: HALF, a: SCALE }
    }

    pub fn gray() -> (c: Self)
        ensures
            c == (Color { r: HALF, g: HALF, b: HALF, a: SCALE }),
    {
        Self { r: HALF, g: HALF, b: HALF, a: SCALE }
    }

    pub fn silver() -> (c: Self)
        ensures
            c == (Color { r: THREE_QUARTERS, g: THREE_QUARTERS, b: THREE_QUARTERS, a: SCALE }),
    {
        Self { r: THREE_QUARTERS, g: THREE_QUARTERS, b: THREE_QUARTERS, a: SCALE }
    }

    pub fn gold() -> (c: Self)
        ensures
            c == (Color { r: SCALE, g: GOLD_GREEN, b: 0, a: SCALE }),
    {
        Self { r: SCALE, g: GOLD_GREEN, b: 0, a: SCALE }
    }

    /// A random opaque color; each channel is uniform over `[0, 1)`.
    pub fn random() -> (c: Self)
        ensures
            0 <= c.r < SCALE,
            0 <= c.g < SCALE,
            0 <= c.b < SCALE,
            c.a == SCALE,
    {
        Self {
            r: random_unit_scalar(),
            g: random_unit_scalar(),
            b: random_unit_scalar(),
            a: SCALE,
        }
    }

    /// Set the alpha channel to fully transparent and return the result.
    pub fn transparent(&mut self) -> (c: Self)
        ensures
            final (self).a == 0,
            final (self).r == old(self).r,
            final (self).g == old(self).g,
            final (self).b == old(self).b,
            c == *final (self),
    {
        self.a = 0;
        *self
    }

    /// Set the alpha channel to one quarter and return the result.
    pub fn semi_transparent(&mut self) -> (c: Self)
        ensures
            final (self).a == QUARTER,
            final (self).r == old(self).r,
            final (self).g == old(self).g,
            final (self).b == old(self).b,
            c == *final (self),
    {
        self.a = QUARTER;
        *self
    }

    /// Set the alpha channel to one half and return the result.
    pub fn translucent(&mut self) -> (c: Self)
        ensures
            final (self).a == HALF,
            final (self).r == old(self).r,
            final (self).g == old(self).g,
            final (self).b == old(self).b,
            c == *final (self),
    {
        self.a = HALF;
        *self
    }

    /// Set the alpha channel to three quarters and return the result.
    pub fn semi_opaque(&mut self) -> (c: Self)
        ensures
            final (self).a == THREE_QUARTERS,
            final (self).r == old(self).r,
            final (self).g == old(self).g,
            final (self).b == old(self).b,
            c == *final (self),
    {
        self.a = THREE_QUARTERS;
        *self
    }

    /// Set the alpha channel to fully opaque and return the result.
    pub fn opaque(&mut self) -> (c: Self)
        ensures
            final (self).a == SCALE,
            final (self).r == old(self).r,
            final (self).g == old(self).g,
            final (self).b == old(self).b,
            c == *final (self),
    {
        self.a = SCALE;
        *self
    }

    /// Channel-wise sum.
    pub fn add(self, other: Self) -> (c: Self)
        requires
            fits_i64(self.r + other.r),
            fits_i64(self.g + other.g),
            fits_i64(self.b + other.b),
            fits_i64(self.a + other.a),
        ensures
            c.r == self.r + other.r,
            c.g == self.g + other.g,
            c.b == self.b + other.b,
            c.a == self.a + other.a,
    {
        Self { r: self.r + other.r, g: self.g + other.g, b: self.b + other.b, a: self.a + other.a }
    }

    /// Channel-wise difference.
    pub fn sub(self, other: Self) -> (c: Self)
        requires
            fits_i64(self.r - other.r),
            fits_i64(self.g - other.g),
            fits_i64(self.b - other.b),
            fits_i64(self.a - other.a),
        ensures
            c.r == self.r - other.r,
            c.g == self.g - other.g,
            c.b == self.b - other.b,
            c.a == self.a - other.a,
    {
        Self { r: self.r - other.r, g: self.g - other.g, b: self.b - other.b, a: self.a - other.a }
    }

    /// Channel-wise fixed-point product.
    pub fn mul(self, other: Self) -> (c: Self)
        requires
            fits_i64(fmul(self.r as int, other.r as int)),
            fits_i64(fmul(self.g as int, other.g as int)),
            fits_i64(fmul(self.b as int, other.b as int)),
            fits_i64(fmul(self.a as int, other.a as int)),
        ensures
            c.r == fmul(self.r as int, other.r as int),
            c.g == fmul(self.g as int, other.g as int),
            c.b == fmul(self.b as int, other.b as int),
            c.a == fmul(self.a as int, other.a as int),
    {
        Self {
            r: fx_mul(self.r, other.r),
            g: fx_mul(self.g, other.g),
            b: fx_mul(self.b, other.b),
            a: fx_mul(self.a, other.a),
        }
    }

    /// Channel-wise fixed-point quotient.
    pub fn div(self, other: Self) -> (c: Self)
        requires
            other.r != 0,
            other.g != 0,
            other.b != 0,
            other.a != 0,
            fits_i64(fdiv(self.r as int, other.r as int)),
            fits_i64(fdiv(self.g as int, other.g as int)),
            fits_i64(fdiv(self.b as int, other.b as int)),
            fits_i64(fdiv(self.a as int, other.a as int)),
        ensures
            c.r == fdiv(self.r as int, other.r as int),
            c.g == fdiv(self.g as int, other.g as int),
            c.b == fdiv(self.b as int, other.b as int),
            c.a == fdiv(self.a as int, other.a as int),
    {
        Self {
            r: fx_div(self.r, other.r),
            g: fx_div(self.g, other.g),
            b: fx_div(self.b, other.b),
            a: fx_div(self.a, other.a),
        }
    }

    /// Scale every channel by a fixed-point factor.
    pub fn scale(self, s: i64) -> (c: Self)
        requires
            fits_i64(fmul(self.r as int, s as int)),
            fits_i64(fmul(self.g as int, s as int)),
            fits_i64(fmul(self.b as int, s as int)),
            fits_i64(fmul(self.a as int, s as int)),
        ensures
            c.r == fmul(self.r as int, s as int),
            c.g == fmul(self.g as int, s as int),
            c.b == fmul(self.b as int, s as int),
            c.a == fmul(self.a as int, s as int),
    {
        Self {
            r: fx_mul(self.r, s),
            g: fx_mul(self.g, s),
            b: fx_mul(self.b, s),
            a: fx_mul(self.a, s),
        }
    }

    /// Divide every channel by a non-zero fixed-point factor.
    pub fn div_scale(self, s: i64) -> (c: Self)
        requires
            s != 0,
            fits_i64(fdiv(self.r as int, s as int)),
            fits_i64(fdiv(self.g as int, s as int)),
            fits_i64(fdiv(self.b as int, s as int)),
            fits_i64(fdiv(self.a as int, s as int)),
        ensures
            c.r == fdiv(self.r as int, s as int),
            c.g == fdiv(self.g as int, s as int),
            c.b == fdiv(self.b as int, s as int),
            c.a == fdiv(self.a as int, s as int),
    {
        Self {
            r: fx_div(self.r, s),
            g: fx_div(self.g, s),
            b: fx_div(self.b, s),
            a: fx_div(self.a, s),
        }
    }
}

} // verus!
