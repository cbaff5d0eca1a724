//! Colors with byte channels and their packed pixel form.
use vstd::prelude::*;

verus! {

/// The packed pixel: red in bits 23..16, green in 15..8, blue in 7..0.
pub open spec fn pack(r: int, g: int, b: int) -> int {
    r * 65536 + g * 256 + b
}

/// One channel blended by nonnegative weights, rounded down:
/// `(c0 * w0 + c1 * w1 + c2 * w2) / total`.
pub open spec fn blend_channel(c0: int, c1: int, c2: int, w0: int, w1: int, w2: int, total: int) -> int {
    (c0 * w0 + c1 * w1 + c2 * w2) / total
}

/// The blend of three colors by weights `w0`, `w1`, `w2` summing to `total`.
pub open spec fn blend_spec(c0: RGBA, c1: RGBA, c2: RGBA, w0: int, w1: int, w2: int, total: int) -> RGBA {
    RGBA {
        r: blend_channel(c0.r as int, c1.r as int, c2.r as int, w0, w1, w2, total) as u8,
        g: blend_channel(c0.g as int, c1.g as int, c2.g as int, w0, w1, w2, total) as u8,
        b: blend_channel(c0.b as int, c1.b as int, c2.b as int, w0, w1, w2, total) as u8,
    }
}

/// Largest total weight that `RGBA::blend` accepts.
pub const WEIGHT_LIMIT: i128 = 0x10_0000_0000_0000_0000_0000_0000;

/// An RGB color, one byte per channel (the top byte of a pixel is unused).
#[derive(Clone, Copy, Debug, PartialEq, Eq, Structural)]
pub struct RGBA {
    pub r: u8,
    pub g: u8,
    pub b: u8,
}

impl RGBA {
    pub fn new(r: u8, g: u8, b: u8) -> (c: RGBA)
        ensures
            c == (RGBA { r, g, b }),
    {
        RGBA { r, g, b }
    }

    pub fn red() -> (c: RGBA)
        ensures
            c == (RGBA { r: 255, g: 0, b: 0 }),
    {
        Self::new(255, 0, 0)
    }

    pub fn green() -> (c: RGBA)
        ensures
            c == (RGBA { r: 0, g: 255, b: 0 }),
    {
        Self::new(0, 255, 0)
    }

    pub fn blue() -> (c: RGBA)
        ensures
            c == (RGBA { r: 0, g: 0, b: 255 }),
    {
        Self::new(0, 0, 255)
    }

    pub open spec fn packed(&self) -> u32 {
        pack(self.r as int, self.g as int, self.b as int) as u32
    }

    /// The packed pixel value of this color.
    pub fn to_color(&self) -> (p: u32)
        ensures
            p == pack(self.r as int, self.g as int, self.b as int),
            p == self.packed(),
    {
        (self.r as u32) * 65536 + (self.g as u32) * 256 + (self.b as u32)
    }

    /// The blend of three colors with weights `w0`, `w1`, `w2` that sum to
    /// `total`, each channel rounded down.
    pub fn blend(c0: RGBA, c1: RGBA, c2: RGBA, w0: i128, w1: i128, w2: i128, total: i128) -> (c: RGBA)
        requires
            0 <= w0,
            0 <= w1,
            0 <= w2,
            w0 + w1 + w2 == total,
            0 < total <= WEIGHT_LIMIT,
        ensures
            c.r == blend_channel(c0.r as int, c1.r as int, c2.r as int, w0 as int, w1 as int, w2 as int, total as int),
            c.g == blend_channel(c0.g as int, c1.g as int, c2.g as int, w0 as int, w1 as int, w2 as int, total as int),
            c.b == blend_channel(c0.b as int, c1.b as int, c2.b as int, w0 as int, w1 as int, w2 as int, total as int),
            c == blend_spec(c0, c1, c2, w0 as int, w1 as int, w2 as int, total as int),
    {
        RGBA {
            r: blend_one(c0.r, c1.r, c2.r, w0, w1, w2, total),
            g: blend_one(c0.g, c1.g, c2.g, w0, w1, w2, total),
            b: blend_one(c0.b, c1.b, c2.b, w0, w1, w2, total),
        }
    }
}

fn blend_one(c0: u8, c1: u8, c2: u8, w0: i128, w1: i128, w2: i128, total: i128) -> (c: u8)
    requires
        0 <= w0,
        0 <= w1,
        0 <= w2,
        w0 + w1 + w2 == total,
        0 < total <= WEIGHT_LIMIT,
    ensures
        c == blend_channel(c0 as int, c1 as int, c2 as int, w0 as int, w1 as int, w2 as int, total as int),
{
    proof {
        lemma_weighted(c0 as int, w0 as int);
        lemma_weighted(c1 as int, w1 as int);
        lemma_weighted(c2 as int, w2 as int);
        let s = c0 * w0 + c1 * w1 + c2 * w2;
        assert(s / (total as int) <= 255) by (nonlinear_arith)
            requires
                0 <= s <= 255 * total,
                0 < total,
        ;
        assert(0 <= s / (total as int)) by (nonlinear_arith)
            requires
                0 <= s,
                0 < total,
        ;
    }
    let s: i128 = (c0 as i128) * w0 + (c1 as i128) * w1 + (c2 as i128) * w2;
    (s / total) as u8
}

proof fn lemma_weighted(c: int, w: int)
    requires
        0 <= c <= 255,
        0 <= w,
    ensures
        0 <= c * w <= 255 * w,
{
    assert(0 <= c * w <= 255 * w) by (nonlinear_arith)
        requires
            0 <= c <= 255,
            0 <= w,
    ;
}

} // verus!
