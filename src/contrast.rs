//! The WCAG contrast ratio between two colours, computed exactly.
//!
//! The relative luminance Y of a colour depends on its CIE lightness alone
//! (D65 white, Y of white = 1): `Y = ((L + 16) / 116)^3` above `L = 8`, and
//! `Y = L * 27 / 24389` up to it. With `L` in steps of `1 / SCALE`, `Y` is the
//! integer `luminance(l)` over the common denominator `LUMA_DEN`, and the
//! contrast ratio `(Ymax + 0.05) / (Ymin + 0.05)` is the fraction
//! `(20 Ymax + LUMA_DEN) / (20 Ymin + LUMA_DEN)`.
use vstd::prelude::*;
use crate::color::{Lch, SCALE};

verus! {

/// `(116 * SCALE)^3`, the luminance denominator: `64 * 24389 * SCALE^3`.
pub const LUMA_DEN: u128 = 1560896000000000000;

/// Lightness above which the cube law holds (8, in steps of `1 / SCALE`).
pub const CUBE_FROM: u32 = 80000;

/// The relative luminance of lightness `l`, times `LUMA_DEN`.
pub open spec fn luminance(l: int) -> int {
    if l > 8 * SCALE {
        (l + 16 * SCALE) * (l + 16 * SCALE) * (l + 16 * SCALE)
    } else {
        1728 * l * (SCALE * SCALE)
    }
}

/// A contrast ratio `num / den`.
#[derive(Clone, Copy, Debug, PartialEq, Eq, Structural)]
pub struct Contrast {
    pub num: u128,
    pub den: u128,
}

/// The contrast ratio between lightnesses `a` and `b`, as a fraction.
pub open spec fn contrast_of(a: int, b: int) -> Contrast {
    let ya = luminance(a);
    let yb = luminance(b);
    let hi = if ya > yb { ya } else { yb };
    let lo = if ya > yb { yb } else { ya };
    Contrast { num: (20 * hi + LUMA_DEN) as u128, den: (20 * lo + LUMA_DEN) as u128 }
}

/// `c` lies within 1/10000 of `target_milli / 1000`.
pub open spec fn meets(c: Contrast, target_milli: int) -> bool {
    let d = 10000 * c.num - 10 * target_milli * c.den;
    -(c.den as int) <= d <= c.den
}

/// Luminance lies between that of black and that of white.
pub proof fn lemma_luminance_bounds(l: int)
    requires
        0 <= l <= 100 * SCALE,
    ensures
        0 <= luminance(l) <= LUMA_DEN,
{
    if l > 8 * SCALE {
        let m = l + 16 * SCALE;
        assert(0 <= m * m * m <= 1160000 * 1160000 * 1160000) by (nonlinear_arith)
            requires
                0 <= m <= 1160000,
        ;
    } else {
        assert(0 <= 1728 * l * (10000 * 10000) <= 1728 * 80000 * (10000 * 10000)) by (nonlinear_arith)
            requires
                0 <= l <= 80000,
        ;
    }
}

/// Luminance grows with lightness.
pub proof fn lemma_luminance_monotonic(a: int, b: int)
    requires
        0 <= a <= b,
    ensures
        luminance(a) <= luminance(b),
{
    let s = SCALE as int;
    if a > 8 * s {
        let x = a + 16 * s;
        let y = b + 16 * s;
        assert(x * x * x <= y * y * y) by (nonlinear_arith)
            requires
                0 <= x <= y,
        ;
    } else if b > 8 * s {
        let y = b + 16 * s;
        assert(1728 * a * (s * s) <= 1728 * (8 * s) * (s * s)) by (nonlinear_arith)
            requires
                0 <= a <= 8 * s,
                s == 10000,
        ;
        assert(24 * s * (24 * s) * (24 * s) <= y * y * y) by (nonlinear_arith)
            requires
                24 * s <= y,
        ;
    } else {
        assert(1728 * a * (s * s) <= 1728 * b * (s * s)) by (nonlinear_arith)
            requires
                0 <= a <= b,
        ;
    }
}

/// The relative luminance of lightness `l`, times `LUMA_DEN`.
pub fn relative_luminance(l: u32) -> (r: u128)
    requires
        l <= 100 * SCALE,
    ensures
        r == luminance(l as int),
        r <= LUMA_DEN,
{
    proof {
        lemma_luminance_bounds(l as int);
    }
    if l > CUBE_FROM {
        let m: u128 = l as u128 + 16 * SCALE as u128;
        assert(m * m <= 1160000 * 1160000) by (nonlinear_arith)
            requires
                m <= 1160000,
        ;
        m * m * m
    } else {
        1728 * l as u128 * (SCALE as u128 * SCALE as u128)
    }
}

/// The contrast ratio between two colours: their larger relative luminance
/// plus 0.05 over their smaller one plus 0.05.
pub fn contrast_ratio(a: &Lch, b: &Lch) -> (r: Contrast)
    requires
        a.wf(),
        b.wf(),
    ensures
        r == contrast_of(a.l as int, b.l as int),
        r.den <= r.num <= 21 * r.den,
        r.num <= 21 * LUMA_DEN,
{
    proof {
        lemma_contrast_bounds(*a, *b);
    }
    let ya = relative_luminance(a.l);
    let yb = relative_luminance(b.l);
    if ya > yb {
        Contrast { num: 20 * ya + LUMA_DEN, den: 20 * yb + LUMA_DEN }
    } else {
        Contrast { num: 20 * yb + LUMA_DEN, den: 20 * ya + LUMA_DEN }
    }
}

impl Contrast {
    /// Whether this ratio lies within 1/10000 of `target_milli / 1000`.
    pub fn meets(&self, target_milli: u32) -> (r: bool)
        requires
            self.num <= 21 * LUMA_DEN,
            self.den <= 21 * LUMA_DEN,
        ensures
            r == meets(*self, target_milli as int),
    {
        let a: u128 = 10000 * self.num;
        let t: u128 = 10 * target_milli as u128;
        assert(t * self.den <= 42949672950 * (21 * LUMA_DEN)) by (nonlinear_arith)
            requires
                t <= 42949672950,
                self.den <= 21 * LUMA_DEN,
        ;
        let b: u128 = t * self.den;
        if a >= b {
            a - b <= self.den
        } else {
            b - a <= self.den
        }
    }
}

/// The contrast ratio is symmetric.
pub proof fn lemma_contrast_symmetric(a: Lch, b: Lch)
    requires
        a.wf(),
        b.wf(),
    ensures
        contrast_of(a.l as int, b.l as int) == contrast_of(b.l as int, a.l as int),
{
}

/// The contrast ratio lies in [1, 21], and is 1 between a colour and itself.
pub proof fn lemma_contrast_bounds(a: Lch, b: Lch)
    requires
        a.wf(),
        b.wf(),
    ensures
        contrast_of(a.l as int, b.l as int).den <= contrast_of(a.l as int, b.l as int).num,
        contrast_of(a.l as int, b.l as int).num <= 21 * contrast_of(a.l as int, b.l as int).den,
        contrast_of(a.l as int, a.l as int).num == contrast_of(a.l as int, a.l as int).den,
{
    lemma_luminance_bounds(a.l as int);
    lemma_luminance_bounds(b.l as int);
}

} // verus!
