//! Derivation of a colour that reaches a target contrast against a base
//! colour, by bisection over lightness.
use vstd::prelude::*;
use crate::color::{Lch, SCALE};
use crate::contrast::{contrast_of, contrast_ratio, meets, Contrast, LUMA_DEN};

verus! {

/// Number of bisection steps.
pub const STEPS: u32 = 100;

/// Which side of the base lightness the search may go to.
#[derive(Clone, Copy, Debug, PartialEq, Eq, Structural)]
pub enum Direction {
    Lighten,
    Darken,
    Unconstrained,
}

/// A contrast ratio to reach, in thousandths (1000 to 21000), and where the
/// search may look.
#[derive(Clone, Copy, Debug, PartialEq, Eq, Structural)]
pub struct ContrastTarget {
    pub ratio_milli: u32,
    pub direction: Direction,
}

/// The error of `derive_color`.
#[derive(Clone, Copy, Debug, PartialEq, Eq, Structural)]
pub enum DerivationError {
    /// The search ended on a colour whose contrast against the base misses
    /// the target.
    ContrastUnreachable { target_milli: u32, achieved: Contrast },
}

pub open spec fn black() -> Lch {
    Lch { l: 0, chroma: 0, hue: 0 }
}

pub open spec fn white() -> Lch {
    Lch { l: (100 * SCALE) as u32, chroma: 0, hue: 0 }
}

/// Lower end of the lightness range searched from `base_l`.
pub open spec fn range_lo(base_l: int, d: Direction) -> int {
    match d {
        Direction::Lighten => base_l,
        _ => 0,
    }
}

/// Upper end of the lightness range searched from `base_l`.
pub open spec fn range_hi(base_l: int, d: Direction) -> int {
    match d {
        Direction::Darken => base_l,
        _ => 100 * SCALE,
    }
}

/// The ratio `c` is below the target `t / 1000`.
pub open spec fn below_target(c: Contrast, t: int) -> bool {
    t * c.den > 1000 * c.num
}

/// Whether the search goes on in the upper half after probing `mid`: a
/// candidate lighter than the base that needs more contrast, or one no
/// lighter than the base that needs less.
pub open spec fn goes_up(base_l: int, mid: int, c: Contrast, t: int) -> bool {
    let lighter = base_l < mid;
    let more = below_target(c, t);
    (lighter && more) || (!lighter && !more)
}

/// The lightness that `n` bisection steps over `[lo, hi]` end on, starting
/// from candidate lightness `cand`: a probe that meets the target ends the
/// search at once.
pub open spec fn bisect(base_l: int, lo: int, hi: int, t: int, n: nat, cand: int) -> int
    decreases n,
{
    if n == 0 {
        cand
    } else {
        let mid = (lo + hi) / 2;
        let c = contrast_of(base_l, mid);
        if meets(c, t) {
            mid
        } else if goes_up(base_l, mid, c, t) {
            bisect(base_l, mid, hi, t, (n - 1) as nat, mid)
        } else {
            bisect(base_l, lo, mid, t, (n - 1) as nat, mid)
        }
    }
}

/// The outcome of deriving from `base` towards `target`.
pub open spec fn derived(base: Lch, target: ContrastTarget) -> Result<Lch, DerivationError> {
    let b = base.l as int;
    let t = target.ratio_milli as int;
    let l = bisect(b, range_lo(b, target.direction), range_hi(b, target.direction), t, STEPS as nat, b);
    let c = contrast_of(b, l);
    if meets(c, t) {
        Ok(Lch { l: l as u32, ..base })
    } else {
        Err(DerivationError::ContrastUnreachable { target_milli: target.ratio_milli, achieved: c })
    }
}

/// A derivation either fails with `ContrastUnreachable` or yields a colour
/// of the base's chroma and hue, inside the target's range, whose contrast
/// against the base is the target's within 1/10000.
pub proof fn lemma_derivation_contract(base: Lch, target: ContrastTarget)
    requires
        base.wf(),
    ensures
        derived(base, target) is Err ==> derived(base, target)->Err_0 is ContrastUnreachable,
        derived(base, target) is Ok ==> {
            let c = derived(base, target)->Ok_0;
            &&& c.wf()
            &&& meets(contrast_of(base.l as int, c.l as int), target.ratio_milli as int)
            &&& range_lo(base.l as int, target.direction) <= c.l <= range_hi(base.l as int, target.direction)
            &&& c.chroma == base.chroma
            &&& c.hue == base.hue
        },
{
    let b = base.l as int;
    lemma_bisect_in_range(
        b,
        range_lo(b, target.direction),
        range_hi(b, target.direction),
        target.ratio_milli as int,
        STEPS as nat,
        b,
    );
}

/// The search stays in its range.
proof fn lemma_bisect_in_range(base_l: int, lo: int, hi: int, t: int, n: nat, cand: int)
    requires
        lo <= hi,
        lo <= cand <= hi,
    ensures
        lo <= bisect(base_l, lo, hi, t, n, cand) <= hi,
    decreases n,
{
    if n > 0 {
        let mid = (lo + hi) / 2;
        lemma_bisect_in_range(base_l, mid, hi, t, (n - 1) as nat, mid);
        lemma_bisect_in_range(base_l, lo, mid, t, (n - 1) as nat, mid);
    }
}

proof fn lemma_contrast_bounded(a: int, b: int)
    requires
        0 <= a <= 100 * SCALE,
        0 <= b <= 100 * SCALE,
    ensures
        contrast_of(a, b).num <= 21 * LUMA_DEN,
        contrast_of(a, b).den <= 21 * LUMA_DEN,
{
    crate::contrast::lemma_luminance_bounds(a);
    crate::contrast::lemma_luminance_bounds(b);
}

fn is_below_target(c: &Contrast, t: u32) -> (r: bool)
    requires
        c.num <= 21 * LUMA_DEN,
        c.den <= 21 * LUMA_DEN,
    ensures
        r == below_target(*c, t as int),
{
    assert(t as u128 * c.den <= 0xffff_ffff * (21 * LUMA_DEN)) by (nonlinear_arith)
        requires
            t <= 0xffff_ffff,
            c.den <= 21 * LUMA_DEN,
    ;
    t as u128 * c.den > 1000 * c.num
}

/// A colour of the base's chroma and hue whose contrast against the base is
/// the target's within 1/10000, found by bisection over lightness in the
/// target's range. With no target: black on a base lighter than 50, white
/// otherwise.
pub fn derive_color(base: &Lch, target: Option<ContrastTarget>) -> (r: Result<Lch, DerivationError>)
    requires
        base.wf(),
    ensures
        target is None ==> r == Ok::<Lch, DerivationError>(
            if base.l > 50 * SCALE { black() } else { white() },
        ),
        target is Some ==> r == derived(*base, target->Some_0),
        r is Ok ==> r->Ok_0.wf(),
        target is Some && r is Ok ==> {
            let t = target->Some_0;
            let c = r->Ok_0;
            &&& meets(contrast_of(base.l as int, c.l as int), t.ratio_milli as int)
            &&& range_lo(base.l as int, t.direction) <= c.l <= range_hi(base.l as int, t.direction)
            &&& c.chroma == base.chroma
            &&& c.hue == base.hue
        },
{
    match target {
        None => {
            if base.l > 50 * SCALE {
                Ok(Lch { l: 0, chroma: 0, hue: 0 })
            } else {
                Ok(Lch { l: 100 * SCALE, chroma: 0, hue: 0 })
            }
        },
        Some(t) => {
            let ghost b = base.l as int;
            let goal = t.ratio_milli;
            let (lo0, hi0): (u32, u32) = match t.direction {
                Direction::Lighten => (base.l, 100 * SCALE),
                Direction::Darken => (0, base.l),
                Direction::Unconstrained => (0, 100 * SCALE),
            };
            let ghost whole = bisect(b, lo0 as int, hi0 as int, goal as int, STEPS as nat, b);
            let mut lo: u32 = lo0;
            let mut hi: u32 = hi0;
            let mut cand: Lch = *base;
            let mut i: u32 = 0;
            while i < STEPS
                invariant
                    base.wf(),
                    b == base.l,
                    i <= STEPS,
                    lo0 <= lo <= hi <= hi0 <= 100 * SCALE,
                    cand.wf(),
                    cand.chroma == base.chroma,
                    cand.hue == base.hue,
                    bisect(b, lo as int, hi as int, goal as int, (STEPS - i) as nat, cand.l as int) == whole,
                ensures
                    cand.wf(),
                    cand.chroma == base.chroma,
                    cand.hue == base.hue,
                    cand.l == whole,
                decreases STEPS - i,
            {
                let mid: u32 = lo + (hi - lo) / 2;
                assert(mid == (lo as int + hi as int) / 2);
                cand.l = mid;
                let c = contrast_ratio(base, &cand);
                proof {
                    lemma_contrast_bounded(b, mid as int);
                }
                if c.meets(goal) {
                    break;
                }
                let lighter = base.l < mid;
                let more = is_below_target(&c, goal);
                if (lighter && more) || (!lighter && !more) {
                    lo = mid;
                } else {
                    hi = mid;
                }
                i = i + 1;
            }
            proof {
                lemma_bisect_in_range(b, lo0 as int, hi0 as int, goal as int, STEPS as nat, b);
                lemma_contrast_bounded(b, cand.l as int);
            }
            let achieved = contrast_ratio(base, &cand);
            if achieved.meets(goal) {
                Ok(cand)
            } else {
                Err(DerivationError::ContrastUnreachable { target_milli: goal, achieved })
            }
        },
    }
}

} // verus!
