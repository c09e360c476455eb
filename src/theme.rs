//! The accent, background and foreground colours of a theme, from a base
//! colour: snapped to a named palette, or derived for contrast.
use vstd::prelude::*;
use crate::color::{Lch, SCALE, SRGB};
use crate::derive::{derive_color, derived, ContrastTarget, Direction};
use crate::matcher::{all_wf, is_nearest, nearest_entry};

verus! {

#[derive(Clone, Copy, Debug, PartialEq, Eq, Structural)]
pub enum Mode {
    Light,
    Dark,
}

/// A named swatch: an accent colour with its background and foreground, and
/// the background in cylindrical form for matching.
#[derive(Debug)]
pub struct AccentPalette {
    pub name: String,
    pub accent_color: SRGB,
    pub accent_color_bg: SRGB,
    pub accent_color_fg: SRGB,
    pub accent_color_bg_lch: Lch,
}

/// A colour of the output, either already in sRGB or still in cylindrical
/// form.
#[derive(Clone, Copy, Debug, PartialEq, Eq, Structural)]
pub enum ThemeColor {
    Srgb(SRGB),
    Cylindrical(Lch),
}

#[derive(Clone, Copy, Debug, PartialEq, Eq, Structural)]
pub struct ThemeOutput {
    pub accent: ThemeColor,
    pub background: ThemeColor,
    pub foreground: ThemeColor,
}

/// The error of `synthesize`.
#[derive(Clone, Copy, Debug, PartialEq, Eq, Structural)]
pub enum SynthesisError {
    /// A palette was asked for, and it has no entries.
    EmptyPalette,
}

pub open spec fn backgrounds(p: Seq<AccentPalette>) -> Seq<Lch> {
    p.map_values(|e: AccentPalette| e.accent_color_bg_lch)
}

pub open spec fn palette_wf(p: Seq<AccentPalette>) -> bool {
    all_wf(backgrounds(p))
}

/// The base with its lightness forced to the worst case of the mode: the
/// least for dark, the most for light.
pub open spec fn forced_base(base: Lch, mode: Mode) -> Lch {
    Lch { l: if mode == Mode::Dark { 0 } else { (100 * SCALE) as u32 }, ..base }
}

/// White text on dark themes, black on light ones.
pub open spec fn fixed_foreground(mode: Mode) -> SRGB {
    if mode == Mode::Dark {
        SRGB { red: 255, green: 255, blue: 255 }
    } else {
        SRGB { red: 0, green: 0, blue: 0 }
    }
}

/// Contrast (thousandths) asked of the accent: 15 on dark, 7 on light.
pub open spec fn accent_target(mode: Mode) -> u32 {
    if mode == Mode::Dark { 15000 } else { 7000 }
}

/// Contrast (thousandths) asked of the background: 5 on dark, 1.1 on light.
pub open spec fn background_target(mode: Mode) -> u32 {
    if mode == Mode::Dark { 5000 } else { 1100 }
}

pub open spec fn unconstrained(ratio_milli: u32) -> ContrastTarget {
    ContrastTarget { ratio_milli, direction: Direction::Unconstrained }
}

/// The theme derived from `base`: the accent falls back to the fixed
/// foreground and the background to the forced base where no colour meets
/// the contrast asked.
pub open spec fn derived_theme(base: Lch, mode: Mode) -> ThemeOutput {
    let f = forced_base(base, mode);
    let accent = match derived(f, unconstrained(accent_target(mode))) {
        Ok(c) => ThemeColor::Cylindrical(c),
        Err(_) => ThemeColor::Srgb(fixed_foreground(mode)),
    };
    let background = match derived(f, unconstrained(background_target(mode))) {
        Ok(c) => ThemeColor::Cylindrical(c),
        Err(_) => ThemeColor::Cylindrical(f),
    };
    ThemeOutput { accent, background, foreground: ThemeColor::Srgb(fixed_foreground(mode)) }
}

/// The three colours of a palette entry, as they are.
pub open spec fn palette_theme(e: AccentPalette) -> ThemeOutput {
    ThemeOutput {
        accent: ThemeColor::Srgb(e.accent_color),
        background: ThemeColor::Srgb(e.accent_color_bg),
        foreground: ThemeColor::Srgb(e.accent_color_fg),
    }
}

fn background_forms(palette: &Vec<AccentPalette>) -> (r: Vec<Lch>)
    ensures
        r@ == backgrounds(palette@),
{
    let mut r: Vec<Lch> = Vec::new();
    let mut i: usize = 0;
    while i < palette.len()
        invariant
            i <= palette@.len(),
            r@ == backgrounds(palette@).take(i as int),
        decreases palette@.len() - i,
    {
        r.push(palette[i].accent_color_bg_lch);
        i = i + 1;
        assert(r@ =~= backgrounds(palette@).take(i as int));
    }
    assert(r@ =~= backgrounds(palette@));
    r
}

/// The theme of `base` in `mode`: with `use_palette`, the colours of the
/// palette entry nearest to `base`; otherwise colours derived for contrast
/// against `base` at the mode's worst-case lightness.
pub fn synthesize(base: &Lch, mode: Mode, use_palette: bool, palette: &Vec<AccentPalette>) -> (r: Result<ThemeOutput, SynthesisError>)
    requires
        base.wf(),
        palette_wf(palette@),
    ensures
        !use_palette ==> r == Ok::<ThemeOutput, SynthesisError>(derived_theme(*base, mode)),
        use_palette ==> (r is Err <==> palette@.len() == 0),
        r is Err ==> r == Err::<ThemeOutput, SynthesisError>(SynthesisError::EmptyPalette),
        use_palette && r is Ok ==> exists|i: int|
            is_nearest(*base, backgrounds(palette@), i) && r->Ok_0 == palette_theme(#[trigger] palette@[i]),
{
    if use_palette {
        let forms = background_forms(palette);
        match nearest_entry(base, &forms) {
            Ok(i) => {
                let e = &palette[i];
                let out = ThemeOutput {
                    accent: ThemeColor::Srgb(e.accent_color),
                    background: ThemeColor::Srgb(e.accent_color_bg),
                    foreground: ThemeColor::Srgb(e.accent_color_fg),
                };
                assert(out == palette_theme(palette@[i as int]));
                Ok(out)
            },
            Err(_) => Err(SynthesisError::EmptyPalette),
        }
    } else {
        let dark = match mode {
            Mode::Dark => true,
            Mode::Light => false,
        };
        let forced = Lch { l: if dark { 0 } else { 100 * SCALE }, ..*base };
        let (fg, fg_target, bg_target) = if dark {
            (SRGB { red: 255, green: 255, blue: 255 }, 15000, 5000)
        } else {
            (SRGB { red: 0, green: 0, blue: 0 }, 7000, 1100)
        };
        let accent = match derive_color(
            &forced,
            Some(ContrastTarget { ratio_milli: fg_target, direction: Direction::Unconstrained }),
        ) {
            Ok(c) => ThemeColor::Cylindrical(c),
            Err(_) => ThemeColor::Srgb(fg),
        };
        let background = match derive_color(
            &forced,
            Some(ContrastTarget { ratio_milli: bg_target, direction: Direction::Unconstrained }),
        ) {
            Ok(c) => ThemeColor::Cylindrical(c),
            Err(_) => ThemeColor::Cylindrical(forced),
        };
        Ok(ThemeOutput { accent, background, foreground: ThemeColor::Srgb(fg) })
    }
}

} // verus!
