use hue_chroma_accent::color::{hex_from_rgba, Lch, SRGB};
use hue_chroma_accent::contrast::contrast_ratio;
use hue_chroma_accent::theme::{synthesize, AccentPalette, Mode, SynthesisError, ThemeColor};

fn rgb(red: u8, green: u8, blue: u8) -> SRGB {
    SRGB { red, green, blue }
}

fn entry(name: &str, v: u8, chroma: u32, hue: u32) -> AccentPalette {
    AccentPalette {
        name: name.to_string(),
        accent_color: rgb(v, 0, 0),
        accent_color_bg: rgb(0, v, 0),
        accent_color_fg: rgb(0, 0, v),
        accent_color_bg_lch: Lch { l: 500000, chroma: chroma * 10000, hue: hue * 10000 },
    }
}

fn ratio(a: &Lch, b: &Lch) -> f64 {
    let c = contrast_ratio(a, b);
    c.num as f64 / c.den as f64
}

#[test]
fn dark_derived_theme() {
    let base = Lch { l: 600000, chroma: 500000, hue: 2500000 };
    let out = synthesize(&base, Mode::Dark, false, &vec![]).unwrap();
    assert_eq!(out.foreground, ThemeColor::Srgb(rgb(255, 255, 255)));
    if let ThemeColor::Srgb(c) = out.foreground {
        assert_eq!(hex_from_rgba(c), "ffffff");
    }
    let forced = Lch { l: 0, ..base };
    match out.background {
        ThemeColor::Cylindrical(c) => {
            assert!((ratio(&forced, &c) - 5.0).abs() < 1e-3);
            assert_eq!((c.chroma, c.hue), (base.chroma, base.hue));
        }
        other => panic!("{other:?}"),
    }
    match out.accent {
        ThemeColor::Cylindrical(c) => assert!((ratio(&forced, &c) - 15.0).abs() < 1e-3),
        other => panic!("{other:?}"),
    }
}

#[test]
fn light_derived_theme() {
    let base = Lch { l: 300000, chroma: 200000, hue: 100000 };
    let out = synthesize(&base, Mode::Light, false, &vec![]).unwrap();
    assert_eq!(out.foreground, ThemeColor::Srgb(rgb(0, 0, 0)));
    let forced = Lch { l: 1_000_000, ..base };
    match (out.accent, out.background) {
        (ThemeColor::Cylindrical(a), ThemeColor::Cylindrical(b)) => {
            assert!((ratio(&forced, &a) - 7.0).abs() < 1e-3);
            assert!((ratio(&forced, &b) - 1.1).abs() < 1e-3);
        }
        other => panic!("{other:?}"),
    }
}

#[test]
fn palette_theme_uses_nearest_entry() {
    let palette = vec![entry("RED", 10, 70, 0), entry("GREEN", 20, 70, 140), entry("BLUE", 30, 70, 260)];
    let base = Lch { l: 500000, chroma: 700000, hue: 1350000 };
    let out = synthesize(&base, Mode::Light, true, &palette).unwrap();
    assert_eq!(out.accent, ThemeColor::Srgb(rgb(20, 0, 0)));
    assert_eq!(out.background, ThemeColor::Srgb(rgb(0, 20, 0)));
    assert_eq!(out.foreground, ThemeColor::Srgb(rgb(0, 0, 20)));
}

#[test]
fn empty_palette_is_reported() {
    let base = Lch { l: 500000, chroma: 700000, hue: 0 };
    assert_eq!(synthesize(&base, Mode::Dark, true, &vec![]), Err(SynthesisError::EmptyPalette));
}
