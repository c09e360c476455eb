use hue_chroma_accent::color::Lch;
use hue_chroma_accent::contrast::{contrast_ratio, relative_luminance, LUMA_DEN};

fn grey(l: u32) -> Lch {
    Lch { l, chroma: 0, hue: 0 }
}

fn ratio(a: u32, b: u32) -> f64 {
    let c = contrast_ratio(&grey(a), &grey(b));
    c.num as f64 / c.den as f64
}

#[test]
fn black_on_white_is_twenty_one() {
    let c = contrast_ratio(&grey(0), &grey(1_000_000));
    assert_eq!(c.num, 21 * LUMA_DEN);
    assert_eq!(c.den, LUMA_DEN);
}

#[test]
fn luminance_formula() {
    assert_eq!(relative_luminance(0), 0);
    assert_eq!(relative_luminance(1_000_000), LUMA_DEN);
    // the two pieces meet at lightness 8
    assert_eq!(relative_luminance(80000), 240000u128 * 240000 * 240000);
    assert_eq!(relative_luminance(10000), 1728u128 * 10000 * 10000 * 10000);
    // lightness 50: ((50 + 16) / 116)^3
    assert_eq!(relative_luminance(500000), 660000u128 * 660000 * 660000);
}

#[test]
fn contrast_is_symmetric() {
    for (a, b) in [(0, 1_000_000), (123456, 654321), (500000, 20000), (80000, 80001)] {
        assert_eq!(contrast_ratio(&grey(a), &grey(b)), contrast_ratio(&grey(b), &grey(a)));
    }
}

#[test]
fn contrast_stays_between_one_and_twenty_one() {
    for a in (0..=1_000_000u32).step_by(62_500) {
        for b in (0..=1_000_000u32).step_by(71_111) {
            let c = contrast_ratio(&grey(a), &grey(b));
            assert!(c.den <= c.num && c.num <= 21 * c.den);
        }
        let same = contrast_ratio(&grey(a), &grey(a));
        assert_eq!(same.num, same.den);
    }
}

#[test]
fn contrast_of_mid_grey_against_black() {
    // ((66/116)^3 + 0.05) / 0.05
    let expected = ((66.0f64 / 116.0).powi(3) + 0.05) / 0.05;
    assert!((ratio(500000, 0) - expected).abs() < 1e-9);
}

#[test]
fn meets_checks_tolerance() {
    let c = contrast_ratio(&grey(0), &grey(1_000_000));
    assert!(c.meets(21000));
    assert!(!c.meets(20998));
    assert!(!c.meets(21002));
}
