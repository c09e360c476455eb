use hue_chroma_accent::color::{decode_hex, hex_from_rgba, CodecError, Lch, SRGB};

fn rgb(red: u8, green: u8, blue: u8) -> SRGB {
    SRGB { red, green, blue }
}

#[test]
fn encodes_six_lowercase_digits() {
    assert_eq!(hex_from_rgba(rgb(0x12, 0xab, 0xff)), "12abff");
    assert_eq!(hex_from_rgba(rgb(0, 0, 0)), "000000");
    assert_eq!(hex_from_rgba(rgb(255, 255, 255)), "ffffff");
    assert_eq!(hex_from_rgba(rgb(0x0a, 0xb0, 0x01)), "0ab001");
}

#[test]
fn decodes_either_case() {
    assert_eq!(decode_hex("12abff"), Ok(rgb(0x12, 0xab, 0xff)));
    assert_eq!(decode_hex("12ABfF"), Ok(rgb(0x12, 0xab, 0xff)));
    assert_eq!(decode_hex("000000"), Ok(rgb(0, 0, 0)));
}

#[test]
fn rejects_malformed_text() {
    for s in ["", "12345", "1234567", "12345g", "#12345", "12 45f", "1234", "12345678", "é2345"] {
        assert_eq!(decode_hex(s), Err(CodecError::InvalidFormat), "{s}");
    }
}

#[test]
fn hex_round_trip_is_exact() {
    for v in (0..=255u32).step_by(3) {
        let c = rgb(v as u8, (255 - v) as u8, (v * 7 % 256) as u8);
        assert_eq!(decode_hex(&hex_from_rgba(c)), Ok(c));
    }
}

#[test]
fn lch_new_keeps_components() {
    let c = Lch::new(500000, 700000, 50000);
    assert_eq!((c.l, c.chroma, c.hue), (500000, 700000, 50000));
}
