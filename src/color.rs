//! Colour values and their six-digit hexadecimal text form.
use vstd::prelude::*;

verus! {

/// Fixed-point scale of the cylindrical components: one unit of lightness,
/// chroma or hue is `SCALE` steps.
pub const SCALE: u32 = 10000;

/// An opaque 8-bit-per-channel gamma-encoded sRGB colour.
#[derive(Clone, Copy, Debug, PartialEq, Eq, Structural)]
pub struct SRGB {
    pub red: u8,
    pub green: u8,
    pub blue: u8,
}

/// A colour in cylindrical Lch form, in fixed point: `l` is lightness times
/// `SCALE` (0 to 100), `chroma` is chroma times `SCALE`, `hue` is the angle in
/// degrees times `SCALE` (0 up to, but not including, 360).
#[derive(Clone, Copy, Debug, PartialEq, Eq, Structural)]
pub struct Lch {
    pub l: u32,
    pub chroma: u32,
    pub hue: u32,
}

impl Lch {
    /// Lightness lies in [0, 100] and the hue in [0, 360).
    pub open spec fn wf(&self) -> bool {
        &&& self.l <= 100 * SCALE
        &&& self.hue < 360 * SCALE
    }

    pub fn new(l: u32, chroma: u32, hue: u32) -> (r: Lch)
        requires
            l <= 100 * SCALE,
            hue < 360 * SCALE,
        ensures
            r.wf(),
            r == (Lch { l, chroma, hue }),
    {
        Lch { l, chroma, hue }
    }
}

/// The error of `decode_hex`.
#[derive(Clone, Copy, Debug, PartialEq, Eq, Structural)]
pub enum CodecError {
    InvalidFormat,
}

/// The lowercase hexadecimal digit of `v` (0 to 15).
pub open spec fn hex_digit(v: int) -> char {
    seq!['0', '1', '2', '3', '4', '5', '6', '7', '8', '9', 'a', 'b', 'c', 'd', 'e', 'f'][v]
}

pub open spec fn is_hex_digit(c: char) -> bool {
    ('0' <= c && c <= '9') || ('a' <= c && c <= 'f') || ('A' <= c && c <= 'F')
}

/// The value of a hexadecimal digit, in either case.
pub open spec fn digit_value(c: char) -> int {
    if '0' <= c && c <= '9' {
        c as int - '0' as int
    } else if 'a' <= c && c <= 'f' {
        c as int - 'a' as int + 10
    } else {
        c as int - 'A' as int + 10
    }
}

/// Two lowercase digits per byte, high nibble first.
pub open spec fn hex_of_bytes(b: Seq<u8>) -> Seq<char>
    decreases b.len(),
{
    if b.len() == 0 {
        Seq::empty()
    } else {
        hex_of_bytes(b.drop_last()) + seq![
            hex_digit(b.last() as int / 16),
            hex_digit(b.last() as int % 16),
        ]
    }
}

/// Text of even length made of hexadecimal digits only.
pub open spec fn is_hex_text(s: Seq<char>) -> bool {
    &&& s.len() % 2 == 0
    &&& forall|i: int| 0 <= i < s.len() ==> is_hex_digit(#[trigger] s[i])
}

/// The bytes that a hexadecimal text stands for, two digits each.
pub open spec fn bytes_of_hex(s: Seq<char>) -> Seq<u8> {
    Seq::new(
        s.len() / 2,
        |i: int| (16 * digit_value(s[2 * i]) + digit_value(s[2 * i + 1])) as u8,
    )
}

/// The six-digit lowercase text of a colour: red, green, blue.
pub open spec fn hex_text(c: SRGB) -> Seq<char> {
    seq![
        hex_digit(c.red as int / 16),
        hex_digit(c.red as int % 16),
        hex_digit(c.green as int / 16),
        hex_digit(c.green as int % 16),
        hex_digit(c.blue as int / 16),
        hex_digit(c.blue as int % 16),
    ]
}

/// The colour that a six-digit hexadecimal text stands for.
pub open spec fn color_of_hex(s: Seq<char>) -> SRGB {
    SRGB {
        red: (16 * digit_value(s[0]) + digit_value(s[1])) as u8,
        green: (16 * digit_value(s[2]) + digit_value(s[3])) as u8,
        blue: (16 * digit_value(s[4]) + digit_value(s[5])) as u8,
    }
}

#[verifier::external_type_specification]
#[verifier::external_body]
pub struct ExFromHexError(hex::FromHexError);

/// Relies on hex::encode: each byte becomes two lowercase digits, high nibble
/// first.
#[verifier::external_body]
fn hex_encode(b: &Vec<u8>) -> (r: String)
    ensures
        r@ == hex_of_bytes(b@),
{
    hex::encode(b)
}

/// Relies on hex::decode: it succeeds exactly on text of even length made of
/// digits of either case, and then yields one byte per pair of digits.
#[verifier::external_body]
fn hex_decode(s: &str) -> (r: Result<Vec<u8>, hex::FromHexError>)
    ensures
        r is Ok <==> is_hex_text(s@),
        r is Ok ==> r->Ok_0@ == bytes_of_hex(s@),
{
    hex::decode(s)
}

/// Six lowercase hexadecimal digits, `rrggbb`, with no leading symbol.
pub fn hex_from_rgba(c: SRGB) -> (r: String)
    ensures
        r@ == hex_text(c),
{
    let b: Vec<u8> = vec![c.red, c.green, c.blue];
    let r = hex_encode(&b);
    proof {
        reveal_with_fuel(hex_of_bytes, 4);
        assert(b@.drop_last().drop_last().drop_last() =~= Seq::<u8>::empty());
        assert(r@ =~= hex_text(c));
    }
    r
}

/// Reads six hexadecimal digits (either case) as a colour.
pub fn decode_hex(s: &str) -> (r: Result<SRGB, CodecError>)
    ensures
        r is Ok <==> (s@.len() == 6 && is_hex_text(s@)),
        r is Ok ==> r->Ok_0 == color_of_hex(s@),
        r is Err ==> r == Err::<SRGB, CodecError>(CodecError::InvalidFormat),
{
    match hex_decode(s) {
        Ok(v) => {
            if v.len() != 3 {
                Err(CodecError::InvalidFormat)
            } else {
                Ok(SRGB { red: v[0], green: v[1], blue: v[2] })
            }
        },
        Err(_) => Err(CodecError::InvalidFormat),
    }
}

/// Decoding the text of a colour gives that colour back.
pub proof fn lemma_hex_round_trip(c: SRGB)
    ensures
        hex_text(c).len() == 6,
        is_hex_text(hex_text(c)),
        color_of_hex(hex_text(c)) == c,
{
    lemma_digit_round_trip(c.red as int / 16);
    lemma_digit_round_trip(c.red as int % 16);
    lemma_digit_round_trip(c.green as int / 16);
    lemma_digit_round_trip(c.green as int % 16);
    lemma_digit_round_trip(c.blue as int / 16);
    lemma_digit_round_trip(c.blue as int % 16);
    let t = hex_text(c);
    assert forall|i: int| 0 <= i < t.len() implies is_hex_digit(#[trigger] t[i]) by {
        if i == 0 || i == 1 || i == 2 || i == 3 || i == 4 || i == 5 {
        }
    }
}

proof fn lemma_digit_round_trip(d: int)
    requires
        0 <= d < 16,
    ensures
        is_hex_digit(hex_digit(d)),
        digit_value(hex_digit(d)) == d,
{
}

} // verus!
