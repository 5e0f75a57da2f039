//! RGB colors and their packed and textual forms.

use vstd::prelude::*;
use vstd::string::StringSliceAdditionalSpecFns;
use vstd::utf8::{encode_utf8, is_ascii_chars, is_ascii_chars_encode_utf8};

use crate::text::{
    ascii_chars, hex_byte, hex_digit, hex_digit_of, hex_value, hex_value_of, is_ascii_bytes,
    string_from_ascii,
};

verus! {

/// Color data represented as red, green, and blue channels each having a depth of 8 bits.
#[derive(Debug, Copy, Clone, PartialEq, Eq, Structural, Hash)]
pub struct Color(pub u8, pub u8, pub u8);

/// Why a byte slice is no color.
#[derive(Debug, Copy, Clone, PartialEq, Eq, Structural)]
pub enum ColorError {
    /// A color is made from exactly three channel bytes.
    WrongLength,
}

/// The packed form `0x00RRGGBB`.
pub open spec fn packed(c: Color) -> u32 {
    (c.0 as int * 65536 + c.1 as int * 256 + c.2 as int) as u32
}

/// The color held by the three low bytes of `0x__RRGGBB`.
pub open spec fn unpacked(v: u32) -> Color {
    Color(((v / 65536) % 256) as u8, ((v / 256) % 256) as u8, (v % 256) as u8)
}

/// The six upper-case hex digits `RRGGBB`.
pub open spec fn hex_text(c: Color) -> Seq<u8> {
    hex_byte(c.0) + hex_byte(c.1) + hex_byte(c.2)
}

/// The text form `#RRGGBB`.
pub open spec fn color_text(c: Color) -> Seq<u8> {
    seq![35u8] + hex_text(c)
}

/// The color written by six hex digits of either case.
pub open spec fn parse_hex_color(s: Seq<u8>) -> Option<Color> {
    if s.len() == 6 && hex_value(s[0]) is Some && hex_value(s[1]) is Some && hex_value(
        s[2],
    ) is Some && hex_value(s[3]) is Some && hex_value(s[4]) is Some && hex_value(s[5]) is Some {
        Some(
            Color(
                (hex_value(s[0])->0 * 16 + hex_value(s[1])->0) as u8,
                (hex_value(s[2])->0 * 16 + hex_value(s[3])->0) as u8,
                (hex_value(s[4])->0 * 16 + hex_value(s[5])->0) as u8,
            ),
        )
    } else {
        None
    }
}

/// The color written as `#` followed by six hex digits.
pub open spec fn parse_color_text(s: Seq<u8>) -> Option<Color> {
    if s.len() == 7 && s[0] == 35 {
        parse_hex_color(s.drop_first())
    } else {
        None
    }
}

fn hex_pair(hi: u8, lo: u8) -> (r: Option<u8>)
    ensures
        r is Some <==> hex_value(hi) is Some && hex_value(lo) is Some,
        r is Some ==> r->0 == hex_value(hi)->0 * 16 + hex_value(lo)->0,
{
    match (hex_value_of(hi), hex_value_of(lo)) {
        (Some(h), Some(l)) => Some(h * 16 + l),
        _ => None,
    }
}

fn push_hex_byte(out: &mut Vec<u8>, b: u8)
    ensures
        final(out)@ == old(out)@ + hex_byte(b),
{
    out.push(hex_digit_of(b / 16));
    out.push(hex_digit_of(b % 16));
    assert(final(out)@ =~= old(out)@ + hex_byte(b));
}

proof fn lemma_hex_text_ascii(c: Color)
    ensures
        is_ascii_bytes(color_text(c)),
        color_text(c).len() == 7,
{
    assert(forall|n: u8| n < 16 ==> #[trigger] hex_digit(n) < 128);
}

impl Color {
    /// Color from the packed form `0x__RRGGBB`; the highest byte is ignored.
    pub fn from_u32(src: u32) -> (r: Color)
        ensures
            r == unpacked(src),
    {
        Color((src / 65536 % 256) as u8, (src / 256 % 256) as u8, (src % 256) as u8)
    }

    /// The packed form `0x00RRGGBB`.
    pub fn to_u32(&self) -> (r: u32)
        ensures
            r == packed(*self),
    {
        (self.0 as u32) * 65536 + (self.1 as u32) * 256 + (self.2 as u32)
    }

    /// Color from a slice of exactly three channel bytes.
    pub fn try_from_slice(value: &[u8]) -> (r: Result<Color, ColorError>)
        ensures
            value@.len() == 3 ==> r == Ok::<Color, ColorError>(
                Color(value@[0], value@[1], value@[2]),
            ),
            value@.len() != 3 ==> r == Err::<Color, ColorError>(ColorError::WrongLength),
    {
        if value.len() == 3 {
            Ok(Color(value[0], value[1], value[2]))
        } else {
            Err(ColorError::WrongLength)
        }
    }

    /// The channels as a byte vector `[R, G, B]`.
    pub fn to_vec(&self) -> (r: Vec<u8>)
        ensures
            r@ == seq![self.0, self.1, self.2],
    {
        let mut v: Vec<u8> = Vec::new();
        v.push(self.0);
        v.push(self.1);
        v.push(self.2);
        assert(v@ =~= seq![self.0, self.1, self.2]);
        v
    }

    /// The six upper-case hex digits `RRGGBB` as bytes.
    pub fn hex_bytes(&self) -> (r: Vec<u8>)
        ensures
            r@ == hex_text(*self),
    {
        let mut v: Vec<u8> = Vec::new();
        push_hex_byte(&mut v, self.0);
        push_hex_byte(&mut v, self.1);
        push_hex_byte(&mut v, self.2);
        assert(v@ =~= hex_text(*self));
        v
    }

    /// The text form `#RRGGBB`, upper case.
    pub fn to_string(&self) -> (r: String)
        ensures
            r@ == ascii_chars(color_text(*self)),
    {
        let mut v: Vec<u8> = Vec::new();
        v.push(35);
        push_hex_byte(&mut v, self.0);
        push_hex_byte(&mut v, self.1);
        push_hex_byte(&mut v, self.2);
        assert(v@ =~= color_text(*self));
        proof {
            lemma_hex_text_ascii(*self);
        }
        string_from_ascii(v)
    }

    /// The six upper-case hex digits `RRGGBB`, without the leading `#`.
    pub fn to_upper_hex(&self) -> (r: String)
        ensures
            r@ == ascii_chars(hex_text(*self)),
    {
        let v = self.hex_bytes();
        proof {
            lemma_hex_text_ascii(*self);
            assert(hex_text(*self) =~= color_text(*self).drop_first());
        }
        string_from_ascii(v)
    }

    /// Color from six hex digits of either case.
    pub fn parse_hex(s: &[u8]) -> (r: Option<Color>)
        ensures
            r == parse_hex_color(s@),
    {
        if s.len() != 6 {
            return None;
        }
        match (hex_pair(s[0], s[1]), hex_pair(s[2], s[3]), hex_pair(s[4], s[5])) {
            (Some(r), Some(g), Some(b)) => Some(Color(r, g, b)),
            _ => None,
        }
    }

    /// Color from its text form: `#` followed by six hex digits of either case.
    pub fn parse(s: &str) -> (r: Option<Color>)
        ensures
            r == parse_color_text(s.spec_bytes()),
    {
        let b = s.as_bytes();
        if b.len() != 7 || b[0] != 35 {
            return None;
        }
        let mut digits: Vec<u8> = Vec::new();
        let mut i: usize = 1;
        while i < 7
            invariant
                b@.len() == 7,
                1 <= i <= 7,
                digits@ =~= b@.subrange(1, i as int),
            decreases 7 - i,
        {
            digits.push(b[i]);
            i = i + 1;
        }
        assert(digits@ =~= b@.drop_first());
        Color::parse_hex(digits.as_slice())
    }
}

impl Default for Color {
    /// Black.
    fn default() -> (r: Color)
        ensures
            r == Color(0, 0, 0),
    {
        Color(0, 0, 0)
    }
}

impl From<[u8; 3]> for Color {
    /// Color from the channels `[R, G, B]`.
    fn from(data: [u8; 3]) -> (r: Color) {
        Color(data[0], data[1], data[2])
    }
}

impl vstd::std_specs::convert::FromSpecImpl<[u8; 3]> for Color {
    open spec fn obeys_from_spec() -> bool {
        true
    }

    open spec fn from_spec(data: [u8; 3]) -> Color {
        Color(data@[0], data@[1], data@[2])
    }
}

impl From<u32> for Color {
    /// Color from the packed form `0x__RRGGBB`; the highest byte is ignored.
    fn from(src: u32) -> (r: Color) {
        Color::from_u32(src)
    }
}

impl vstd::std_specs::convert::FromSpecImpl<u32> for Color {
    open spec fn obeys_from_spec() -> bool {
        true
    }

    open spec fn from_spec(src: u32) -> Color {
        unpacked(src)
    }
}

impl From<Color> for u32 {
    /// The packed form `0x00RRGGBB`.
    fn from(value: Color) -> (r: u32) {
        value.to_u32()
    }
}

impl vstd::std_specs::convert::FromSpecImpl<Color> for u32 {
    open spec fn obeys_from_spec() -> bool {
        true
    }

    open spec fn from_spec(value: Color) -> u32 {
        packed(value)
    }
}

impl From<Color> for [u8; 3] {
    /// The channels `[R, G, B]`.
    fn from(value: Color) -> (r: [u8; 3]) {
        [value.0, value.1, value.2]
    }
}

impl vstd::std_specs::convert::FromSpecImpl<Color> for [u8; 3] {
    open spec fn obeys_from_spec() -> bool {
        true
    }

    open spec fn from_spec(value: Color) -> [u8; 3] {
        [value.0, value.1, value.2]
    }
}

/// A color's text form reads back as the same color.
pub proof fn lemma_color_text_round_trip(c: Color)
    ensures
        parse_color_text(color_text(c)) == Some(c),
        parse_hex_color(hex_text(c)) == Some(c),
{
    assert(forall|n: u8| n < 16 ==> #[trigger] hex_value(hex_digit(n)) == Some(n));
    let t = color_text(c);
    assert(t.drop_first() =~= hex_text(c));
    assert(c.0 / 16 * 16 + c.0 % 16 == c.0);
    assert(c.1 / 16 * 16 + c.1 % 16 == c.1);
    assert(c.2 / 16 * 16 + c.2 % 16 == c.2);
}

/// The string that `to_string` gives reads back through `parse` as the same color.
pub proof fn lemma_color_string_round_trip(c: Color)
    ensures
        parse_color_text(encode_utf8(ascii_chars(color_text(c)))) == Some(c),
{
    lemma_hex_text_ascii(c);
    let t = color_text(c);
    let chars = ascii_chars(t);
    assert(is_ascii_chars(chars));
    is_ascii_chars_encode_utf8(chars);
    assert(encode_utf8(chars) =~= t);
    lemma_color_text_round_trip(c);
}

/// The packed form `0x00RRGGBB` unpacks to the same color.
pub proof fn lemma_packed_round_trip(c: Color)
    ensures
        unpacked(packed(c)) == c,
{
}

} // verus!
