//! Colours written as hexadecimal text: `#RRGGBB` and `#RRGGBBAA`.
use vstd::prelude::*;
use vstd::utf8::{encode_utf8, is_continuation_byte, is_ascii_chars, is_ascii_chars_encode_utf8};
use crate::text::push_char;

verus! {

/// A colour with its red, green and blue channels and its opacity (255 is
/// opaque); the channels are not premultiplied by the opacity.
#[derive(Debug, Clone, Copy, PartialEq, Eq, Structural)]
pub struct Rgba {
    pub r: u8,
    pub g: u8,
    pub b: u8,
    pub a: u8,
}

/// The byte of `#`.
pub open spec fn hash_byte() -> u8 {
    0x23
}

/// `b` without its leading `#` bytes (as `str::trim_start_matches('#')`;
/// in UTF-8 the byte of `#` stands for that character alone).
pub open spec fn trim_hashes(b: Seq<u8>) -> Seq<u8>
    decreases b.len(),
{
    if b.len() > 0 && b[0] == hash_byte() {
        trim_hashes(b.drop_first())
    } else {
        b
    }
}

/// The value of an ASCII hexadecimal digit (`0-9`, `a-f`, `A-F`).
pub open spec fn hex_digit_value(c: u8) -> Option<u8> {
    if 0x30 <= c <= 0x39 {
        Some((c - 0x30) as u8)
    } else if 0x41 <= c <= 0x46 {
        Some((c - 0x41 + 10) as u8)
    } else if 0x61 <= c <= 0x66 {
        Some((c - 0x61 + 10) as u8)
    } else {
        None
    }
}

/// `u8::from_str_radix(s, 16)` for the two-byte text `s = [x, y]`: an
/// optional `+` sign, then hexadecimal digits only.
pub open spec fn hex_pair(x: u8, y: u8) -> Option<u8> {
    if x == 0x2b {
        hex_digit_value(y)
    } else {
        match (hex_digit_value(x), hex_digit_value(y)) {
            (Some(h), Some(l)) => Some((h * 16 + l) as u8),
            _ => None,
        }
    }
}

/// Whether cutting `b` into two-byte pieces cuts no character in two
/// (slicing a `str` inside a character panics).
pub open spec fn pairs_on_char_boundaries(b: Seq<u8>) -> bool {
    forall|i: int| 0 < i < b.len() && i % 2 == 0 ==> !is_continuation_byte(#[trigger] b[i])
}

/// The colour written in the UTF-8 text `b`: after any leading `#`, six
/// hexadecimal digits (opaque) or eight (with opacity), two per channel.
pub open spec fn hex_color_spec(b: Seq<u8>) -> Option<Rgba> {
    let t = trim_hashes(b);
    if t.len() == 6 {
        match (hex_pair(t[0], t[1]), hex_pair(t[2], t[3]), hex_pair(t[4], t[5])) {
            (Some(r), Some(g), Some(bl)) => Some(Rgba { r, g, b: bl, a: 255 }),
            _ => None,
        }
    } else if t.len() == 8 {
        match (hex_pair(t[0], t[1]), hex_pair(t[2], t[3]), hex_pair(t[4], t[5]), hex_pair(t[6], t[7])) {
            (Some(r), Some(g), Some(bl), Some(a)) => Some(Rgba { r, g, b: bl, a }),
            _ => None,
        }
    } else {
        None
    }
}

/// The red, green and blue channels written in the UTF-8 text `b`: after any
/// leading `#`, exactly six hexadecimal digits.
pub open spec fn hex_rgb_spec(b: Seq<u8>) -> Option<(u8, u8, u8)> {
    let t = trim_hashes(b);
    if t.len() == 6 {
        match (hex_pair(t[0], t[1]), hex_pair(t[2], t[3]), hex_pair(t[4], t[5])) {
            (Some(r), Some(g), Some(bl)) => Some((r, g, bl)),
            _ => None,
        }
    } else {
        None
    }
}

/// The number of leading `#` bytes of `b`.
fn count_hashes(b: &[u8]) -> (k: usize)
    ensures
        k <= b.len(),
        trim_hashes(b@) == b@.skip(k as int),
{
    let mut k: usize = 0;
    assert(b@.skip(0) =~= b@);
    while k < b.len() && b[k] == 0x23
        invariant
            k <= b.len(),
            trim_hashes(b@) == trim_hashes(b@.skip(k as int)),
        decreases b.len() - k,
    {
        assert(b@.skip(k as int).drop_first() =~= b@.skip(k + 1));
        k = k + 1;
    }
    proof {
        if k < b.len() {
            assert(b@.skip(k as int)[0] == b@[k as int]);
        }
    }
    k
}

/// The value of an ASCII hexadecimal digit.
fn hex_digit(c: u8) -> (r: Option<u8>)
    ensures
        r == hex_digit_value(c),
{
    if 0x30 <= c && c <= 0x39 {
        Some(c - 0x30)
    } else if 0x41 <= c && c <= 0x46 {
        Some(c - 0x41 + 10)
    } else if 0x61 <= c && c <= 0x66 {
        Some(c - 0x61 + 10)
    } else {
        None
    }
}

/// The byte written by the two-byte text `[x, y]` in base 16.
fn parse_hex_pair(x: u8, y: u8) -> (r: Option<u8>)
    ensures
        r == hex_pair(x, y),
{
    if x == 0x2b {
        return hex_digit(y);
    }
    match (hex_digit(x), hex_digit(y)) {
        (Some(h), Some(l)) => Some(h * 16 + l),
        _ => None,
    }
}

/// Parses a colour written as `#RRGGBB` or `#RRGGBBAA` (the `#` is optional;
/// six digits give an opaque colour). `None` for any other text.
pub fn parse_hex_color(hex: &str) -> (r: Option<Rgba>)
    requires
        trim_hashes(encode_utf8(hex@)).len() == 6 || trim_hashes(encode_utf8(hex@)).len() == 8
            ==> pairs_on_char_boundaries(trim_hashes(encode_utf8(hex@))),
    ensures
        r == hex_color_spec(encode_utf8(hex@)),
{
    let b = hex.as_bytes();
    let k = count_hashes(b);
    let n = b.len() - k;
    if n == 6 {
        let r = parse_hex_pair(b[k], b[k + 1]);
        let g = parse_hex_pair(b[k + 2], b[k + 3]);
        let bl = parse_hex_pair(b[k + 4], b[k + 5]);
        match (r, g, bl) {
            (Some(r), Some(g), Some(bl)) => Some(Rgba { r, g, b: bl, a: 255 }),
            _ => None,
        }
    } else if n == 8 {
        let r = parse_hex_pair(b[k], b[k + 1]);
        let g = parse_hex_pair(b[k + 2], b[k + 3]);
        let bl = parse_hex_pair(b[k + 4], b[k + 5]);
        let a = parse_hex_pair(b[k + 6], b[k + 7]);
        match (r, g, bl, a) {
            (Some(r), Some(g), Some(bl), Some(a)) => Some(Rgba { r, g, b: bl, a }),
            _ => None,
        }
    } else {
        None
    }
}

/// The red, green and blue channels of a colour written as `#RRGGBB` (the
/// `#` is optional). `None` for any other text.
pub fn hex_to_rgb(hex: &str) -> (r: Option<[u8; 3]>)
    requires
        trim_hashes(encode_utf8(hex@)).len() == 6 ==> pairs_on_char_boundaries(trim_hashes(encode_utf8(hex@))),
    ensures
        match r {
            Some(c) => hex_rgb_spec(encode_utf8(hex@)) == Some((c[0], c[1], c[2])),
            None => hex_rgb_spec(encode_utf8(hex@)) is None,
        },
{
    let b = hex.as_bytes();
    let k = count_hashes(b);
    if b.len() - k != 6 {
        return None;
    }
    let r = parse_hex_pair(b[k], b[k + 1]);
    let g = parse_hex_pair(b[k + 2], b[k + 3]);
    let bl = parse_hex_pair(b[k + 4], b[k + 5]);
    match (r, g, bl) {
        (Some(r), Some(g), Some(bl)) => Some([r, g, bl]),
        _ => None,
    }
}

/// Whether cutting the text `hex`, after its leading `#`, into two-byte
/// pieces cuts no character in two (which `parse_hex_color` and
/// `hex_to_rgb` need).
pub fn hex_pairs_on_char_boundaries(hex: &str) -> (r: bool)
    ensures
        r == pairs_on_char_boundaries(trim_hashes(encode_utf8(hex@))),
{
    let b = hex.as_bytes();
    let k = count_hashes(b);
    let ghost t = b@.skip(k as int);
    let n = b.len() - k;
    let mut j: usize = 1;
    while j < n
        invariant
            1 <= j,
            n == t.len(),
            t == b@.skip(k as int),
            t == trim_hashes(encode_utf8(hex@)),
            k + n == b.len(),
            forall|i: int| 0 < i < j && i < t.len() && i % 2 == 0 ==> !is_continuation_byte(#[trigger] t[i]),
        decreases n - j,
    {
        let c = b[k + j];
        assert(t[j as int] == c);
        if j % 2 == 0 && 0x80 <= c && c <= 0xbf {
            assert(is_continuation_byte(t[j as int]));
            return false;
        }
        j = j + 1;
    }
    true
}

/// The upper-case hexadecimal digit for `d < 16`.
pub open spec fn upper_hex_digit(d: nat) -> char {
    if d < 10 {
        (0x30 + d) as char
    } else {
        (0x41 + d - 10) as char
    }
}

/// `#RRGGBB` in upper-case hexadecimal (as `format!("#{:02X}{:02X}{:02X}", r, g, b)`).
pub open spec fn hex_rgb_text(c: (u8, u8, u8)) -> Seq<char> {
    seq![
        '#',
        upper_hex_digit(c.0 as nat / 16),
        upper_hex_digit(c.0 as nat % 16),
        upper_hex_digit(c.1 as nat / 16),
        upper_hex_digit(c.1 as nat % 16),
        upper_hex_digit(c.2 as nat / 16),
        upper_hex_digit(c.2 as nat % 16),
    ]
}

/// The upper-case hexadecimal digit for `d < 16`.
fn upper_hex_digit_exec(d: u8) -> (c: char)
    requires
        d < 16,
    ensures
        c == upper_hex_digit(d as nat),
{
    if d < 10 {
        (0x30u8 + d) as char
    } else {
        (0x41u8 + d - 10) as char
    }
}

/// Writes a colour as `#RRGGBB` in upper-case hexadecimal.
pub fn format_hex_rgb(rgb: [u8; 3]) -> (r: String)
    ensures
        r@ == hex_rgb_text((rgb[0], rgb[1], rgb[2])),
{
    let mut s = String::new();
    push_char(&mut s, '#');
    let mut i: usize = 0;
    while i < 3
        invariant
            i <= 3,
            s@ == hex_rgb_text((rgb[0], rgb[1], rgb[2])).take(1 + 2 * i),
        decreases 3 - i,
    {
        let x = rgb[i];
        push_char(&mut s, upper_hex_digit_exec(x / 16));
        push_char(&mut s, upper_hex_digit_exec(x % 16));
        i = i + 1;
        assert(s@ =~= hex_rgb_text((rgb[0], rgb[1], rgb[2])).take(1 + 2 * i));
    }
    assert(hex_rgb_text((rgb[0], rgb[1], rgb[2])).take(7) =~= hex_rgb_text((rgb[0], rgb[1], rgb[2])));
    s
}

proof fn lemma_hex_digit_round_trip(d: nat)
    requires
        d < 16,
    ensures
        hex_digit_value(upper_hex_digit(d) as u8) == Some(d as u8),
{
}

/// Reading back a colour written as `#RRGGBB` gives the same colour, and
/// the text can be cut into two-byte pieces.
pub proof fn lemma_hex_rgb_round_trip(c: (u8, u8, u8))
    ensures
        hex_rgb_spec(encode_utf8(hex_rgb_text(c))) == Some(c),
        pairs_on_char_boundaries(trim_hashes(encode_utf8(hex_rgb_text(c)))),
{
    let s = hex_rgb_text(c);
    assert(is_ascii_chars(s));
    is_ascii_chars_encode_utf8(s);
    let b = encode_utf8(s);
    assert forall|i: int| 0 <= i < 7 implies b[i] == s[i] as u8 by {}
    lemma_hex_digit_round_trip(c.0 as nat / 16);
    lemma_hex_digit_round_trip(c.0 as nat % 16);
    lemma_hex_digit_round_trip(c.1 as nat / 16);
    lemma_hex_digit_round_trip(c.1 as nat % 16);
    lemma_hex_digit_round_trip(c.2 as nat / 16);
    lemma_hex_digit_round_trip(c.2 as nat % 16);
    assert(b[1] != hash_byte());
    assert(trim_hashes(b) == trim_hashes(b.drop_first()));
    assert(trim_hashes(b.drop_first()) == b.drop_first());
    let t = b.drop_first();
    assert(t.len() == 6);
    assert(hex_pair(t[0], t[1]) == Some(c.0));
    assert(hex_pair(t[2], t[3]) == Some(c.1));
    assert(hex_pair(t[4], t[5]) == Some(c.2));
    assert forall|i: int| 0 < i < t.len() && i % 2 == 0 implies !is_continuation_byte(#[trigger] t[i]) by {
        assert(t[i] == b[i + 1]);
    }
}

} // verus!
