//! Finding a session's daemon: the name of the file in which it records its
//! port, and the port read back from that file.
use vstd::prelude::*;
use vstd::utf8::encode_utf8;
use vstd::wrapping::u64_specs;
use crate::text::{
    chars_of, decimal, digit_char, digits_value, is_digit, is_white_space, parse_unsigned,
    parse_unsigned_spec, push_char, push_str, string_from_chars, unsigned_digits,
    slice_chars, trim_chars, trim_end_ws, trim_seq, trim_start_ws,
};

verus! {

/// Whether `c` may stand in a file name made from a session id: an ASCII
/// letter or digit, `-` or `_`.
pub open spec fn is_safe_char(c: char) -> bool {
    ('0' <= c <= '9') || ('a' <= c <= 'z') || ('A' <= c <= 'Z') || c == '-' || c == '_'
}

/// The characters of `s` that may stand in a file name, in order.
pub open spec fn safe_chars(s: Seq<char>) -> Seq<char>
    decreases s.len(),
{
    if s.len() == 0 {
        s
    } else if is_safe_char(s.last()) {
        safe_chars(s.drop_last()).push(s.last())
    } else {
        safe_chars(s.drop_last())
    }
}

/// The hash of the bytes `b`: `h = h * 31 + byte` from `h = 0`, wrapping at 2^64.
pub open spec fn name_hash(b: Seq<u8>) -> u64
    decreases b.len(),
{
    if b.len() == 0 {
        0
    } else {
        u64_specs::wrapping_add(u64_specs::wrapping_mul(name_hash(b.drop_last()), 31), b.last() as u64)
    }
}

/// The lower-case hexadecimal digit for `d < 16`.
pub open spec fn lower_hex_digit(d: nat) -> char {
    if d < 10 {
        (0x30 + d) as char
    } else {
        (0x61 + d - 10) as char
    }
}

/// The last `n` hexadecimal digits of `h`, lower case, with leading zeros.
pub open spec fn lower_hex(h: nat, n: nat) -> Seq<char>
    decreases n,
{
    if n == 0 {
        seq![]
    } else {
        lower_hex(h / 16, (n - 1) as nat).push(lower_hex_digit(h % 16))
    }
}

/// The part of a port file's name that stands for the session id `uuid`:
/// its first 64 characters that are ASCII letters, digits, `-` or `_`; where
/// it has none, `inv-` and 16 hexadecimal digits of the hash of its UTF-8
/// bytes (so that different ids without such characters differ).
pub open spec fn safe_uuid_spec(uuid: Seq<char>) -> Seq<char> {
    let f = safe_chars(uuid);
    if f.len() == 0 {
        "inv-"@ + lower_hex(name_hash(encode_utf8(uuid)) as nat, 16)
    } else if f.len() <= 64 {
        f
    } else {
        f.take(64)
    }
}

/// The name of the file that records the port of session `uuid`'s daemon.
pub open spec fn port_file_name_spec(uuid: Seq<char>) -> Seq<char> {
    "a2n-session-"@ + safe_uuid_spec(uuid) + ".port"@
}

/// Appends the last `n` hexadecimal digits of `h`.
fn push_lower_hex(s: &mut String, h: u64, n: usize)
    ensures
        final(s)@ == old(s)@ + lower_hex(h as nat, n as nat),
    decreases n,
{
    if n > 0 {
        push_lower_hex(s, h / 16, n - 1);
        let d = h % 16;
        let c = if d < 10 { (0x30u8 + d as u8) as char } else { (0x61u8 + d as u8 - 10) as char };
        push_char(s, c);
        assert(s@ =~= old(s)@ + lower_hex(h as nat, n as nat));
    }
}

/// The hash of the UTF-8 bytes of `s`.
fn hash_bytes(s: &str) -> (h: u64)
    ensures
        h == name_hash(encode_utf8(s@)),
{
    let b = s.as_bytes();
    let mut h: u64 = 0;
    let mut i: usize = 0;
    assert(b@.take(0) =~= Seq::<u8>::empty());
    while i < b.len()
        invariant
            i <= b.len(),
            h == name_hash(b@.take(i as int)),
        decreases b.len() - i,
    {
        assert(b@.take(i + 1).drop_last() =~= b@.take(i as int));
        h = h.wrapping_mul(31).wrapping_add(b[i] as u64);
        i = i + 1;
    }
    assert(b@.take(b.len() as int) =~= b@);
    h
}

/// Turns a caller's session id into a part of a file name that cannot leave
/// its directory and that depends on the id alone.
pub fn safe_uuid_component(uuid: &str) -> (r: String)
    ensures
        r@ == safe_uuid_spec(uuid@),
{
    let cs = chars_of(uuid);
    let mut kept: Vec<char> = Vec::new();
    let mut i: usize = 0;
    assert(cs@.take(0) =~= Seq::<char>::empty());
    while i < cs.len()
        invariant
            i <= cs.len(),
            kept@ == safe_chars(cs@.take(i as int)),
        decreases cs.len() - i,
    {
        let c = cs[i];
        assert(cs@.take(i + 1).drop_last() =~= cs@.take(i as int));
        if ('0' <= c && c <= '9') || ('a' <= c && c <= 'z') || ('A' <= c && c <= 'Z') || c == '-'
            || c == '_' {
            kept.push(c);
        }
        i = i + 1;
    }
    assert(cs@.take(cs.len() as int) =~= cs@);
    if kept.len() == 0 {
        let h = hash_bytes(uuid);
        let mut s = String::new();
        push_str(&mut s, "inv-");
        push_lower_hex(&mut s, h, 16);
        assert(s@ =~= "inv-"@ + lower_hex(h as nat, 16));
        s
    } else if kept.len() <= 64 {
        string_from_chars(kept.as_slice())
    } else {
        let first = slice_chars(kept.as_slice(), 0, 64);
        assert(first@ =~= kept@.take(64));
        string_from_chars(first.as_slice())
    }
}

proof fn lemma_safe_chars_safe(s: Seq<char>)
    ensures
        safe_chars(s).len() <= s.len(),
        forall|i: int| 0 <= i < safe_chars(s).len() ==> is_safe_char(#[trigger] safe_chars(s)[i]),
    decreases s.len(),
{
    if s.len() > 0 {
        lemma_safe_chars_safe(s.drop_last());
    }
}

proof fn lemma_lower_hex_safe(h: nat, n: nat)
    ensures
        lower_hex(h, n).len() == n,
        forall|i: int| 0 <= i < lower_hex(h, n).len() ==> is_safe_char(#[trigger] lower_hex(h, n)[i]),
    decreases n,
{
    if n > 0 {
        lemma_lower_hex_safe(h / 16, (n - 1) as nat);
        let d = h % 16;
        let c = lower_hex_digit(d);
        if d < 10 {
            vstd::utf8::char_u32_cast(c, (0x30 + d) as u32);
        } else {
            vstd::utf8::char_u32_cast(c, (0x61 + d - 10) as u32);
        }
        assert(is_safe_char(c));
    }
}

/// The part of a file name made from any session id is never empty, holds at
/// most 64 characters, and holds only ASCII letters, digits, `-` and `_`: it
/// cannot name another directory.
pub proof fn lemma_safe_uuid_is_safe(uuid: Seq<char>)
    ensures
        0 < safe_uuid_spec(uuid).len() <= 64,
        forall|i: int| 0 <= i < safe_uuid_spec(uuid).len() ==> is_safe_char(#[trigger] safe_uuid_spec(uuid)[i]),
{
    lemma_safe_chars_safe(uuid);
    let f = safe_chars(uuid);
    if f.len() == 0 {
        let h = lower_hex(name_hash(encode_utf8(uuid)) as nat, 16);
        lemma_lower_hex_safe(name_hash(encode_utf8(uuid)) as nat, 16);
        reveal_strlit("inv-");
        let r = "inv-"@ + h;
        assert forall|i: int| 0 <= i < r.len() implies is_safe_char(#[trigger] r[i]) by {
            if i >= 4 {
                assert(r[i] == h[i - 4]);
            }
        }
    }
}

/// The name of the file (in the system's temporary directory) that records
/// the port of session `uuid`'s daemon.
pub fn port_file_name(uuid: &str) -> (r: String)
    ensures
        r@ == port_file_name_spec(uuid@),
{
    let mut s = String::new();
    push_str(&mut s, "a2n-session-");
    let part = safe_uuid_component(uuid);
    push_str(&mut s, part.as_str());
    push_str(&mut s, ".port");
    assert(s@ =~= port_file_name_spec(uuid@));
    s
}

/// `s.parse::<u16>()`: an optional `+` sign, then at least one decimal
/// digit and nothing else, with a value that fits in 16 bits.
pub open spec fn parse_u16_spec(s: Seq<char>) -> Option<u16> {
    match parse_unsigned_spec(s, 65535) {
        Some(v) => Some(v as u16),
        None => None,
    }
}

/// The port recorded in a port file's text: the text without surrounding
/// white space, read as a 16-bit number.
pub open spec fn port_spec(text: Seq<char>) -> Option<u16> {
    parse_u16_spec(trim_seq(text))
}

/// Reads `s` as a 16-bit unsigned decimal number (as `s.parse::<u16>()`).
pub fn parse_u16(s: &[char]) -> (r: Option<u16>)
    ensures
        r == parse_u16_spec(s@),
{
    match parse_unsigned(s, 65535) {
        Some(v) => Some(v as u16),
        None => None,
    }
}

/// The port recorded in a port file's text, if it holds one.
pub fn parse_port(text: &str) -> (r: Option<u16>)
    ensures
        r == port_spec(text@),
{
    let cs = chars_of(text);
    let t = trim_chars(cs.as_slice());
    parse_u16(t.as_slice())
}

proof fn lemma_digit_char_value(d: nat)
    requires
        d < 10,
    ensures
        digit_char(d) as nat == '0' as nat + d,
        is_digit(digit_char(d)),
{
    vstd::utf8::char_u32_cast(digit_char(d), (48 + d) as u32);
}

proof fn lemma_digits_value_decimal(n: nat)
    ensures
        digits_value(decimal(n)) == n,
        decimal(n).len() > 0,
        forall|i: int| 0 <= i < decimal(n).len() ==> is_digit(#[trigger] decimal(n)[i]),
    decreases n,
{
    lemma_digit_char_value(n % 10);
    if n < 10 {
        assert(decimal(n).drop_last() =~= Seq::<char>::empty());
        assert(digits_value(decimal(n)) == digits_value(Seq::<char>::empty()) * 10 + (digit_char(n) as nat - '0' as nat) as nat);
    } else {
        lemma_digits_value_decimal(n / 10);
        assert(decimal(n).drop_last() =~= decimal(n / 10));
        assert(decimal(n).last() == digit_char(n % 10));
        assert(digits_value(decimal(n)) == digits_value(decimal(n / 10)) * 10 + n % 10);
        assert forall|i: int| 0 <= i < decimal(n).len() implies is_digit(#[trigger] decimal(n)[i]) by {
            if i < decimal(n / 10).len() {
                assert(decimal(n)[i] == decimal(n / 10)[i]);
            }
        }
    }
}

/// A port file written with a port's decimal form reads back as that port.
pub proof fn lemma_port_round_trip(port: u16)
    ensures
        port_spec(decimal(port as nat)) == Some(port),
{
    let d = decimal(port as nat);
    lemma_digits_value_decimal(port as nat);
    assert(!is_white_space(d[0]));
    assert(trim_start_ws(d) == d);
    assert(!is_white_space(d.last()));
    assert(trim_end_ws(d) == d);
    assert(unsigned_digits(d) == d);
    assert(parse_unsigned_spec(d, 65535) == Some(port as nat));
}

} // verus!
