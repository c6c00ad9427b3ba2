//! Hex color notation: `#rrggbb` / `#rrggbbaa` and Hyprland's
//! `rgba(rrggbbaa)`, on 8-bit channels.
use vstd::prelude::*;
use vstd::utf8::{encode_utf8, is_ascii_chars, is_continuation_byte};

use crate::text::{digit_char, hex_digit_char, hex_padded, push_char, push_hex_padded, str_starts_with};

verus! {

broadcast use {
    vstd::seq::group_seq_axioms,
    vstd::string::group_string_axioms,
    vstd::utf8::group_utf8_lib,
};

#[derive(Debug, Clone, PartialEq, Eq)]
pub enum ColorError {
    /// The text (with a `#` in front of what follows an optional leading
    /// `#`) is not a hex color.
    InvalidHex(String),
}

/// A color with 8-bit red, green, blue and alpha channels.
#[derive(Debug, Clone, Copy, PartialEq, Eq)]
pub struct HexColor {
    pub r: u8,
    pub g: u8,
    pub b: u8,
    pub a: u8,
}

/// The value of one hexadecimal digit byte, either case.
pub open spec fn hex_val(c: u8) -> Option<nat> {
    if 0x30 <= c <= 0x39 {
        Some((c - 0x30) as nat)
    } else if 0x61 <= c <= 0x66 {
        Some((c - 0x61 + 10) as nat)
    } else if 0x41 <= c <= 0x46 {
        Some((c - 0x41 + 10) as nat)
    } else {
        None
    }
}

/// What `u8::from_str_radix(.., 16)` gives for the two bytes `c0 c1`: an
/// optional `+` then hexadecimal digits.
pub open spec fn hex_pair(c0: u8, c1: u8) -> Option<u8> {
    if c0 == 0x2b {
        match hex_val(c1) {
            Some(v) => Some(v as u8),
            None => None,
        }
    } else {
        match (hex_val(c0), hex_val(c1)) {
            (Some(h), Some(l)) => Some((h * 16 + l) as u8),
            _ => None,
        }
    }
}

/// The text after an optional leading `#`.
pub open spec fn strip_hash(s: Seq<char>) -> Seq<char> {
    if s.len() > 0 && s[0] == '#' {
        s.drop_first()
    } else {
        s
    }
}

/// The channels that `#rrggbb` / `#rrggbbaa` text encodes, given the UTF-8
/// bytes `b` of what follows the optional `#`.
pub open spec fn hex_channels(b: Seq<u8>) -> Option<HexColor> {
    if b.len() == 6 {
        match (hex_pair(b[0], b[1]), hex_pair(b[2], b[3]), hex_pair(b[4], b[5])) {
            (Some(r), Some(g), Some(bl)) => Some(HexColor { r, g, b: bl, a: 255 }),
            _ => None,
        }
    } else if b.len() == 8 {
        match (
            hex_pair(b[0], b[1]),
            hex_pair(b[2], b[3]),
            hex_pair(b[4], b[5]),
            hex_pair(b[6], b[7]),
        ) {
            (Some(r), Some(g), Some(bl), Some(a)) => Some(HexColor { r, g, b: bl, a }),
            _ => None,
        }
    } else {
        None
    }
}

/// The byte ranges that parsing slices out start and end on character
/// boundaries (slicing inside a character would panic).  A range is only
/// sliced when the ranges before it parsed.
pub open spec fn hex_slices_ok(b: Seq<u8>) -> bool {
    (b.len() == 6 || b.len() == 8) ==> {
        &&& !is_continuation_byte(b[2])
        &&& (hex_pair(b[0], b[1]) is Some ==> !is_continuation_byte(b[4]))
        &&& (b.len() == 8 && hex_pair(b[0], b[1]) is Some && hex_pair(b[2], b[3]) is Some
            ==> !is_continuation_byte(b[6]))
    }
}

/// `hex` can be handed to `from_hex` without a panic.
pub open spec fn hex_parse_safe(hex: Seq<char>) -> bool {
    hex_slices_ok(encode_utf8(strip_hash(hex)))
}

/// The result of `from_hex` on `hex`.
pub open spec fn spec_from_hex(hex: Seq<char>) -> Option<HexColor> {
    hex_channels(encode_utf8(strip_hash(hex)))
}

/// The message text of the error that `from_hex` reports for `hex`.
pub open spec fn invalid_hex_text(hex: Seq<char>) -> Seq<char> {
    seq!['#'] + strip_hash(hex)
}

/// `#rrggbb`, or `#rrggbbaa` when the color is not opaque.
pub open spec fn hex_text(c: HexColor) -> Seq<char> {
    seq!['#'] + hex_padded(c.r as nat, 2) + hex_padded(c.g as nat, 2) + hex_padded(c.b as nat, 2)
        + if c.a == 255 {
        seq![]
    } else {
        hex_padded(c.a as nat, 2)
    }
}

pub open spec fn rgba_prefix() -> Seq<char> {
    seq!['r', 'g', 'b', 'a', '(']
}

/// Hyprland's `rgba(rrggbbaa)` notation.
pub open spec fn rgba_text(c: HexColor) -> Seq<char> {
    rgba_prefix() + hex_padded(c.r as nat, 2) + hex_padded(c.g as nat, 2) + hex_padded(c.b as nat, 2)
        + hex_padded(c.a as nat, 2) + seq![')']
}

/// The channels that `rgba(rrggbbaa)` text encodes: exactly that shape, with
/// eight hexadecimal digits.
pub open spec fn spec_from_rgba(s: Seq<char>) -> Option<HexColor> {
    if s.len() == 14 && s.take(5) == rgba_prefix() && s[13] == ')' && is_ascii_chars(
        s.subrange(5, 13),
    ) {
        let d = encode_utf8(s.subrange(5, 13));
        match (hex_val(d[0]), hex_val(d[2]), hex_val(d[4]), hex_val(d[6])) {
            (Some(_), Some(_), Some(_), Some(_)) => hex_channels(d),
            _ => None,
        }
    } else {
        None
    }
}

fn hex_value(c: u8) -> (r: Option<u8>)
    ensures
        match hex_val(c) {
            Some(v) => r == Some(v as u8),
            None => r is None,
        },
{
    if 0x30 <= c && c <= 0x39 {
        Some(c - 0x30)
    } else if 0x61 <= c && c <= 0x66 {
        Some(c - 0x61 + 10)
    } else if 0x41 <= c && c <= 0x46 {
        Some(c - 0x41 + 10)
    } else {
        None
    }
}

fn parse_pair(c0: u8, c1: u8) -> (r: Option<u8>)
    ensures
        r == hex_pair(c0, c1),
{
    if c0 == 0x2b {
        hex_value(c1)
    } else {
        match (hex_value(c0), hex_value(c1)) {
            (Some(h), Some(l)) => Some(h * 16 + l),
            _ => None,
        }
    }
}

/// The characters of `s` after an optional leading `#`.
fn strip_hash_str(s: &str) -> (r: &str)
    ensures
        r@ == strip_hash(s@),
{
    proof {
        reveal_strlit("#");
    }
    assert("#"@ =~= seq!['#']);
    if str_starts_with(s, "#") {
        assert(s@.take(1)[0] == '#');
        assert(s@[0] == '#');
        assert(s@.subrange(1, s@.len() as int) =~= s@.drop_first());
        s.substring_char(1, s.unicode_len())
    } else {
        assert(!(s@.len() > 0 && s@[0] == '#')) by {
            if s@.len() > 0 && s@[0] == '#' {
                assert(s@.take(1) =~= "#"@);
            }
        }
        assert(s@.subrange(0, s@.len() as int) =~= s@);
        s.substring_char(0, s.unicode_len())
    }
}

fn invalid_hex(stripped: &str) -> (e: ColorError)
    ensures
        e matches ColorError::InvalidHex(m) && m@ == seq!['#'] + stripped@,
{
    let mut m = String::new();
    push_char(&mut m, '#');
    m.append(stripped);
    ColorError::InvalidHex(m)
}

fn push_channel(buf: &mut String, v: u8)
    ensures
        final(buf)@ == old(buf)@ + hex_padded(v as nat, 2),
{
    push_hex_padded(buf, v as u64, 2);
}

/// Whether `hex` can be handed to `from_hex` without a panic.
pub fn hex_parse_is_safe(hex: &str) -> (r: bool)
    ensures
        r == hex_parse_safe(hex@),
{
    let h = strip_hash_str(hex);
    let b = h.as_bytes();
    assert(b@ == encode_utf8(h@));
    let n = b.len();
    if n != 6 && n != 8 {
        return true;
    }
    let cont = |x: u8| -> (c: bool)
        ensures
            c == is_continuation_byte(x),
        { 0x80 <= x && x <= 0xbf };
    if cont(b[2]) {
        return false;
    }
    let first = parse_pair(b[0], b[1]).is_some();
    if first && cont(b[4]) {
        return false;
    }
    if n == 8 && first && parse_pair(b[2], b[3]).is_some() && cont(b[6]) {
        return false;
    }
    true
}

impl HexColor {
    /// Parse a hex color string: `#rrggbb` or `#rrggbbaa` (the `#` may be
    /// left out; digits may be of either case).
    pub fn from_hex(hex: &str) -> (r: Result<HexColor, ColorError>)
        requires
            hex_parse_safe(hex@),
        ensures
            match spec_from_hex(hex@) {
                Some(c) => r == Ok::<HexColor, ColorError>(c),
                None => r matches Err(ColorError::InvalidHex(m)) && m@ == invalid_hex_text(hex@),
            },
    {
        let h = strip_hash_str(hex);
        let b = h.as_bytes();
        let ghost bs = encode_utf8(h@);
        assert(b@ == bs);
        let n = b.len();
        if n != 6 && n != 8 {
            return Err(invalid_hex(h));
        }
        let r = match parse_pair(b[0], b[1]) {
            Some(v) => v,
            None => {
                return Err(invalid_hex(h));
            },
        };
        let g = match parse_pair(b[2], b[3]) {
            Some(v) => v,
            None => {
                return Err(invalid_hex(h));
            },
        };
        let bl = match parse_pair(b[4], b[5]) {
            Some(v) => v,
            None => {
                return Err(invalid_hex(h));
            },
        };
        if n == 6 {
            return Ok(HexColor { r, g, b: bl, a: 255 });
        }
        let a = match parse_pair(b[6], b[7]) {
            Some(v) => v,
            None => {
                return Err(invalid_hex(h));
            },
        };
        Ok(HexColor { r, g, b: bl, a })
    }

    /// Convert to `#rrggbb` (opaque) or `#rrggbbaa` hex string.
    pub fn to_hex(&self) -> (s: String)
        ensures
            s@ == hex_text(*self),
    {
        let mut s = String::new();
        push_char(&mut s, '#');
        push_channel(&mut s, self.r);
        push_channel(&mut s, self.g);
        push_channel(&mut s, self.b);
        if self.a != 255 {
            push_channel(&mut s, self.a);
        }
        assert(s@ =~= hex_text(*self));
        s
    }

    /// Parse Hyprland's `rgba(rrggbbaa)` notation.
    pub fn from_hypr_rgba(s: &str) -> (r: Option<HexColor>)
        ensures
            r == spec_from_rgba(s@),
    {
        proof {
            reveal_strlit("rgba(");
        }
        let n = s.unicode_len();
        if n != 14 || !str_starts_with(s, "rgba(") || s.get_char(13) != ')' {
            assert(rgba_prefix() =~= "rgba("@);
            return None;
        }
        assert(s@.take(5) =~= rgba_prefix());
        let inner = s.substring_char(5, 13);
        if !inner.is_ascii() {
            return None;
        }
        let d = inner.as_bytes();
        assert(d@ == encode_utf8(s@.subrange(5, 13)));
        proof {
            vstd::utf8::is_ascii_chars_encode_utf8(inner@);
        }
        if hex_value(d[0]).is_none() || hex_value(d[2]).is_none() || hex_value(d[4]).is_none()
            || hex_value(d[6]).is_none() {
            return None;
        }
        let r = parse_pair(d[0], d[1]);
        let g = parse_pair(d[2], d[3]);
        let b = parse_pair(d[4], d[5]);
        let a = parse_pair(d[6], d[7]);
        match (r, g, b, a) {
            (Some(r), Some(g), Some(b), Some(a)) => Some(HexColor { r, g, b, a }),
            _ => None,
        }
    }

    /// Format as Hyprland's `rgba(rrggbbaa)` notation.
    pub fn to_hypr_rgba(&self) -> (s: String)
        ensures
            s@ == rgba_text(*self),
    {
        proof {
            reveal_strlit("rgba(");
        }
        let mut s = "rgba(".to_string();
        push_channel(&mut s, self.r);
        push_channel(&mut s, self.g);
        push_channel(&mut s, self.b);
        push_channel(&mut s, self.a);
        push_char(&mut s, ')');
        assert(s@ =~= rgba_text(*self));
        s
    }
}


proof fn lemma_hex_digit(d: nat)
    requires
        d < 16,
    ensures
        hex_val(hex_digit_char(d) as u8) == Some(d),
        hex_digit_char(d) as u8 != 0x2b,
        '\0' <= hex_digit_char(d) <= '\u{7f}',
{
    assert(hex_digit_char(d) as u8 == hex_digit_char(d) as u32);
}

proof fn lemma_channel_text(v: u8)
    ensures
        hex_padded(v as nat, 2).len() == 2,
        hex_pair(hex_padded(v as nat, 2)[0] as u8, hex_padded(v as nat, 2)[1] as u8) == Some(v),
        hex_val(hex_padded(v as nat, 2)[0] as u8) is Some,
        is_ascii_chars(hex_padded(v as nat, 2)),
{
    let n = v as nat;
    assert(hex_padded(n / 16 / 16, 0) =~= Seq::<char>::empty());
    assert(hex_padded(n / 16, 1) =~= seq![hex_digit_char((n / 16) % 16)]);
    assert(hex_padded(n, 2) =~= seq![hex_digit_char((n / 16) % 16), hex_digit_char(n % 16)]);
    assert((n / 16) % 16 == n / 16);
    lemma_hex_digit(n / 16);
    lemma_hex_digit(n % 16);
}

/// Formatting a color as `#rrggbb[aa]` and parsing it back gives the same
/// color, and that parse is always safe.
pub proof fn law_hex_roundtrip(c: HexColor)
    ensures
        hex_parse_safe(hex_text(c)),
        spec_from_hex(hex_text(c)) == Some(c),
{
    let t = hex_text(c);
    let body = t.drop_first();
    assert(t[0] == '#');
    assert(strip_hash(t) == body);
    lemma_channel_text(c.r);
    lemma_channel_text(c.g);
    lemma_channel_text(c.b);
    lemma_channel_text(c.a);
    let pr = hex_padded(c.r as nat, 2);
    let pg = hex_padded(c.g as nat, 2);
    let pb = hex_padded(c.b as nat, 2);
    let pa = hex_padded(c.a as nat, 2);
    if c.a == 255 {
        assert(body =~= pr + pg + pb);
    } else {
        assert(body =~= pr + pg + pb + pa);
    }
    assert(is_ascii_chars(body));
    vstd::utf8::is_ascii_chars_encode_utf8(body);
    let b = encode_utf8(body);
    assert(b[0] == pr[0] as u8 && b[1] == pr[1] as u8);
    assert(b[2] == pg[0] as u8 && b[3] == pg[1] as u8);
    assert(b[4] == pb[0] as u8 && b[5] == pb[1] as u8);
    if c.a != 255 {
        assert(b[6] == pa[0] as u8 && b[7] == pa[1] as u8);
    }
}

/// Formatting a color as `rgba(rrggbbaa)` and parsing it back gives the
/// same color.
pub proof fn law_rgba_roundtrip(c: HexColor)
    ensures
        spec_from_rgba(rgba_text(c)) == Some(c),
{
    let t = rgba_text(c);
    lemma_channel_text(c.r);
    lemma_channel_text(c.g);
    lemma_channel_text(c.b);
    lemma_channel_text(c.a);
    let pr = hex_padded(c.r as nat, 2);
    let pg = hex_padded(c.g as nat, 2);
    let pb = hex_padded(c.b as nat, 2);
    let pa = hex_padded(c.a as nat, 2);
    let inner = pr + pg + pb + pa;
    assert(t =~= rgba_prefix() + inner + seq![')']);
    assert(t.take(5) =~= rgba_prefix());
    assert(t.subrange(5, 13) =~= inner);
    assert(is_ascii_chars(inner));
    vstd::utf8::is_ascii_chars_encode_utf8(inner);
    let d = encode_utf8(inner);
    assert(d[0] == pr[0] as u8 && d[1] == pr[1] as u8);
    assert(d[2] == pg[0] as u8 && d[3] == pg[1] as u8);
    assert(d[4] == pb[0] as u8 && d[5] == pb[1] as u8);
    assert(d[6] == pa[0] as u8 && d[7] == pa[1] as u8);
}

} // verus!
