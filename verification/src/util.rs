//! Resolution of a rule's color string to a concrete pixel value. Plain
//! `#rrggbb` strings are parsed here; the dynamic keywords (`accent`,
//! `rainbow`) resolve to values the platform adapter supplies, since they
//! change between reads without the rule list changing.

use vstd::prelude::*;
use vstd::string::StrSliceExecFns;
use crate::{COLOR_INVALID, DWMWA_COLOR_DEFAULT, DWMWA_COLOR_NONE};
use crate::text::str_eq;

verus! {

/// Value of one hexadecimal digit, either case.
pub open spec fn spec_hex_digit(c: char) -> Option<u8> {
    let u = c as u32;
    if 48 <= u && u <= 57 {
        Some((u - 48) as u8)
    } else if 97 <= u && u <= 102 {
        Some((u - 87) as u8)
    } else if 65 <= u && u <= 70 {
        Some((u - 55) as u8)
    } else {
        None
    }
}

/// Value of a two-digit hexadecimal byte.
pub open spec fn spec_hex_pair(c1: char, c2: char) -> Option<u8> {
    match (spec_hex_digit(c1), spec_hex_digit(c2)) {
        (Some(h), Some(l)) => Some((h * 16 + l) as u8),
        _ => None,
    }
}

/// A color as the compositor consumes it: blue, green, red packed into
/// the low three bytes.
pub open spec fn spec_pack_bbggrr(r: u8, g: u8, b: u8) -> u32 {
    (b as u32 * 0x10000 + g as u32 * 0x100 + r as u32) as u32
}

/// The packed color denoted by a `#rrggbb` string, if it is one.
pub open spec fn spec_hex_color(s: Seq<char>) -> Option<u32> {
    if s.len() == 7 && s[0] == '#' {
        match (spec_hex_pair(s[1], s[2]), spec_hex_pair(s[3], s[4]), spec_hex_pair(s[5], s[6])) {
            (Some(r), Some(g), Some(b)) => Some(spec_pack_bbggrr(r, g, b)),
            _ => None,
        }
    } else {
        None
    }
}

/// The accent colorization value carries red in its third byte, green in
/// its second and blue in its first; the compositor wants the reverse.
pub open spec fn spec_accent_bbggrr(colorization: u32) -> u32 {
    let red = (colorization & 0xFF0000) >> 16;
    let green = (colorization & 0xFF00) >> 8;
    let blue = colorization & 0xFF;
    (blue << 16) | (green << 8) | red
}

/// What a color string resolves to: a sentinel for `transparent`, the
/// reordered accent color (or the default sentinel when the accent query
/// failed), the current rainbow color, the packed value of a `#rrggbb`
/// string, or the invalid-color marker for anything else.
pub open spec fn spec_hex_colorref(s: Seq<char>, accent: Option<u32>, rainbow: u32) -> u32 {
    if s == "transparent"@ {
        DWMWA_COLOR_NONE
    } else if s == "accent"@ {
        match accent {
            Some(c) => spec_accent_bbggrr(c),
            None => DWMWA_COLOR_DEFAULT,
        }
    } else if s == "rainbow"@ {
        rainbow
    } else {
        match spec_hex_color(s) {
            Some(c) => c,
            None => COLOR_INVALID,
        }
    }
}

fn hex_digit(c: char) -> (r: Option<u8>)
    ensures
        r == spec_hex_digit(c),
{
    let u = c as u32;
    if 48 <= u && u <= 57 {
        Some((u - 48) as u8)
    } else if 97 <= u && u <= 102 {
        Some((u - 87) as u8)
    } else if 65 <= u && u <= 70 {
        Some((u - 55) as u8)
    } else {
        None
    }
}

fn hex_pair(c1: char, c2: char) -> (r: Option<u8>)
    ensures
        r == spec_hex_pair(c1, c2),
{
    match (hex_digit(c1), hex_digit(c2)) {
        (Some(h), Some(l)) => Some(h * 16 + l),
        _ => None,
    }
}

/// Parse a `#rrggbb` string to its packed color.
pub fn parse_hex_color(hex: &str) -> (r: Option<u32>)
    ensures
        r == spec_hex_color(hex@),
{
    let n = hex.unicode_len();
    if n != 7 {
        return None;
    }
    if hex.get_char(0) != '#' {
        return None;
    }
    let p1 = hex_pair(hex.get_char(1), hex.get_char(2));
    let p2 = hex_pair(hex.get_char(3), hex.get_char(4));
    let p3 = hex_pair(hex.get_char(5), hex.get_char(6));
    match (p1, p2, p3) {
        (Some(r), Some(g), Some(b)) => Some((b as u32) * 0x10000 + (g as u32) * 0x100 + (r as u32)),
        _ => None,
    }
}

/// Packed color of a `#rrggbb` string, or an all-ones marker when the
/// string is not one.
pub fn hex_to_rgb(hex: &str) -> (r: u32)
    ensures
        r == match spec_hex_color(hex@) {
            Some(c) => c,
            None => 0xFFFFFFFFu32,
        },
{
    match parse_hex_color(hex) {
        Some(c) => c,
        None => 0xFFFFFFFF,
    }
}

fn accent_bbggrr(colorization: u32) -> (r: u32)
    ensures
        r == spec_accent_bbggrr(colorization),
{
    let red = (colorization & 0xFF0000) >> 16;
    let green = (colorization & 0xFF00) >> 8;
    let blue = colorization & 0xFF;
    (blue << 16) | (green << 8) | red
}

/// Resolve a rule's color string. `accent` is the colorization value the
/// compositor reported (`None` when that query failed); `rainbow` is the
/// current animated color. Both are passed in because they vary between
/// reads.
pub fn hex_to_colorref(hex: &str, accent: Option<u32>, rainbow: u32) -> (r: u32)
    ensures
        r == spec_hex_colorref(hex@, accent, rainbow),
{
    if str_eq(hex, "transparent") {
        return DWMWA_COLOR_NONE;
    }
    if str_eq(hex, "accent") {
        return match accent {
            Some(c) => accent_bbggrr(c),
            None => DWMWA_COLOR_DEFAULT,
        };
    }
    if str_eq(hex, "rainbow") {
        return rainbow;
    }
    match parse_hex_color(hex) {
        Some(c) => c,
        None => COLOR_INVALID,
    }
}

} // verus!
