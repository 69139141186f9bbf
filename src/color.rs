//! RGBA colors with byte channels: hex codes and interpolation.

use vstd::prelude::*;
use vstd::string::StringSliceAdditionalSpecFns;

verus! {

/// An RGBA color with one byte per channel.
#[derive(Clone, Copy, Debug, PartialEq, Eq, Structural)]
pub struct Color {
    pub r: u8,
    pub g: u8,
    pub b: u8,
    pub a: u8,
}

/// The value of an ASCII hexadecimal digit.
pub open spec fn hex_digit(c: u8) -> Option<nat> {
    if 48 <= c <= 57 {
        Some((c - 48) as nat)
    } else if 97 <= c <= 102 {
        Some((c - 87) as nat)
    } else if 65 <= c <= 70 {
        Some((c - 55) as nat)
    } else {
        None
    }
}

/// A two-character hexadecimal byte as `u8::from_str_radix(_, 16)` reads it (an optional
/// leading `+` before a single digit is accepted), or `default` where it does not parse.
pub open spec fn hex_pair(c0: u8, c1: u8, default: u8) -> u8 {
    if c0 == 43 && hex_digit(c1) is Some {
        hex_digit(c1)->0 as u8
    } else if hex_digit(c0) is Some && hex_digit(c1) is Some {
        (hex_digit(c0)->0 * 16 + hex_digit(c1)->0) as u8
    } else {
        default
    }
}

/// The bytes after every leading `#`.
pub open spec fn strip_hashes(b: Seq<u8>) -> Seq<u8>
    decreases b.len(),
{
    if b.len() > 0 && b[0] == 35 {
        strip_hashes(b.drop_first())
    } else {
        b
    }
}

/// The color that a hex code `RRGGBB` or `RRGGBBAA` (leading `#` ignored) denotes; any
/// other length gives opaque black.
pub open spec fn hex_color(b: Seq<u8>) -> Color {
    let h = strip_hashes(b);
    if h.len() == 6 {
        Color {
            r: hex_pair(h[0], h[1], 0),
            g: hex_pair(h[2], h[3], 0),
            b: hex_pair(h[4], h[5], 0),
            a: 255,
        }
    } else if h.len() == 8 {
        Color {
            r: hex_pair(h[0], h[1], 0),
            g: hex_pair(h[2], h[3], 0),
            b: hex_pair(h[4], h[5], 0),
            a: hex_pair(h[6], h[7], 255),
        }
    } else {
        Color { r: 0, g: 0, b: 0, a: 255 }
    }
}

fn digit_value(c: u8) -> (r: Option<u8>)
    ensures
        r matches Some(v) ==> hex_digit(c) == Some(v as nat),
        r is None ==> hex_digit(c) is None,
{
    if 48 <= c && c <= 57 {
        Some(c - 48)
    } else if 97 <= c && c <= 102 {
        Some(c - 87)
    } else if 65 <= c && c <= 70 {
        Some(c - 55)
    } else {
        None
    }
}

fn parse_pair(c0: u8, c1: u8, default: u8) -> (r: u8)
    ensures
        r == hex_pair(c0, c1, default),
{
    match (digit_value(c0), digit_value(c1)) {
        (Some(h), Some(l)) => h * 16 + l,
        (None, Some(l)) => if c0 == 43 { l } else { default },
        _ => default,
    }
}

/// Linear interpolation of one channel by the fraction `num / den`, rounded down.
pub open spec fn lerp_channel(a: u8, b: u8, num: int, den: int) -> u8 {
    ((a * (den - num) + b * num) / den) as u8
}

pub open spec fn lerp_spec(s: Color, e: Color, num: int, den: int) -> Color {
    Color {
        r: lerp_channel(s.r, e.r, num, den),
        g: lerp_channel(s.g, e.g, num, den),
        b: lerp_channel(s.b, e.b, num, den),
        a: lerp_channel(s.a, e.a, num, den),
    }
}

/// The largest denominator an interpolation fraction may have.
pub const FRACTION_LIMIT: u128 = 0x1_0000_0000_0000_0000_0000_0000;

fn lerp_u8(a: u8, b: u8, num: u128, den: u128) -> (r: u8)
    requires
        0 < den <= FRACTION_LIMIT,
        num <= den,
    ensures
        r == lerp_channel(a, b, num as int, den as int),
        a <= b ==> a <= r <= b,
        b <= a ==> b <= r <= a,
{
    proof {
        assert((a as int) * (den - num) <= 255 * den) by (nonlinear_arith)
            requires a <= 255, num <= den;
        assert((b as int) * num <= 255 * den) by (nonlinear_arith)
            requires b <= 255, num <= den;
    }
    let x: u128 = (a as u128) * (den - num);
    let y: u128 = (b as u128) * num;
    proof {
        assert(x <= 255 * den) by (nonlinear_arith)
            requires x == a * (den - num), a <= 255, num <= den;
        assert(y <= 255 * den) by (nonlinear_arith)
            requires y == b * num, b <= 255, num <= den;
    }
    let q: u128 = (x + y) / den;
    proof {
        let lo = if a <= b { a as int } else { b as int };
        let hi = if a <= b { b as int } else { a as int };
        assert(lo * den <= x + y <= hi * den) by (nonlinear_arith)
            requires
                x == a * (den - num), y == b * num, num <= den, 0 < den,
                lo == (if a <= b { a as int } else { b as int }),
                hi == (if a <= b { b as int } else { a as int }),
        ;
        assert(lo <= q <= hi) by (nonlinear_arith)
            requires lo * den <= x + y <= hi * den, q == (x + y) as int / den as int, 0 < den;
    }
    q as u8
}

impl Color {
    pub fn new(r: u8, g: u8, b: u8, a: u8) -> (c: Color)
        ensures
            c == (Color { r, g, b, a }),
    {
        Color { r, g, b, a }
    }

    pub fn rgba(r: u8, g: u8, b: u8, a: u8) -> (c: Color)
        ensures
            c == (Color { r, g, b, a }),
    {
        Color { r, g, b, a }
    }

    pub fn black() -> (c: Color)
        ensures
            c == (Color { r: 0, g: 0, b: 0, a: 255 }),
    {
        Color { r: 0, g: 0, b: 0, a: 255 }
    }

    pub fn white() -> (c: Color)
        ensures
            c == (Color { r: 255, g: 255, b: 255, a: 255 }),
    {
        Color { r: 255, g: 255, b: 255, a: 255 }
    }

    pub fn red() -> (c: Color)
        ensures
            c == (Color { r: 255, g: 0, b: 0, a: 255 }),
    {
        Color { r: 255, g: 0, b: 0, a: 255 }
    }

    pub fn blue() -> (c: Color)
        ensures
            c == (Color { r: 0, g: 0, b: 255, a: 255 }),
    {
        Color { r: 0, g: 0, b: 255, a: 255 }
    }

    pub fn transparent() -> (c: Color)
        ensures
            c == (Color { r: 0, g: 0, b: 0, a: 0 }),
    {
        Color { r: 0, g: 0, b: 0, a: 0 }
    }

    /// Reads a hex code such as `#aabbcc` or `#aabbccdd`.
    pub fn hex(s: &str) -> (c: Color)
        ensures
            c == hex_color(s.spec_bytes()),
    {
        let b = s.as_bytes();
        let n = b.len();
        let mut i: usize = 0;
        assert(b@.subrange(0, n as int) =~= b@);
        while i < n && b[i] == 35
            invariant
                0 <= i <= n,
                n == b@.len(),
                strip_hashes(b@) == strip_hashes(b@.subrange(i as int, n as int)),
            decreases n - i,
        {
            proof {
                let rest = b@.subrange(i as int, n as int);
                assert(rest.drop_first() =~= b@.subrange(i + 1, n as int));
            }
            i = i + 1;
        }
        proof {
            assert(b@.subrange(0, n as int) =~= b@);
        }
        let ghost h = b@.subrange(i as int, n as int);
        assert(strip_hashes(h) == h);
        if n - i == 6 {
            Color {
                r: parse_pair(b[i], b[i + 1], 0),
                g: parse_pair(b[i + 2], b[i + 3], 0),
                b: parse_pair(b[i + 4], b[i + 5], 0),
                a: 255,
            }
        } else if n - i == 8 {
            Color {
                r: parse_pair(b[i], b[i + 1], 0),
                g: parse_pair(b[i + 2], b[i + 3], 0),
                b: parse_pair(b[i + 4], b[i + 5], 0),
                a: parse_pair(b[i + 6], b[i + 7], 255),
            }
        } else {
            Color { r: 0, g: 0, b: 0, a: 255 }
        }
    }

    pub fn with_alpha(self, a: u8) -> (c: Color)
        ensures
            c == (Color { a, ..self }),
    {
        Color { a, ..self }
    }

    /// Interpolates toward `end` by the fraction `num / den`.
    pub fn lerp(&self, end: &Color, num: u128, den: u128) -> (c: Color)
        requires
            0 < den <= FRACTION_LIMIT,
            num <= den,
        ensures
            c == lerp_spec(*self, *end, num as int, den as int),
    {
        Color {
            r: lerp_u8(self.r, end.r, num, den),
            g: lerp_u8(self.g, end.g, num, den),
            b: lerp_u8(self.b, end.b, num, den),
            a: lerp_u8(self.a, end.a, num, den),
        }
    }
}

} // verus!
