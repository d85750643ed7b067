//! RGB color values, the hex color-string parser, and the color stepping
//! used by the animated lighting mode.

use vstd::prelude::*;

verus! {

/// One RGB color, one byte per channel.
#[derive(Debug, Clone, Copy, PartialEq, Eq, Structural)]
pub struct Color {
    pub r: u8,
    pub g: u8,
    pub b: u8,
}

impl Default for Color {
    /// Black: every channel zero.
    fn default() -> (c: Color)
        ensures
            c == (Color { r: 0, g: 0, b: 0 }),
    {
        Color { r: 0, g: 0, b: 0 }
    }
}

/// The value of one ASCII hex digit, upper or lower case.
pub open spec fn spec_hex_digit(c: u8) -> Option<u8> {
    if 0x30 <= c <= 0x39 {
        Some((c - 0x30) as u8)
    } else if 0x61 <= c <= 0x66 {
        Some((c - 0x61 + 10) as u8)
    } else if 0x41 <= c <= 0x46 {
        Some((c - 0x41 + 10) as u8)
    } else {
        None
    }
}

/// Whether every byte of `s` is an ASCII hex digit.
pub open spec fn spec_all_hex(s: Seq<u8>) -> bool {
    forall|i: int| 0 <= i < s.len() ==> (#[trigger] spec_hex_digit(s[i])) is Some
}

/// The number the hex digits of `s` spell, most significant first. Bytes that
/// are no hex digits count as zero; `spec_hex_value` rules them out first.
pub open spec fn spec_hex_num(s: Seq<u8>) -> int
    decreases s.len(),
{
    if s.len() == 0 {
        0
    } else {
        spec_hex_num(s.drop_last()) * 16 + (match spec_hex_digit(s.last()) {
            Some(d) => d as int,
            None => 0,
        })
    }
}

/// What parsing `s` as a hex integer yields, with the sign handling of the
/// standard library's radix parser: one optional leading `+` or `-`, then at
/// least one hex digit; a `-` negates the value. Anything else is nothing.
pub open spec fn spec_hex_value(s: Seq<u8>) -> Option<int> {
    let digits = if s.len() > 0 && (s[0] == 0x2b || s[0] == 0x2d) {
        s.skip(1)
    } else {
        s
    };
    if digits.len() == 0 || !spec_all_hex(digits) {
        None
    } else if s.len() > 0 && s[0] == 0x2d {
        Some(-spec_hex_num(digits))
    } else {
        Some(spec_hex_num(digits))
    }
}

/// The digits of a hex number never make it smaller: any prefix spells at
/// most the whole.
pub proof fn lemma_hex_num_prefix_monotonic(s: Seq<u8>, n: int)
    requires
        0 <= n <= s.len(),
    ensures
        0 <= spec_hex_num(s.take(n)) <= spec_hex_num(s),
    decreases s.len() - n,
{
    if n == s.len() {
        assert(s.take(n) =~= s);
        lemma_hex_num_nonneg(s);
    } else {
        lemma_hex_num_prefix_monotonic(s, n + 1);
        lemma_hex_num_nonneg(s.take(n));
        assert(s.take(n + 1).drop_last() =~= s.take(n));
    }
}

/// A hex number is never negative.
pub proof fn lemma_hex_num_nonneg(s: Seq<u8>)
    ensures
        spec_hex_num(s) >= 0,
    decreases s.len(),
{
    if s.len() > 0 {
        lemma_hex_num_nonneg(s.drop_last());
    }
}

/// The value of one hex digit byte.
pub fn hex_digit(c: u8) -> (r: Option<u8>)
    ensures
        r == spec_hex_digit(c),
{
    if 0x30 <= c && c <= 0x39 {
        Some(c - 0x30)
    } else if 0x61 <= c && c <= 0x66 {
        Some(c - 0x61 + 10)
    } else if 0x41 <= c && c <= 0x46 {
        Some(c - 0x41 + 10)
    } else {
        None
    }
}

/// What two characters spell as a hex byte: a hex value that fits in a byte,
/// or nothing.
pub open spec fn spec_hex_byte(a: u8, b: u8) -> Option<u8> {
    match spec_hex_value(seq![a, b]) {
        Some(v) => if 0 <= v <= 255 {
            Some(v as u8)
        } else {
            None
        },
        None => None,
    }
}

/// Parse two characters as a hex byte, as the standard library's radix
/// parser reads them: both hex digits, or a sign followed by one digit.
pub fn from_hex(data: &[u8; 2]) -> (r: Option<u8>)
    ensures
        r == spec_hex_byte(data@[0], data@[1]),
{
    let a = data[0];
    let b = data[1];
    proof {
        assert(data@ =~= seq![a, b]);
        assert(spec_hex_num(Seq::<u8>::empty()) == 0);
    }
    if a == 0x2b || a == 0x2d {
        proof {
            assert(data@.skip(1) =~= seq![b]);
            assert(seq![b].drop_last() =~= Seq::<u8>::empty());
            assert(seq![b].last() == b);
        }
        match hex_digit(b) {
            Some(d) => {
                proof {
                    assert(spec_hex_num(seq![b]) == d);
                }
                if a == 0x2d && d != 0 {
                    None
                } else {
                    Some(d)
                }
            },
            None => None,
        }
    } else {
        proof {
            assert(data@.drop_last() =~= seq![a]);
            assert(seq![a].drop_last() =~= Seq::<u8>::empty());
            assert(seq![a].last() == a);
            assert(data@.last() == b);
        }
        match (hex_digit(a), hex_digit(b)) {
            (Some(x), Some(y)) => {
                proof {
                    assert(spec_hex_num(seq![a]) == x);
                    assert(spec_hex_num(data@) == x * 16 + y);
                }
                Some(x * 16 + y)
            },
            _ => None,
        }
    }
}

/// The color a hex color string names: three digits give one digit per
/// channel (doubled), six digits give two per channel; anything else is no
/// color.
pub open spec fn spec_parse_color(s: Seq<u8>) -> Option<Color> {
    if s.len() == 3 {
        match (spec_hex_byte(s[0], s[0]), spec_hex_byte(s[1], s[1]), spec_hex_byte(s[2], s[2])) {
            (Some(r), Some(g), Some(b)) => Some(Color { r, g, b }),
            _ => None,
        }
    } else if s.len() == 6 {
        match (spec_hex_byte(s[0], s[1]), spec_hex_byte(s[2], s[3]), spec_hex_byte(s[4], s[5])) {
            (Some(r), Some(g), Some(b)) => Some(Color { r, g, b }),
            _ => None,
        }
    } else {
        None
    }
}

/// Parses hex color strings from the command line.
#[derive(Debug, Clone, Copy)]
pub struct ColorParser;

impl ColorParser {
    /// Parse the bytes of a color argument: `abc` or `aabbcc`.
    pub fn parse(&self, value: &[u8]) -> (r: Option<Color>)
        ensures
            r == spec_parse_color(value@),
    {
        if value.len() == 3 {
            let r = [value[0], value[0]];
            let g = [value[1], value[1]];
            let b = [value[2], value[2]];
            proof {
                assert(r@ =~= seq![value@[0], value@[0]]);
                assert(g@ =~= seq![value@[1], value@[1]]);
                assert(b@ =~= seq![value@[2], value@[2]]);
            }
            match (from_hex(&r), from_hex(&g), from_hex(&b)) {
                (Some(r), Some(g), Some(b)) => Some(Color { r, g, b }),
                _ => None,
            }
        } else if value.len() == 6 {
            let r = [value[0], value[1]];
            let g = [value[2], value[3]];
            let b = [value[4], value[5]];
            proof {
                assert(r@ =~= seq![value@[0], value@[1]]);
                assert(g@ =~= seq![value@[2], value@[3]]);
                assert(b@ =~= seq![value@[4], value@[5]]);
            }
            match (from_hex(&r), from_hex(&g), from_hex(&b)) {
                (Some(r), Some(g), Some(b)) => Some(Color { r, g, b }),
                _ => None,
            }
        } else {
            None
        }
    }
}

/// How one channel drifts: the difference byte, scaled down by `2^speed`,
/// nudges the channel up when it falls in the lower band and down otherwise;
/// a nudge that would leave the byte range leaves the channel unchanged.
pub open spec fn spec_make_diff_channel(color: u8, diff: u8, speed: u8) -> u8
    recommends
        speed < 8,
{
    let m = (1u8 << speed) as int;
    let s: int = 255int / m / 2 + 1;
    let d: int = diff as int / m;
    if d < s {
        if color + d <= 255 {
            (color + d) as u8
        } else {
            color
        }
    } else {
        if color - (d - s) >= 0 {
            (color - (d - s)) as u8
        } else {
            color
        }
    }
}

/// Drift each channel of `color` by the corresponding channel of `diff`.
pub open spec fn spec_make_diff(color: Color, diff: Color, speed: u8) -> Color
    recommends
        speed < 8,
{
    Color {
        r: spec_make_diff_channel(color.r, diff.r, speed),
        g: spec_make_diff_channel(color.g, diff.g, speed),
        b: spec_make_diff_channel(color.b, diff.b, speed),
    }
}

fn make_diff_channel(color: u8, diff: u8, speed: u8) -> (r: u8)
    requires
        speed < 8,
    ensures
        r == spec_make_diff_channel(color, diff, speed),
{
    let m = 1u8 << speed;
    proof {
        assert(speed < 8 ==> 1u8 << speed >= 1) by (bit_vector);
    }
    let s: u8 = 255u8 / m / 2 + 1;
    let d: u8 = diff / m;
    if d < s {
        if color as u16 + d as u16 <= 255 {
            color + d
        } else {
            color
        }
    } else {
        if color as u16 >= (d - s) as u16 {
            color - (d - s)
        } else {
            color
        }
    }
}

/// One step of the animated lighting mode: drift `color` by `diff`, channel
/// by channel, at the given speed.
pub fn make_diff(color: Color, diff: Color, speed: u8) -> (r: Color)
    requires
        speed < 8,
    ensures
        r == spec_make_diff(color, diff, speed),
{
    Color {
        r: make_diff_channel(color.r, diff.r, speed),
        g: make_diff_channel(color.g, diff.g, speed),
        b: make_diff_channel(color.b, diff.b, speed),
    }
}

} // verus!
