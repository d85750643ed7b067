use a4keyboard::color::Color;
use a4keyboard::color::ColorParser;
use a4keyboard::color::from_hex;
use a4keyboard::color::make_diff;

#[test]
fn from_hex_reads_two_digits() {
    assert_eq!(from_hex(b"00"), Some(0x00));
    assert_eq!(from_hex(b"ff"), Some(0xFF));
    assert_eq!(from_hex(b"fF"), Some(0xFF));
    assert_eq!(from_hex(b"A5"), Some(0xA5));
    assert_eq!(from_hex(b"09"), Some(0x09));
}

#[test]
fn from_hex_rejects_non_digits() {
    assert_eq!(from_hex(b"g0"), None);
    assert_eq!(from_hex(b"0g"), None);
    assert_eq!(from_hex(b"  "), None);
    assert_eq!(from_hex(b"--"), None);
    assert_eq!(from_hex(&[0xc3, 0xa9]), None);
}

#[test]
fn from_hex_reads_signs_like_the_standard_parser() {
    assert_eq!(from_hex(b"+f"), Some(0x0F));
    assert_eq!(from_hex(b"-0"), Some(0x00));
    assert_eq!(from_hex(b"-1"), None);
    assert_eq!(from_hex(b"+-"), None);
}

#[test]
fn color_parser_reads_six_digit_colors() {
    let parser = ColorParser;
    assert_eq!(
        parser.parse(b"aabbcc"),
        Some(Color { r: 0xAA, g: 0xBB, b: 0xCC })
    );
    assert_eq!(
        parser.parse(b"123456"),
        Some(Color { r: 0x12, g: 0x34, b: 0x56 })
    );
}

#[test]
fn color_parser_doubles_three_digit_colors() {
    let parser = ColorParser;
    assert_eq!(
        parser.parse(b"abc"),
        Some(Color { r: 0xAA, g: 0xBB, b: 0xCC })
    );
    assert_eq!(parser.parse(b"000"), Some(Color { r: 0, g: 0, b: 0 }));
}

#[test]
fn color_parser_rejects_other_shapes() {
    let parser = ColorParser;
    assert_eq!(parser.parse(b""), None);
    assert_eq!(parser.parse(b"ab"), None);
    assert_eq!(parser.parse(b"abcd"), None);
    assert_eq!(parser.parse(b"abcdefa"), None);
    assert_eq!(parser.parse(b"xyz"), None);
    assert_eq!(parser.parse(b"aabbcg"), None);
}

#[test]
fn make_diff_moves_up_in_the_lower_band() {
    // speed 2: m = 4, band bound s = 255 / 4 / 2 + 1 = 32.
    // diff 40: 40 / 4 = 10 < 32, so the channel climbs by 10.
    let c = make_diff(
        Color { r: 100, g: 0, b: 245 },
        Color { r: 40, g: 40, b: 40 },
        2,
    );
    assert_eq!(c.r, 110);
    assert_eq!(c.g, 10);
    // 245 + 10 lands on the top exactly.
    assert_eq!(c.b, 255);
}

#[test]
fn make_diff_moves_down_in_the_upper_band() {
    // speed 2: diff 200 gives 200 / 4 = 50 >= 32, so the channel falls by
    // 50 - 32 = 18.
    let c = make_diff(
        Color { r: 100, g: 10, b: 0 },
        Color { r: 200, g: 200, b: 200 },
        2,
    );
    assert_eq!(c.r, 82);
    // 10 - 18 would underflow: the channel stays.
    assert_eq!(c.g, 10);
    assert_eq!(c.b, 0);
}

#[test]
fn make_diff_saturates_on_overflow() {
    // diff 40 at speed 2 nudges up by 10; 250 + 10 > 255 overflows, so the
    // channel stays.
    let c = make_diff(
        Color { r: 246, g: 255, b: 0 },
        Color { r: 40, g: 40, b: 40 },
        2,
    );
    assert_eq!(c.r, 246);
    assert_eq!(c.g, 255);
    assert_eq!(c.b, 10);
}

#[test]
fn default_color_is_black() {
    assert_eq!(Color::default(), Color { r: 0, g: 0, b: 0 });
}
