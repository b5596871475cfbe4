use blockpaint::util::{parse_hex, parse_rgb_color, Color, Size};

fn parse(string: &str) -> Option<Color> {
    parse_rgb_color(string)
}

fn rgb(r: u8, g: u8, b: u8) -> Option<Color> {
    Some(Color::Rgb { r, g, b })
}

#[test]
fn test_parse_rgb_color() {
    assert_eq!(parse("255, 255, 255"), rgb(255, 255, 255));
    assert_eq!(parse("200,255,255"), rgb(200, 255, 255));
    assert_eq!(parse("-200,-255,-255"), rgb(200, 255, 255));
    assert_eq!(parse("(255,200,255)"), rgb(255, 200, 255));
    assert_eq!(parse("www255,255,200www"), rgb(255, 255, 200));
    assert_eq!(parse("    www100www,www0www,www100www"), rgb(100, 0, 100));
    assert_eq!(parse("www100www,www20www,,,"), rgb(100, 20, 0));
    assert_eq!(parse("   123"), rgb(123, 0, 0));
    assert_eq!(parse("99999,99999,99999"), rgb(255, 255, 255));
    assert_eq!(parse("FF0000,00FF00,0000FF"), rgb(255, 0, 0));
    assert_eq!(parse("00FF00"), rgb(0, 255, 0));
    assert_eq!(parse("    00FF00"), rgb(0, 255, 0));
    assert_eq!(parse("-50,-50,-50-00FF00"), rgb(50, 50, 50));
    assert_eq!(parse("256"), rgb(255, 0, 0));
    assert_eq!(parse("99999"), rgb(255, 0, 0));
    assert_eq!(parse("rgb(123,255,100)"), rgb(123, 255, 100));
    assert_eq!(parse("123,255,100"), rgb(123, 255, 100));
}

#[test]
fn parse_rejects_text_without_a_color() {
    assert_eq!(parse(""), None);
    assert_eq!(parse("abc"), None);
    assert_eq!(parse("   "), None);
    assert_eq!(parse("www"), None);
}

#[test]
fn parse_hex_reads_six_digits_at_a_position() {
    assert_eq!(parse_hex("FF0000", 0), rgb(255, 0, 0));
    assert_eq!(parse_hex("xxFF8001", 2), rgb(255, 128, 1));
    assert_eq!(parse_hex("FF00", 0), None);
    assert_eq!(parse_hex("GG0000", 0), None);
}

#[test]
fn parse_hex_accepts_a_leading_plus_in_a_byte() {
    // the radix-16 byte reader takes an optional plus sign before a digit
    assert_eq!(parse_hex("+10203", 0), rgb(1, 2, 3));
    assert_eq!(parse_hex("1+0203", 0), None);
}

#[test]
fn invert_is_an_involution_on_named_and_rgb_colors() {
    let c = Color::Rgb {
        r: 10,
        g: 200,
        b: 77,
    };
    assert_eq!(c.invert().invert(), c);
    assert_eq!(
        c.invert(),
        Color::Rgb {
            r: 245,
            g: 55,
            b: 178
        }
    );
    let named = [
        Color::Black,
        Color::White,
        Color::Gray,
        Color::DarkGray,
        Color::Red,
        Color::DarkRed,
        Color::Green,
        Color::DarkGreen,
        Color::Yellow,
        Color::DarkYellow,
        Color::Blue,
        Color::DarkBlue,
        Color::Magenta,
        Color::DarkMagenta,
        Color::Cyan,
        Color::DarkCyan,
    ];
    for c in named {
        assert_eq!(c.invert().invert(), c);
        assert_ne!(c.invert(), c);
    }
}

#[test]
fn invert_pairs_named_colors_with_their_complements() {
    assert_eq!(Color::Black.invert(), Color::White);
    assert_eq!(Color::Red.invert(), Color::Cyan);
    assert_eq!(Color::Green.invert(), Color::Magenta);
    assert_eq!(Color::Blue.invert(), Color::Yellow);
    assert_eq!(Color::DarkGray.invert(), Color::Gray);
    assert_eq!(Color::DarkRed.invert(), Color::DarkCyan);
}

#[test]
fn invert_byte_colors_land_in_the_contrasting_range() {
    // a grayscale byte maps back into the gray ramp's mirror
    assert_eq!(Color::ByteColor(255).invert(), Color::ByteColor(230));
    assert_eq!(Color::ByteColor(231).invert(), Color::ByteColor(254));
    // an ordinary palette byte flips across the palette
    assert_eq!(Color::ByteColor(0).invert(), Color::ByteColor(240));
    assert_eq!(Color::ByteColor(100).invert(), Color::ByteColor(140));
}

#[test]
fn size_new_keeps_dimensions() {
    let s = Size::new(80, 24);
    assert_eq!(s.width, 80);
    assert_eq!(s.height, 24);
}
