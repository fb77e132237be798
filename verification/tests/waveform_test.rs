use terminal_vibes::visualizations::render::Color;
use terminal_vibes::visualizations::waveform::{hex_color_string, parse_hex_color};

#[test]
fn parse_hex_color_accepts_six_digits() {
    assert_eq!(parse_hex_color("#00ff88"), Some(Color::Rgb(0, 255, 136)));
    assert_eq!(parse_hex_color("00FF88"), Some(Color::Rgb(0, 255, 136)));
    assert_eq!(parse_hex_color("##1a2B3c"), Some(Color::Rgb(0x1a, 0x2b, 0x3c)));
    assert_eq!(parse_hex_color("+f+f+f"), Some(Color::Rgb(15, 15, 15)));
}

#[test]
fn parse_hex_color_rejects_other_text() {
    assert_eq!(parse_hex_color("#00ff8"), None);
    assert_eq!(parse_hex_color("#00ff888"), None);
    assert_eq!(parse_hex_color("#00gg88"), None);
    assert_eq!(parse_hex_color("#0-ff88"), None);
    assert_eq!(parse_hex_color(""), None);
}

#[test]
fn hex_color_string_is_lowercase_and_reads_back() {
    assert_eq!(hex_color_string(0, 255, 136), "#00ff88");
    assert_eq!(hex_color_string(0xab, 0x0c, 0xde), "#ab0cde");
    for (r, g, b) in [(0u8, 0u8, 0u8), (255, 255, 255), (17, 128, 9)] {
        assert_eq!(parse_hex_color(&hex_color_string(r, g, b)), Some(Color::Rgb(r, g, b)));
    }
}
