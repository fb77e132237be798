//! Hex color text of the waveform visualization's saved color.
use vstd::prelude::*;
use crate::visualizations::render::Color;

verus! {

broadcast use vstd::string::group_string_axioms;

/// The value of a hexadecimal digit byte (`0-9`, `a-f`, `A-F`).
pub open spec fn hex_value(b: u8) -> Option<int> {
    if 0x30 <= b <= 0x39 {
        Some(b - 0x30)
    } else if 0x61 <= b <= 0x66 {
        Some(b - 0x61 + 10)
    } else if 0x41 <= b <= 0x46 {
        Some(b - 0x41 + 10)
    } else {
        None
    }
}

/// A two-byte field read as a hexadecimal number: two digits, or a `+`
/// sign followed by one digit.
pub open spec fn hex_pair(b0: u8, b1: u8) -> Option<u8> {
    if b0 == 0x2b {
        match hex_value(b1) {
            Some(v) => Some(v as u8),
            None => None,
        }
    } else {
        match (hex_value(b0), hex_value(b1)) {
            (Some(h), Some(l)) => Some((16 * h + l) as u8),
            _ => None,
        }
    }
}

/// The bytes after any leading `#` signs.
pub open spec fn strip_hashes(b: Seq<u8>) -> Seq<u8>
    decreases b.len(),
{
    if b.len() > 0 && b[0] == 0x23 {
        strip_hashes(b.drop_first())
    } else {
        b
    }
}

/// The color written by the UTF-8 bytes `b`: after leading `#` signs,
/// exactly six bytes holding three two-byte hexadecimal fields for red,
/// green and blue.
pub open spec fn spec_parse_hex_color(b: Seq<u8>) -> Option<Color> {
    let h = strip_hashes(b);
    if h.len() != 6 {
        None
    } else {
        match (hex_pair(h[0], h[1]), hex_pair(h[2], h[3]), hex_pair(h[4], h[5])) {
            (Some(r), Some(g), Some(bl)) => Some(Color::Rgb(r, g, bl)),
            _ => None,
        }
    }
}

/// The fields of a six-byte color text start on character boundaries, so
/// that the text can be cut into its three fields.
pub open spec fn fields_on_boundaries(b: Seq<u8>) -> bool {
    let h = strip_hashes(b);
    h.len() == 6 ==> !vstd::utf8::is_continuation_byte(h[2]) && !vstd::utf8::is_continuation_byte(
        h[4],
    )
}

fn hex_digit_value(b: u8) -> (v: Option<u8>)
    ensures
        match hex_value(b) {
            Some(x) => v == Some(x as u8),
            None => v is None,
        },
{
    if b >= 0x30 && b <= 0x39 {
        Some(b - 0x30)
    } else if b >= 0x61 && b <= 0x66 {
        Some(b - 0x61 + 10)
    } else if b >= 0x41 && b <= 0x46 {
        Some(b - 0x41 + 10)
    } else {
        None
    }
}

fn parse_hex_pair(b0: u8, b1: u8) -> (v: Option<u8>)
    ensures
        v == hex_pair(b0, b1),
{
    if b0 == 0x2b {
        hex_digit_value(b1)
    } else {
        match (hex_digit_value(b0), hex_digit_value(b1)) {
            (Some(h), Some(l)) => Some(16 * h + l),
            _ => None,
        }
    }
}

/// Reads a color written as `#rrggbb`: leading `#` signs are skipped and
/// exactly six hexadecimal digits must follow.
pub fn parse_hex_color(s: &str) -> (c: Option<Color>)
    requires
        fields_on_boundaries(vstd::utf8::encode_utf8(s@)),
    ensures
        c == spec_parse_hex_color(vstd::utf8::encode_utf8(s@)),
{
    let bytes = s.as_bytes();
    let n = bytes.len();
    let mut start: usize = 0;
    assert(bytes@.subrange(0, n as int) =~= bytes@);
    while start < n && bytes[start] == 0x23
        invariant
            n == bytes@.len(),
            start <= n,
            strip_hashes(bytes@) == strip_hashes(bytes@.subrange(start as int, n as int)),
        decreases n - start,
    {
        assert(bytes@.subrange(start as int, n as int).drop_first() =~= bytes@.subrange(
            start + 1,
            n as int,
        ));
        start = start + 1;
    }
    let ghost h = bytes@.subrange(start as int, n as int);
    assert(strip_hashes(bytes@) == h);
    if n - start != 6 {
        return None;
    }
    let r = parse_hex_pair(bytes[start], bytes[start + 1]);
    let g = parse_hex_pair(bytes[start + 2], bytes[start + 3]);
    let b = parse_hex_pair(bytes[start + 4], bytes[start + 5]);
    match (r, g, b) {
        (Some(r), Some(g), Some(b)) => Some(Color::Rgb(r, g, b)),
        _ => None,
    }
}

/// The lowercase hexadecimal digit for `n` (0..16).
pub open spec fn hex_char(n: int) -> char {
    if n < 10 {
        ((0x30 + n) as u32) as char
    } else {
        ((0x61 + n - 10) as u32) as char
    }
}

/// `#rrggbb` in lowercase hexadecimal.
pub open spec fn hex_color_text(r: u8, g: u8, b: u8) -> Seq<char> {
    seq![
        '#',
        hex_char((r / 16) as int),
        hex_char((r % 16) as int),
        hex_char((g / 16) as int),
        hex_char((g % 16) as int),
        hex_char((b / 16) as int),
        hex_char((b % 16) as int),
    ]
}

fn hex_digit_str(n: u8) -> (s: &'static str)
    requires
        n < 16,
    ensures
        s@ == seq![hex_char(n as int)],
{
    match n {
        0 => {
            proof { reveal_strlit("0"); }
            "0"
        },
        1 => {
            proof { reveal_strlit("1"); }
            "1"
        },
        2 => {
            proof { reveal_strlit("2"); }
            "2"
        },
        3 => {
            proof { reveal_strlit("3"); }
            "3"
        },
        4 => {
            proof { reveal_strlit("4"); }
            "4"
        },
        5 => {
            proof { reveal_strlit("5"); }
            "5"
        },
        6 => {
            proof { reveal_strlit("6"); }
            "6"
        },
        7 => {
            proof { reveal_strlit("7"); }
            "7"
        },
        8 => {
            proof { reveal_strlit("8"); }
            "8"
        },
        9 => {
            proof { reveal_strlit("9"); }
            "9"
        },
        10 => {
            proof { reveal_strlit("a"); }
            "a"
        },
        11 => {
            proof { reveal_strlit("b"); }
            "b"
        },
        12 => {
            proof { reveal_strlit("c"); }
            "c"
        },
        13 => {
            proof { reveal_strlit("d"); }
            "d"
        },
        14 => {
            proof { reveal_strlit("e"); }
            "e"
        },
        _ => {
            proof { reveal_strlit("f"); }
            "f"
        },
    }
}

/// Writes an RGB color as `#rrggbb` in lowercase hexadecimal.
pub fn hex_color_string(r: u8, g: u8, b: u8) -> (s: String)
    ensures
        s@ == hex_color_text(r, g, b),
{
    proof {
        reveal_strlit("#");
    }
    let mut s = "#".to_string();
    s.append(hex_digit_str(r / 16));
    s.append(hex_digit_str(r % 16));
    s.append(hex_digit_str(g / 16));
    s.append(hex_digit_str(g % 16));
    s.append(hex_digit_str(b / 16));
    s.append(hex_digit_str(b % 16));
    assert(s@ =~= hex_color_text(r, g, b));
    s
}

proof fn lemma_hex_char_value(n: int)
    requires
        0 <= n < 16,
    ensures
        (hex_char(n) as u32) < 0x80,
        hex_value(hex_char(n) as u8) == Some(n),
        hex_char(n) as u8 != 0x2b,
        hex_char(n) as u8 != 0x23,
{
}

/// A color written by `hex_color_string` is read back by
/// `parse_hex_color` as the same color.
pub proof fn lemma_hex_color_roundtrip(r: u8, g: u8, b: u8)
    ensures
        fields_on_boundaries(vstd::utf8::encode_utf8(hex_color_text(r, g, b))),
        spec_parse_hex_color(vstd::utf8::encode_utf8(hex_color_text(r, g, b))) == Some(
            Color::Rgb(r, g, b),
        ),
{
    let t = hex_color_text(r, g, b);
    lemma_hex_char_value((r / 16) as int);
    lemma_hex_char_value((r % 16) as int);
    lemma_hex_char_value((g / 16) as int);
    lemma_hex_char_value((g % 16) as int);
    lemma_hex_char_value((b / 16) as int);
    lemma_hex_char_value((b % 16) as int);
    assert(vstd::utf8::is_ascii_chars(t));
    vstd::utf8::is_ascii_chars_encode_utf8(t);
    let bytes = vstd::utf8::encode_utf8(t);
    assert(bytes.len() == 7);
    assert(bytes[0] == 0x23);
    assert(bytes[1] != 0x23);
    assert(strip_hashes(bytes.drop_first()) == bytes.drop_first());
    assert(strip_hashes(bytes) == bytes.drop_first());
    assert(16 * (r / 16) + r % 16 == r);
    assert(16 * (g / 16) + g % 16 == g);
    assert(16 * (b / 16) + b % 16 == b);
}


/// Colors are written in lowercase hexadecimal: digit values 0 to 9 as `0`
/// to `9` and 10 to 15 as `a` to `f`; reading takes `0`-`9`, `a`-`f` and
/// `A`-`F` back to their values and no other byte. The written text is `#`
/// and six digits.
pub proof fn lemma_hex_digits(v: int, b: u8)
    requires
        0 <= v < 16,
    ensures
        v < 10 ==> hex_char(v) as u32 == 0x30 + v,
        v >= 10 ==> hex_char(v) as u32 == 0x61 + (v - 10),
        hex_value((hex_char(v) as u32) as u8) == Some(v),
        v >= 10 ==> hex_value((0x41 + v - 10) as u8) == Some(v),
        (b < 0x30 || (0x39 < b < 0x41) || (0x46 < b < 0x61) || b > 0x66) ==> hex_value(b) is None,
        forall|r: u8, g: u8, bl: u8| #[trigger] hex_color_text(r, g, bl).len() == 7 && hex_color_text(r, g, bl)[0] == '#',
{
    let u: u32 = if v < 10 {
        (0x30 + v) as u32
    } else {
        (0x61 + v - 10) as u32
    };
    assert(vstd::utf8::is_scalar(u));
    assert((u as char) as u32 == u);
}

} // verus!
