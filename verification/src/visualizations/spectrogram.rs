//! Layout of the scrolling spectrogram.
use vstd::prelude::*;

verus! {

/// The shading symbol for an intensity level in quarters: blank, light,
/// medium and dark shade, then a full block for four quarters or more.
pub open spec fn spec_shade_char(level: u8) -> char {
    if level == 0 {
        ' '
    } else if level == 1 {
        '\u{2591}'
    } else if level == 2 {
        '\u{2592}'
    } else if level == 3 {
        '\u{2593}'
    } else {
        '\u{2588}'
    }
}

/// The shading symbol for an intensity level in quarters.
pub fn shade_char(level: u8) -> (c: char)
    ensures
        c == spec_shade_char(level),
{
    match level {
        0 => ' ',
        1 => '\u{2591}',
        2 => '\u{2592}',
        3 => '\u{2593}',
        _ => '\u{2588}',
    }
}

/// Which history entries a spectrogram `cols` columns wide shows: the
/// newest `min(len, cols)` of the `len` entries, starting at entry
/// `start`, drawn from column `x_offset` on so that the newest is in the
/// last column.
pub fn visible_window(len: usize, cols: usize) -> (r: (usize, usize))
    ensures
        ({
            let shown = if len < cols {
                len as int
            } else {
                cols as int
            };
            r.0 == len - shown && r.1 == cols - shown
        }),
{
    let shown = if len < cols {
        len
    } else {
        cols
    };
    (len - shown, cols - shown)
}

/// The shown entries fill the columns up to the right edge: entry `k` of
/// the window lands in column `x_offset + k`, the newest in the last one.
pub proof fn lemma_window_fills_right(len: int, cols: int)
    requires
        0 <= len,
        0 <= cols,
    ensures
        ({
            let shown = if len < cols {
                len
            } else {
                cols
            };
            let start = len - shown;
            let x_offset = cols - shown;
            &&& 0 <= start && start + shown == len
            &&& 0 <= x_offset && x_offset + shown == cols
        }),
{
}


/// Intensity levels in quarters shade from blank through the light (U+2591),
/// medium (U+2592) and dark (U+2593) shades to the full block (U+2588), which
/// every level of four quarters or more shows.
pub proof fn lemma_shade_table(level: u8)
    ensures
        spec_shade_char(0) == ' ',
        spec_shade_char(1) == '\u{2591}',
        spec_shade_char(2) == '\u{2592}',
        spec_shade_char(3) == '\u{2593}',
        level >= 4 ==> spec_shade_char(level) == '\u{2588}',
{
}

} // verus!
