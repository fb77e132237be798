//! Color palettes for the spectrum-style visualizations: their order, their
//! names and the cycling between them.
use vstd::prelude::*;
use crate::text::str_eq;
use crate::visualizations::render::{CellWrite, Color, Rect};

verus! {

/// A named color gradient.
#[derive(Clone, Copy, Debug, PartialEq, Eq, Structural)]
pub enum ColorPalette {
    Neon,
    Fire,
    Ocean,
    Sunset,
    Matrix,
    Ice,
    GruvboxDark,
    GruvboxLight,
    Synthwave,
    Outrun,
    Retrowave,
    Pastel,
}

/// Number of palettes.
pub const PALETTE_COUNT: usize = 12;

impl ColorPalette {
    /// Every palette, in cycling order.
    pub const ALL: [ColorPalette; 12] = [
        ColorPalette::Neon,
        ColorPalette::Fire,
        ColorPalette::Ocean,
        ColorPalette::Sunset,
        ColorPalette::Matrix,
        ColorPalette::Ice,
        ColorPalette::GruvboxDark,
        ColorPalette::GruvboxLight,
        ColorPalette::Synthwave,
        ColorPalette::Outrun,
        ColorPalette::Retrowave,
        ColorPalette::Pastel,
    ];

    /// Position of the palette in the cycling order.
    pub open spec fn spec_index(self) -> int {
        match self {
            ColorPalette::Neon => 0,
            ColorPalette::Fire => 1,
            ColorPalette::Ocean => 2,
            ColorPalette::Sunset => 3,
            ColorPalette::Matrix => 4,
            ColorPalette::Ice => 5,
            ColorPalette::GruvboxDark => 6,
            ColorPalette::GruvboxLight => 7,
            ColorPalette::Synthwave => 8,
            ColorPalette::Outrun => 9,
            ColorPalette::Retrowave => 10,
            ColorPalette::Pastel => 11,
        }
    }

    /// The palette at position `i` of the cycling order (`i` in 0..12).
    pub open spec fn spec_at(i: int) -> ColorPalette {
        if i == 0 {
            ColorPalette::Neon
        } else if i == 1 {
            ColorPalette::Fire
        } else if i == 2 {
            ColorPalette::Ocean
        } else if i == 3 {
            ColorPalette::Sunset
        } else if i == 4 {
            ColorPalette::Matrix
        } else if i == 5 {
            ColorPalette::Ice
        } else if i == 6 {
            ColorPalette::GruvboxDark
        } else if i == 7 {
            ColorPalette::GruvboxLight
        } else if i == 8 {
            ColorPalette::Synthwave
        } else if i == 9 {
            ColorPalette::Outrun
        } else if i == 10 {
            ColorPalette::Retrowave
        } else {
            ColorPalette::Pastel
        }
    }

    /// The palette's name as used in configuration files.
    pub open spec fn spec_name(self) -> Seq<char> {
        match self {
            ColorPalette::Neon => "neon"@,
            ColorPalette::Fire => "fire"@,
            ColorPalette::Ocean => "ocean"@,
            ColorPalette::Sunset => "sunset"@,
            ColorPalette::Matrix => "matrix"@,
            ColorPalette::Ice => "ice"@,
            ColorPalette::GruvboxDark => "gruvbox-dark"@,
            ColorPalette::GruvboxLight => "gruvbox-light"@,
            ColorPalette::Synthwave => "synthwave"@,
            ColorPalette::Outrun => "outrun"@,
            ColorPalette::Retrowave => "retrowave"@,
            ColorPalette::Pastel => "pastel"@,
        }
    }

    /// The palette that follows in the cycling order, wrapping from the
    /// last to the first.
    pub open spec fn spec_next(self) -> ColorPalette {
        Self::spec_at((self.spec_index() + 1) % 12)
    }

    /// The palette that precedes in the cycling order, wrapping from the
    /// first to the last.
    pub open spec fn spec_prev(self) -> ColorPalette {
        Self::spec_at((self.spec_index() + 11) % 12)
    }

    fn index(self) -> (i: usize)
        ensures
            i == self.spec_index(),
    {
        match self {
            ColorPalette::Neon => 0,
            ColorPalette::Fire => 1,
            ColorPalette::Ocean => 2,
            ColorPalette::Sunset => 3,
            ColorPalette::Matrix => 4,
            ColorPalette::Ice => 5,
            ColorPalette::GruvboxDark => 6,
            ColorPalette::GruvboxLight => 7,
            ColorPalette::Synthwave => 8,
            ColorPalette::Outrun => 9,
            ColorPalette::Retrowave => 10,
            ColorPalette::Pastel => 11,
        }
    }

    /// The next palette in the cycling order.
    pub fn next(self) -> (p: ColorPalette)
        ensures
            p == self.spec_next(),
    {
        let all = Self::ALL;
        all[(self.index() + 1) % PALETTE_COUNT]
    }

    /// The previous palette in the cycling order.
    pub fn prev(self) -> (p: ColorPalette)
        ensures
            p == self.spec_prev(),
    {
        let all = Self::ALL;
        all[(self.index() + PALETTE_COUNT - 1) % PALETTE_COUNT]
    }

    /// The palette's name as used in configuration files.
    pub fn name(self) -> (s: &'static str)
        ensures
            s@ == self.spec_name(),
    {
        match self {
            ColorPalette::Neon => "neon",
            ColorPalette::Fire => "fire",
            ColorPalette::Ocean => "ocean",
            ColorPalette::Sunset => "sunset",
            ColorPalette::Matrix => "matrix",
            ColorPalette::Ice => "ice",
            ColorPalette::GruvboxDark => "gruvbox-dark",
            ColorPalette::GruvboxLight => "gruvbox-light",
            ColorPalette::Synthwave => "synthwave",
            ColorPalette::Outrun => "outrun",
            ColorPalette::Retrowave => "retrowave",
            ColorPalette::Pastel => "pastel",
        }
    }

    /// The palette named `s`, if there is one.
    pub open spec fn spec_from_name(s: Seq<char>) -> Option<ColorPalette> {
        if exists|q: ColorPalette| #[trigger] q.spec_name() == s {
            Some(choose|q: ColorPalette| #[trigger] q.spec_name() == s)
        } else {
            None
        }
    }

    /// The palette whose name is `name`, or `None` when no palette has it.
    pub fn from_name(name: &str) -> (r: Option<ColorPalette>)
        ensures
            r == Self::spec_from_name(name@),
    {
        let all = Self::ALL;
        let mut i: usize = 0;
        while i < PALETTE_COUNT
            invariant
                i <= PALETTE_COUNT,
                all@ == Self::ALL@,
                forall|q: ColorPalette| q.spec_index() < i ==> #[trigger] q.spec_name() != name@,
            decreases PALETTE_COUNT - i,
        {
            let p = all[i];
            if str_eq(p.name(), name) {
                proof {
                    let q = choose|q: ColorPalette| #[trigger] q.spec_name() == name@;
                    lemma_palette_names(p, q);
                }
                return Some(p);
            }
            i = i + 1;
        }
        None
    }
}

/// Columns per bar: two with gaps between bars, one without.
pub open spec fn spec_bar_width(gap: bool) -> int {
    if gap {
        2
    } else {
        1
    }
}

/// Columns from one bar to the next.
pub open spec fn spec_bar_step(gap: bool) -> int {
    if gap {
        3
    } else {
        1
    }
}

/// Number of bars drawn across `width` columns.
pub open spec fn spec_num_bars(width: int, gap: bool) -> int {
    (width + 1) / spec_bar_step(gap)
}

/// The symbol of a bar top filled `eighths` eighths of a cell (1..=8).
pub open spec fn spec_eighth_block(eighths: int) -> char {
    if eighths == 1 {
        '\u{2581}'
    } else if eighths == 2 {
        '\u{2582}'
    } else if eighths == 3 {
        '\u{2583}'
    } else if eighths == 4 {
        '\u{2584}'
    } else if eighths == 5 {
        '\u{2585}'
    } else if eighths == 6 {
        '\u{2586}'
    } else if eighths == 7 {
        '\u{2587}'
    } else {
        '\u{2588}'
    }
}

/// The leftmost column of bar `i`.
pub open spec fn spec_bar_x(area: Rect, i: int, gap: bool) -> int {
    area.x + i * spec_bar_step(gap)
}

/// How many columns of bar `i` lie inside the area.
pub open spec fn spec_visible_bar_width(area: Rect, i: int, gap: bool) -> int {
    let room = area.x + area.width - spec_bar_x(area, i, gap);
    if room <= 0 {
        0
    } else if room < spec_bar_width(gap) {
        room
    } else {
        spec_bar_width(gap)
    }
}

/// The cell in column `dx` of bar `i`, `dy` rows above the bottom row.
pub open spec fn spec_bar_cell(area: Rect, i: int, gap: bool, dy: int, dx: int, symbol: char, color: Color) -> CellWrite {
    CellWrite {
        x: (spec_bar_x(area, i, gap) + dx) as u16,
        y: (area.y + area.height - 1 - dy) as u16,
        symbol,
        fg: Some(color),
        bg: None,
    }
}

fn eighth_block(eighths: u8) -> (c: char)
    ensures
        c == spec_eighth_block(eighths as int),
{
    match eighths {
        1 => '\u{2581}',
        2 => '\u{2582}',
        3 => '\u{2583}',
        4 => '\u{2584}',
        5 => '\u{2585}',
        6 => '\u{2586}',
        7 => '\u{2587}',
        _ => '\u{2588}',
    }
}

/// Columns per bar, columns from bar to bar, and the number of bars for
/// an area `width` columns wide.
pub fn bar_layout(width: u16, gap: bool) -> (r: (u16, u16, usize))
    requires
        width < u16::MAX,
    ensures
        r.0 == spec_bar_width(gap),
        r.1 == spec_bar_step(gap),
        r.2 == spec_num_bars(width as int, gap),
{
    let bar_width: u16 = if gap {
        2
    } else {
        1
    };
    let bar_step: u16 = if gap {
        bar_width + 1
    } else {
        bar_width
    };
    (bar_width, bar_step, ((width + 1) / bar_step) as usize)
}

/// The cells of bar `i` growing up from the bottom of `area`: `full_cells`
/// rows of full blocks and, when `remainder` is not zero, one row above
/// them filled `remainder` eighths, all in `color`. Row `dy` of the result
/// is `dy` rows above the bottom row; columns of the bar beyond the right
/// edge of the area are left out.
pub fn bar_cells(area: &Rect, i: usize, gap: bool, full_cells: u16, remainder: u8, color: Color) -> (rows: Vec<Vec<CellWrite>>)
    requires
        area.fits(),
        area.width < u16::MAX,
        i < spec_num_bars(area.width as int, gap),
        full_cells <= area.height,
        remainder < 8,
        remainder > 0 ==> full_cells < area.height,
    ensures
        rows@.len() == full_cells + (if remainder > 0 {
            1int
        } else {
            0
        }),
        forall|dy: int|
            0 <= dy < rows@.len() ==> #[trigger] rows@[dy]@.len() == spec_visible_bar_width(*area, i as int, gap),
        forall|dy: int, dx: int|
            0 <= dy < full_cells && 0 <= dx < rows@[dy]@.len() ==> #[trigger] rows@[dy]@[dx]
                == spec_bar_cell(*area, i as int, gap, dy, dx, '\u{2588}', color),
        remainder > 0 ==> forall|dx: int|
            0 <= dx < rows@[full_cells as int]@.len() ==> #[trigger] rows@[full_cells as int]@[dx]
                == spec_bar_cell(*area, i as int, gap, full_cells as int, dx, spec_eighth_block(remainder as int), color),
{
    let (bar_width, bar_step, _num_bars) = bar_layout(area.width, gap);
    assert(i * bar_step + bar_step <= area.width as int + 1) by (nonlinear_arith)
        requires
            i < (area.width + 1) / (bar_step as int),
            bar_step >= 1,
    ;
    let x = area.x + (i as u16) * bar_step;
    let right = area.x + area.width;
    let mut rows: Vec<Vec<CellWrite>> = Vec::new();
    let mut dy: u16 = 0;
    let total: u16 = if remainder > 0 {
        full_cells + 1
    } else {
        full_cells
    };
    while dy < total
        invariant
            area.fits(),
            x == spec_bar_x(*area, i as int, gap),
            bar_width == spec_bar_width(gap),
            right == area.x + area.width,
            x + bar_width <= right + 1,
            total == full_cells + (if remainder > 0 {
                1int
            } else {
                0
            }),
            total <= area.height,
            dy <= total,
            rows@.len() == dy,
            forall|j: int|
                0 <= j < dy ==> #[trigger] rows@[j]@.len() == spec_visible_bar_width(*area, i as int, gap),
            forall|j: int, dx: int|
                0 <= j < dy && j < full_cells && 0 <= dx < rows@[j]@.len() ==> #[trigger] rows@[j]@[dx]
                    == spec_bar_cell(*area, i as int, gap, j, dx, '\u{2588}', color),
            forall|j: int, dx: int|
                0 <= j < dy && j == full_cells && 0 <= dx < rows@[j]@.len() ==> #[trigger] rows@[j]@[dx]
                    == spec_bar_cell(*area, i as int, gap, j, dx, spec_eighth_block(remainder as int), color),
        decreases total - dy,
    {
        let symbol = if dy < full_cells {
            '\u{2588}'
        } else {
            eighth_block(remainder)
        };
        let y = area.y + area.height - 1 - dy;
        let mut row: Vec<CellWrite> = Vec::new();
        let mut dx: u16 = 0;
        while dx < bar_width
            invariant
                area.fits(),
                x == spec_bar_x(*area, i as int, gap),
                bar_width == spec_bar_width(gap),
                right == area.x + area.width,
                x + bar_width <= right + 1,
                y == area.y + area.height - 1 - dy,
                dx <= bar_width,
                row@.len() == if dx as int <= spec_visible_bar_width(*area, i as int, gap) {
                    dx as int
                } else {
                    spec_visible_bar_width(*area, i as int, gap)
                },
                forall|k: int|
                    0 <= k < row@.len() ==> #[trigger] row@[k] == spec_bar_cell(*area, i as int, gap, dy as int, k, symbol, color),
            decreases bar_width - dx,
        {
            if x + dx < right {
                row.push(CellWrite { x: x + dx, y, symbol, fg: Some(color), bg: None });
            }
            dx = dx + 1;
        }
        rows.push(row);
        dy = dy + 1;
    }
    rows
}

/// Every cell of a bar lies inside the area the bars are drawn into.
pub proof fn lemma_bar_cells_inside(area: Rect, i: int, gap: bool, dy: int, dx: int, symbol: char, color: Color)
    requires
        area.fits(),
        0 <= i,
        0 <= dy < area.height,
        0 <= dx < spec_visible_bar_width(area, i, gap),
    ensures
        area.holds(
            spec_bar_cell(area, i, gap, dy, dx, symbol, color).x as int,
            spec_bar_cell(area, i, gap, dy, dx, symbol, color).y as int,
        ),
{
    assert(0 <= i * spec_bar_step(gap)) by (nonlinear_arith)
        requires
            0 <= i,
            spec_bar_step(gap) >= 1,
    ;
}

/// The switches of the spectrum bars that keys toggle.
#[derive(Clone, Copy, Debug, PartialEq, Eq, Structural)]
pub struct SpectrumSettings {
    /// Two-column bars with a gap between them instead of one-column bars.
    pub gap: bool,
    /// Whole-cell bars instead of bars with eighth-cell tops.
    pub chunky: bool,
    pub palette: ColorPalette,
    /// Colors cycle through the palette over time.
    pub cycling: bool,
}

/// What a key did to the spectrum bars.
#[derive(Clone, Copy, Debug, PartialEq, Eq, Structural)]
pub struct KeyOutcome {
    /// The key was one of the bars' keys.
    pub handled: bool,
    /// Color cycling was switched off, so its phase goes back to the start.
    pub reset_phase: bool,
}

impl SpectrumSettings {
    /// One-column whole-cell bars in the neon palette, not cycling.
    pub fn new() -> (s: Self)
        ensures
            !s.gap,
            s.chunky,
            s.palette == ColorPalette::Neon,
            !s.cycling,
    {
        SpectrumSettings { gap: false, chunky: true, palette: ColorPalette::Neon, cycling: false }
    }

    /// The settings after key `c`: `g` toggles gaps, `c` chunky bars, `r`
    /// color cycling, `p` and `P` step to the next and previous palette;
    /// other keys change nothing.
    pub open spec fn spec_on_key(self, c: char) -> (SpectrumSettings, KeyOutcome) {
        if c == 'g' {
            (SpectrumSettings { gap: !self.gap, ..self }, KeyOutcome { handled: true, reset_phase: false })
        } else if c == 'c' {
            (SpectrumSettings { chunky: !self.chunky, ..self }, KeyOutcome { handled: true, reset_phase: false })
        } else if c == 'r' {
            (
                SpectrumSettings { cycling: !self.cycling, ..self },
                KeyOutcome { handled: true, reset_phase: self.cycling },
            )
        } else if c == 'p' {
            (SpectrumSettings { palette: self.palette.spec_next(), ..self }, KeyOutcome { handled: true, reset_phase: false })
        } else if c == 'P' {
            (SpectrumSettings { palette: self.palette.spec_prev(), ..self }, KeyOutcome { handled: true, reset_phase: false })
        } else {
            (self, KeyOutcome { handled: false, reset_phase: false })
        }
    }

    /// Applies key `c` and tells whether it was handled and whether the
    /// cycling phase has to be reset.
    pub fn on_key(&mut self, c: char) -> (o: KeyOutcome)
        ensures
            (*final(self), o) == old(self).spec_on_key(c),
    {
        match c {
            'g' => {
                self.gap = !self.gap;
                KeyOutcome { handled: true, reset_phase: false }
            },
            'c' => {
                self.chunky = !self.chunky;
                KeyOutcome { handled: true, reset_phase: false }
            },
            'r' => {
                self.cycling = !self.cycling;
                KeyOutcome { handled: true, reset_phase: !self.cycling }
            },
            'p' => {
                self.palette = self.palette.next();
                KeyOutcome { handled: true, reset_phase: false }
            },
            'P' => {
                self.palette = self.palette.prev();
                KeyOutcome { handled: true, reset_phase: false }
            },
            _ => KeyOutcome { handled: false, reset_phase: false },
        }
    }
}

/// Pressing a toggle key twice, or `p` then `P`, restores the settings.
pub proof fn lemma_spectrum_keys_undo(s: SpectrumSettings)
    ensures
        s.spec_on_key('g').0.spec_on_key('g').0 == s,
        s.spec_on_key('c').0.spec_on_key('c').0 == s,
        s.spec_on_key('r').0.spec_on_key('r').0 == s,
        s.spec_on_key('p').0.spec_on_key('P').0 == s,
        s.spec_on_key('P').0.spec_on_key('p').0 == s,
{
    lemma_palette_cycle(s.palette);
}

/// Stepping forward then back, or back then forward, returns to the same
/// palette, and twelve steps forward visit every palette once and come back.
pub proof fn lemma_palette_cycle(p: ColorPalette)
    ensures
        p.spec_next().spec_prev() == p,
        p.spec_prev().spec_next() == p,
        p.spec_next().spec_index() == (p.spec_index() + 1) % 12,
        ColorPalette::spec_at(p.spec_index()) == p,
{
}

/// Looking a palette up by its own name finds that palette.
pub proof fn lemma_palette_name_roundtrip(p: ColorPalette)
    ensures
        ColorPalette::spec_from_name(p.spec_name()) == Some(p),
{
    let q = choose|q: ColorPalette| #[trigger] q.spec_name() == p.spec_name();
    lemma_palette_names(p, q);
}

/// Distinct palettes have distinct names.
pub proof fn lemma_palette_names(p: ColorPalette, q: ColorPalette)
    ensures
        p != q ==> p.spec_name() != q.spec_name(),
{
    reveal_strlit("neon");
    reveal_strlit("fire");
    reveal_strlit("ocean");
    reveal_strlit("sunset");
    reveal_strlit("matrix");
    reveal_strlit("ice");
    reveal_strlit("gruvbox-dark");
    reveal_strlit("gruvbox-light");
    reveal_strlit("synthwave");
    reveal_strlit("outrun");
    reveal_strlit("retrowave");
    reveal_strlit("pastel");
    if p != q {
        assert(p.spec_name().len() != q.spec_name().len() || p.spec_name()[0] != q.spec_name()[0]
            || p.spec_name()[1] != q.spec_name()[1] || p.spec_name()[8] != q.spec_name()[8]);
    }
}


/// Each palette is written in configuration files under its own name
/// (`neon`, `fire`, `ocean`, `sunset`, `matrix`, `ice`, `gruvbox-dark`,
/// `gruvbox-light`, `synthwave`, `outrun`, `retrowave`, `pastel`), each name
/// finds that palette, and the palettes cycle in that order, the last
/// coming back to the first.
pub proof fn lemma_palette_names_and_order()
    ensures
        ColorPalette::Neon.spec_name() == "neon"@,
        ColorPalette::Fire.spec_name() == "fire"@,
        ColorPalette::Ocean.spec_name() == "ocean"@,
        ColorPalette::Sunset.spec_name() == "sunset"@,
        ColorPalette::Matrix.spec_name() == "matrix"@,
        ColorPalette::Ice.spec_name() == "ice"@,
        ColorPalette::GruvboxDark.spec_name() == "gruvbox-dark"@,
        ColorPalette::GruvboxLight.spec_name() == "gruvbox-light"@,
        ColorPalette::Synthwave.spec_name() == "synthwave"@,
        ColorPalette::Outrun.spec_name() == "outrun"@,
        ColorPalette::Retrowave.spec_name() == "retrowave"@,
        ColorPalette::Pastel.spec_name() == "pastel"@,
        ColorPalette::spec_from_name("neon"@) == Some(ColorPalette::Neon),
        ColorPalette::spec_from_name("fire"@) == Some(ColorPalette::Fire),
        ColorPalette::spec_from_name("ocean"@) == Some(ColorPalette::Ocean),
        ColorPalette::spec_from_name("sunset"@) == Some(ColorPalette::Sunset),
        ColorPalette::spec_from_name("matrix"@) == Some(ColorPalette::Matrix),
        ColorPalette::spec_from_name("ice"@) == Some(ColorPalette::Ice),
        ColorPalette::spec_from_name("gruvbox-dark"@) == Some(ColorPalette::GruvboxDark),
        ColorPalette::spec_from_name("gruvbox-light"@) == Some(ColorPalette::GruvboxLight),
        ColorPalette::spec_from_name("synthwave"@) == Some(ColorPalette::Synthwave),
        ColorPalette::spec_from_name("outrun"@) == Some(ColorPalette::Outrun),
        ColorPalette::spec_from_name("retrowave"@) == Some(ColorPalette::Retrowave),
        ColorPalette::spec_from_name("pastel"@) == Some(ColorPalette::Pastel),
        ColorPalette::Neon.spec_next() == ColorPalette::Fire,
        ColorPalette::Fire.spec_prev() == ColorPalette::Neon,
        ColorPalette::Fire.spec_next() == ColorPalette::Ocean,
        ColorPalette::Ocean.spec_prev() == ColorPalette::Fire,
        ColorPalette::Ocean.spec_next() == ColorPalette::Sunset,
        ColorPalette::Sunset.spec_prev() == ColorPalette::Ocean,
        ColorPalette::Sunset.spec_next() == ColorPalette::Matrix,
        ColorPalette::Matrix.spec_prev() == ColorPalette::Sunset,
        ColorPalette::Matrix.spec_next() == ColorPalette::Ice,
        ColorPalette::Ice.spec_prev() == ColorPalette::Matrix,
        ColorPalette::Ice.spec_next() == ColorPalette::GruvboxDark,
        ColorPalette::GruvboxDark.spec_prev() == ColorPalette::Ice,
        ColorPalette::GruvboxDark.spec_next() == ColorPalette::GruvboxLight,
        ColorPalette::GruvboxLight.spec_prev() == ColorPalette::GruvboxDark,
        ColorPalette::GruvboxLight.spec_next() == ColorPalette::Synthwave,
        ColorPalette::Synthwave.spec_prev() == ColorPalette::GruvboxLight,
        ColorPalette::Synthwave.spec_next() == ColorPalette::Outrun,
        ColorPalette::Outrun.spec_prev() == ColorPalette::Synthwave,
        ColorPalette::Outrun.spec_next() == ColorPalette::Retrowave,
        ColorPalette::Retrowave.spec_prev() == ColorPalette::Outrun,
        ColorPalette::Retrowave.spec_next() == ColorPalette::Pastel,
        ColorPalette::Pastel.spec_prev() == ColorPalette::Retrowave,
        ColorPalette::Pastel.spec_next() == ColorPalette::Neon,
        ColorPalette::Neon.spec_prev() == ColorPalette::Pastel,
{
    lemma_palette_name_roundtrip(ColorPalette::Neon);
    lemma_palette_name_roundtrip(ColorPalette::Fire);
    lemma_palette_name_roundtrip(ColorPalette::Ocean);
    lemma_palette_name_roundtrip(ColorPalette::Sunset);
    lemma_palette_name_roundtrip(ColorPalette::Matrix);
    lemma_palette_name_roundtrip(ColorPalette::Ice);
    lemma_palette_name_roundtrip(ColorPalette::GruvboxDark);
    lemma_palette_name_roundtrip(ColorPalette::GruvboxLight);
    lemma_palette_name_roundtrip(ColorPalette::Synthwave);
    lemma_palette_name_roundtrip(ColorPalette::Outrun);
    lemma_palette_name_roundtrip(ColorPalette::Retrowave);
    lemma_palette_name_roundtrip(ColorPalette::Pastel);
}

/// A name that no palette has finds nothing.
pub proof fn lemma_palette_unknown_name(s: Seq<char>)
    requires
        forall|p: ColorPalette| #[trigger] p.spec_name() != s,
    ensures
        ColorPalette::spec_from_name(s) is None,
{
}


/// The spectrum bars' keys: `g` switches gaps between bars, `c` whole-cell
/// bars, `r` color cycling (switching it off resets the cycling phase), `p`
/// and `P` step the palette forward and back; every one of them is
/// handled and changes only its own setting. Any other key changes nothing
/// and is not handled.
pub proof fn lemma_spectrum_key_map(s: SpectrumSettings, c: char)
    ensures
        ({
            let (t, o) = s.spec_on_key(c);
            &&& c == 'g' ==> t.gap == !s.gap && t.chunky == s.chunky && t.palette == s.palette
                && t.cycling == s.cycling && o.handled && !o.reset_phase
            &&& c == 'c' ==> t.chunky == !s.chunky && t.gap == s.gap && t.palette == s.palette
                && t.cycling == s.cycling && o.handled && !o.reset_phase
            &&& c == 'r' ==> t.cycling == !s.cycling && t.gap == s.gap && t.chunky == s.chunky
                && t.palette == s.palette && o.handled && o.reset_phase == s.cycling
            &&& c == 'p' ==> t.palette.spec_index() == (s.palette.spec_index() + 1) % 12 && t.gap
                == s.gap && t.chunky == s.chunky && t.cycling == s.cycling && o.handled && !o.reset_phase
            &&& c == 'P' ==> t.palette.spec_index() == (s.palette.spec_index() + 11) % 12 && t.gap
                == s.gap && t.chunky == s.chunky && t.cycling == s.cycling && o.handled && !o.reset_phase
            &&& (c != 'g' && c != 'c' && c != 'r' && c != 'p' && c != 'P') ==> t == s && !o.handled
                && !o.reset_phase
        }),
{
    lemma_palette_cycle(s.palette);
    lemma_palette_cycle(s.palette.spec_prev());
}


/// Bars are one column wide and touch without gaps, or two columns wide
/// with one blank column between them; as many bars are drawn as fit,
/// counting a bar that only its first column of fits. A bar top filled `k`
/// eighths of a cell (1 to 8) shows the block symbol U+2580 + `k`, whose
/// lit part grows with `k` up to the full block U+2588.
pub proof fn lemma_bar_tables(width: int, gap: bool, k: int)
    requires
        width >= 0,
        1 <= k <= 8,
    ensures
        spec_bar_width(false) == 1 && spec_bar_step(false) == 1,
        spec_bar_width(true) == 2 && spec_bar_step(true) == 3,
        spec_num_bars(width, gap) * spec_bar_step(gap) <= width + 1 < (spec_num_bars(width, gap) + 1)
            * spec_bar_step(gap),
        spec_eighth_block(k) as u32 == 0x2580 + k,
{
    let st = spec_bar_step(gap);
    vstd::arithmetic::div_mod::lemma_fundamental_div_mod(width + 1, st);
    assert(((width + 1) / st) * st <= width + 1 < ((width + 1) / st + 1) * st) by (nonlinear_arith)
        requires
            width + 1 == st * ((width + 1) / st) + (width + 1) % st,
            0 <= (width + 1) % st < st,
    ;
}

} // verus!
