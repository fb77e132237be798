//! Terminal colors and the pixel canvases that map onto terminal cells.
use vstd::prelude::*;

verus! {

/// A terminal color: the sixteen named colors, the terminal default,
/// a 24-bit RGB color or an entry of the 256-color palette.
#[derive(Clone, Copy, Debug, PartialEq, Eq, Structural)]
pub enum Color {
    Reset,
    Black,
    Red,
    Green,
    Yellow,
    Blue,
    Magenta,
    Cyan,
    Gray,
    DarkGray,
    LightRed,
    LightGreen,
    LightYellow,
    LightBlue,
    LightMagenta,
    LightCyan,
    White,
    Rgb(u8, u8, u8),
    Indexed(u8),
}

/// The largest multiple of `step` that is not above `v`.
pub open spec fn quantize_channel(v: u8, step: u8) -> int
    recommends
        step > 0,
{
    (v / step) * step
}

/// What `quantize_color` gives: RGB channels rounded down to multiples of
/// `step`, every other color unchanged.
pub open spec fn quantized(color: Color, step: u8) -> Color {
    match color {
        Color::Rgb(r, g, b) => Color::Rgb(
            quantize_channel(r, step) as u8,
            quantize_channel(g, step) as u8,
            quantize_channel(b, step) as u8,
        ),
        other => other,
    }
}

proof fn lemma_quantize_channel_bounds(v: u8, step: u8)
    requires
        step > 0,
    ensures
        0 <= quantize_channel(v, step) <= v,
        v - quantize_channel(v, step) < step,
        quantize_channel(v, step) % (step as int) == 0,
{
    let q = (v / step) as int;
    assert(q * step <= v && v < q * step + step) by (nonlinear_arith)
        requires
            q == v as int / step as int,
            step > 0,
            v >= 0,
    ;
    assert(0 <= q * step) by (nonlinear_arith)
        requires
            q >= 0,
            step > 0,
    ;
    vstd::arithmetic::div_mod::lemma_mod_multiples_basic(q, step as int);
}

fn quantize_channel_exec(v: u8, step: u8) -> (res: u8)
    requires
        step > 0,
    ensures
        res == quantize_channel(v, step),
{
    proof {
        lemma_quantize_channel_bounds(v, step);
    }
    (v / step) * step
}

/// Reduces an RGB color to a coarser grid so that neighbouring cells more
/// often share one color; colors that are not RGB pass through.
pub fn quantize_color(color: Color, step: u8) -> (res: Color)
    requires
        step > 0,
    ensures
        res == quantized(color, step),
{
    match color {
        Color::Rgb(r, g, b) => Color::Rgb(
            quantize_channel_exec(r, step),
            quantize_channel_exec(g, step),
            quantize_channel_exec(b, step),
        ),
        other => other,
    }
}

/// Quantizing rounds every RGB channel down to a multiple of the step, by
/// less than one step, and quantizing twice changes nothing more.
pub proof fn lemma_quantize_properties(color: Color, step: u8)
    requires
        step > 0,
    ensures
        quantized(quantized(color, step), step) == quantized(color, step),
        color matches Color::Rgb(r, g, b) ==> quantized(color, step) matches Color::Rgb(
            qr,
            qg,
            qg2,
        ) && qr <= r && r - qr < step && qr % step == 0 && qg <= g && g - qg < step && qg % step
            == 0 && qg2 <= b && b - qg2 < step && qg2 % step == 0,
        !(color is Rgb) ==> quantized(color, step) == color,
{
    if let Color::Rgb(r, g, b) = color {
        lemma_quantize_channel_bounds(r, step);
        lemma_quantize_channel_bounds(g, step);
        lemma_quantize_channel_bounds(b, step);
        let qr = quantize_channel(r, step) as u8;
        let qg = quantize_channel(g, step) as u8;
        let qb = quantize_channel(b, step) as u8;
        lemma_quantize_fixed(qr, step);
        lemma_quantize_fixed(qg, step);
        lemma_quantize_fixed(qb, step);
    }
}

proof fn lemma_quantize_fixed(v: u8, step: u8)
    requires
        step > 0,
        v % step == 0,
    ensures
        quantize_channel(v, step) == v,
{
    vstd::arithmetic::div_mod::lemma_fundamental_div_mod(v as int, step as int);
    let q = v as int / step as int;
    assert(q * step == step * q) by (nonlinear_arith);
}


/// A rectangle of terminal cells: its top-left corner and its size.
#[derive(Clone, Copy, Debug, PartialEq, Eq, Structural)]
pub struct Rect {
    pub x: u16,
    pub y: u16,
    pub width: u16,
    pub height: u16,
}

impl Rect {
    /// The right and bottom edges stay within `u16`, as for every rectangle
    /// a terminal frame hands out.
    pub open spec fn fits(&self) -> bool {
        self.x + self.width <= u16::MAX && self.y + self.height <= u16::MAX
    }

    /// Whether the cell at (`x`, `y`) lies inside the rectangle.
    pub open spec fn holds(&self, x: int, y: int) -> bool {
        self.x <= x < self.x + self.width && self.y <= y < self.y + self.height
    }
}

/// One terminal cell to draw: its position, its symbol, and the foreground
/// and background colors to set (`None` leaves that color as it was).
#[derive(Clone, Copy, Debug, PartialEq, Eq, Structural)]
pub struct CellWrite {
    pub x: u16,
    pub y: u16,
    pub symbol: char,
    pub fg: Option<Color>,
    pub bg: Option<Color>,
}

/// Index `i` of `n` positions scaled onto `len` entries: `i * len / n`,
/// kept to the last entry (0 when there are none).
pub open spec fn spec_scaled_index(i: int, n: int, len: int) -> int {
    let last = if len > 0 {
        len - 1
    } else {
        0
    };
    let s = i * len / n;
    if s < last {
        s
    } else {
        last
    }
}

/// Maps position `i` of `n` (a screen column or row) to an entry of a
/// sequence of `len` entries (samples or bands), spreading the entries
/// evenly and never going past the last one.
pub fn scaled_index(i: usize, n: usize, len: usize) -> (r: usize)
    requires
        n > 0,
        i * len <= usize::MAX,
    ensures
        r == spec_scaled_index(i as int, n as int, len as int),
        len > 0 ==> r < len,
        len == 0 ==> r == 0,
{
    let last = if len > 0 {
        len - 1
    } else {
        0
    };
    let s = i * len / n;
    if s < last {
        s
    } else {
        last
    }
}

/// Position `i` of `n` maps to the entry whose share of the `len` entries
/// holds `i`: the result `r` is a valid entry, and unless it is the last
/// entry, `r * n <= i * len < (r + 1) * n` (the entries are stretched over
/// the positions, never wrapped); the last entry takes every position from
/// `(len - 1) * n / len` on. Later positions never map to earlier entries,
/// whether there are more positions than entries or fewer.
pub proof fn lemma_scaled_index_stretches(i: int, j: int, n: int, len: int)
    requires
        n > 0,
        len > 0,
        0 <= i <= j,
    ensures
        0 <= spec_scaled_index(i, n, len) < len,
        spec_scaled_index(i, n, len) < len - 1 ==> spec_scaled_index(i, n, len) * n <= i * len < (
        spec_scaled_index(i, n, len) + 1) * n,
        spec_scaled_index(i, n, len) == len - 1 ==> (len - 1) * n <= i * len,
        i * len >= (len - 1) * n ==> spec_scaled_index(i, n, len) == len - 1,
        spec_scaled_index(i, n, len) <= spec_scaled_index(j, n, len),
{
    let q = i * len / n;
    assert(0 <= i * len) by (nonlinear_arith)
        requires
            0 <= i,
            len > 0,
    ;
    assert(i * len <= j * len) by (nonlinear_arith)
        requires
            i <= j,
            len > 0,
    ;
    vstd::arithmetic::div_mod::lemma_fundamental_div_mod(i * len, n);
    vstd::arithmetic::div_mod::lemma_div_is_ordered(i * len, j * len, n);
    vstd::arithmetic::div_mod::lemma_div_pos_is_pos(i * len, n);
    assert(q * n <= i * len < (q + 1) * n) by (nonlinear_arith)
        requires
            i * len == n * q + (i * len) % n,
            0 <= (i * len) % n < n,
    ;
    if q >= len - 1 {
        assert((len - 1) * n <= q * n) by (nonlinear_arith)
            requires
                q >= len - 1,
                n > 0,
        ;
    }
    if i * len >= (len - 1) * n {
        assert(q >= len - 1) by (nonlinear_arith)
            requires
                i * len < (q + 1) * n,
                i * len >= (len - 1) * n,
                n > 0,
        ;
    }
}

/// Calls `char::from_u32`, which std documents to return `Some(c)` exactly
/// when the value is a Unicode scalar value, `c` being that scalar.
#[verifier::external_body]
fn char_from_u32(v: u32) -> (r: Option<char>)
    ensures
        r == (if vstd::utf8::is_scalar(v) {
            Some(v as char)
        } else {
            None
        }),
{
    char::from_u32(v)
}

/// The braille symbol whose raised dots are the bits of `code`
/// (U+2800 plus the dot pattern).
pub open spec fn braille_symbol(code: int) -> char {
    ((0x2800 + code) as u32) as char
}

/// The smaller of two numbers.
pub open spec fn min_int(a: int, b: int) -> int {
    if a <= b {
        a
    } else {
        b
    }
}

/// A pixel canvas drawn with Unicode braille symbols: every terminal cell
/// holds a 2x4 grid of dots, so the canvas has twice the columns and four
/// times the rows of the cell grid in pixels.
pub struct BrailleCanvas {
    cols: u16,
    rows: u16,
    /// Row-major pixels, `pixel_width * pixel_height` of them.
    pixels: Vec<bool>,
}

impl BrailleCanvas {
    /// Terminal columns covered by the canvas.
    pub closed spec fn spec_cols(&self) -> nat {
        self.cols as nat
    }

    /// Terminal rows covered by the canvas.
    pub closed spec fn spec_rows(&self) -> nat {
        self.rows as nat
    }

    pub open spec fn spec_pixel_width(&self) -> nat {
        self.spec_cols() * 2
    }

    pub open spec fn spec_pixel_height(&self) -> nat {
        self.spec_rows() * 4
    }

    /// The pixel buffer covers exactly the canvas.
    pub closed spec fn wf(&self) -> bool {
        self.pixels@.len() == self.spec_pixel_width() * self.spec_pixel_height()
    }

    /// Whether pixel (`x`, `y`) is set; pixels outside the canvas never are.
    pub closed spec fn is_set(&self, x: int, y: int) -> bool {
        &&& 0 <= x < self.spec_pixel_width()
        &&& 0 <= y < self.spec_pixel_height()
        &&& self.pixels@[y * self.spec_pixel_width() + x]
    }

    /// No pixel of the canvas is set.
    pub open spec fn is_blank(&self) -> bool {
        forall|x: int, y: int| !#[trigger] self.is_set(x, y)
    }

    /// The dot pattern of cell (`cx`, `cy`): the left column of dots, top to
    /// bottom, has weights 1, 2, 4, 64 and the right column 8, 16, 32, 128,
    /// as in the Unicode braille block.
    pub open spec fn cell_code(&self, cx: int, cy: int) -> int {
        let px = 2 * cx;
        let py = 4 * cy;
        (if self.is_set(px, py) { 1int } else { 0 })
            + (if self.is_set(px, py + 1) { 2int } else { 0 })
            + (if self.is_set(px, py + 2) { 4int } else { 0 })
            + (if self.is_set(px + 1, py) { 8int } else { 0 })
            + (if self.is_set(px + 1, py + 1) { 16int } else { 0 })
            + (if self.is_set(px + 1, py + 2) { 32int } else { 0 })
            + (if self.is_set(px, py + 3) { 64int } else { 0 })
            + (if self.is_set(px + 1, py + 3) { 128int } else { 0 })
    }

    /// The write for cell (`cx`, `cy`) of the canvas drawn into `area`.
    pub open spec fn cell_write(&self, area: Rect, color: Color, cx: int, cy: int) -> CellWrite {
        CellWrite {
            x: (area.x + cx) as u16,
            y: (area.y + cy) as u16,
            symbol: braille_symbol(self.cell_code(cx, cy)),
            fg: Some(quantized(color, 16)),
            bg: None,
        }
    }

    /// Creates a blank canvas of `cols` x `rows` terminal cells.
    pub fn new(cols: u16, rows: u16) -> (canvas: Self)
        requires
            (cols as int) * 2 * (rows as int) * 4 <= usize::MAX,
        ensures
            canvas.wf(),
            canvas.spec_cols() == cols,
            canvas.spec_rows() == rows,
            canvas.is_blank(),
    {
        let pw = cols as usize * 2;
        let ph = rows as usize * 4;
        assert(pw * ph == (cols as int) * 2 * (rows as int) * 4) by (nonlinear_arith)
            requires
                pw == cols * 2,
                ph == rows * 4,
        ;
        let n = pw * ph;
        let mut pixels: Vec<bool> = Vec::with_capacity(n);
        while pixels.len() < n
            invariant
                pixels@.len() <= n,
                forall|i: int| 0 <= i < pixels@.len() ==> !pixels@[i],
            decreases n - pixels@.len(),
        {
            pixels.push(false);
        }
        let canvas = BrailleCanvas { cols, rows, pixels };
        proof {
            assert forall|x: int, y: int| !#[trigger] canvas.is_set(x, y) by {
                if 0 <= x < pw && 0 <= y < ph {
                    lemma_grid_index(x, y, pw as int, ph as int);
                }
            }
        }
        canvas
    }

    /// Keeps the canvas and clears it when its size is already `cols` x
    /// `rows`, and otherwise replaces it with a blank canvas of that size.
    pub fn resize_or_clear(&mut self, cols: u16, rows: u16)
        requires
            old(self).wf(),
            (cols as int) * 2 * (rows as int) * 4 <= usize::MAX,
        ensures
            final(self).wf(),
            final(self).spec_cols() == cols,
            final(self).spec_rows() == rows,
            final(self).is_blank(),
    {
        if self.cols != cols || self.rows != rows {
            *self = Self::new(cols, rows);
        } else {
            self.clear();
        }
    }

    /// Width of the canvas in pixels.
    pub fn pixel_width(&self) -> (w: usize)
        ensures
            w == self.spec_pixel_width(),
    {
        self.cols as usize * 2
    }

    /// Height of the canvas in pixels.
    pub fn pixel_height(&self) -> (h: usize)
        ensures
            h == self.spec_pixel_height(),
    {
        self.rows as usize * 4
    }

    /// Sets pixel (`x`, `y`); a pixel outside the canvas is ignored.
    pub fn set(&mut self, x: usize, y: usize)
        requires
            old(self).wf(),
        ensures
            final(self).wf(),
            final(self).spec_cols() == old(self).spec_cols(),
            final(self).spec_rows() == old(self).spec_rows(),
            forall|px: int, py: int|
                #[trigger] final(self).is_set(px, py) == (old(self).is_set(px, py) || (px == x
                    && py == y && x < old(self).spec_pixel_width() && y
                    < old(self).spec_pixel_height())),
    {
        let pw = self.pixel_width();
        let ph = self.pixel_height();
        if x < pw && y < ph {
            proof {
                lemma_grid_index(x as int, y as int, pw as int, ph as int);
                assert(self.pixels@.len() == self.pixels.len());
                assert(y * pw + x < self.pixels@.len());
            }
            let i = y * pw + x;
            self.pixels.set(i, true);
            proof {
                assert forall|px: int, py: int|
                    #[trigger] self.is_set(px, py) == (old(self).is_set(px, py) || (px == x && py
                        == y)) by {
                    if 0 <= px < pw && 0 <= py < ph {
                        lemma_grid_index(px, py, pw as int, ph as int);
                        if py * pw + px == y * pw + x {
                            lemma_grid_index_injective(px, py, x as int, y as int, pw as int);
                        }
                    }
                }
            }
        }
    }

    /// Unsets every pixel.
    pub fn clear(&mut self)
        requires
            old(self).wf(),
        ensures
            final(self).wf(),
            final(self).spec_cols() == old(self).spec_cols(),
            final(self).spec_rows() == old(self).spec_rows(),
            final(self).is_blank(),
    {
        let n = self.pixels.len();
        let mut i: usize = 0;
        while i < n
            invariant
                i <= n,
                n == self.pixels@.len(),
                self.cols == old(self).cols,
                self.rows == old(self).rows,
                self.wf(),
                forall|j: int| 0 <= j < i ==> !self.pixels@[j],
            decreases n - i,
        {
            self.pixels.set(i, false);
            i = i + 1;
        }
        proof {
            let pw = self.spec_pixel_width() as int;
            let ph = self.spec_pixel_height() as int;
            assert forall|x: int, y: int| !#[trigger] self.is_set(x, y) by {
                if 0 <= x < pw && 0 <= y < ph {
                    lemma_grid_index(x, y, pw, ph);
                }
            }
        }
    }

    /// Pixel (`x`, `y`) as stored, `false` outside the canvas.
    fn lit(&self, x: usize, y: usize) -> (b: bool)
        requires
            self.wf(),
        ensures
            b == self.is_set(x as int, y as int),
    {
        let pw = self.pixel_width();
        let ph = self.pixel_height();
        if x < pw && y < ph {
            proof {
                lemma_grid_index(x as int, y as int, pw as int, ph as int);
                assert(self.pixels@.len() == self.pixels.len());
                assert(y * pw + x < self.pixels@.len());
            }
            self.pixels[y * pw + x]
        } else {
            false
        }
    }

    fn cell_code_exec(&self, cx: usize, cy: usize) -> (code: u8)
        requires
            self.wf(),
            cx < self.spec_cols(),
            cy < self.spec_rows(),
        ensures
            code == self.cell_code(cx as int, cy as int),
    {
        let px = cx * 2;
        let py = cy * 4;
        let mut code: u8 = 0;
        if self.lit(px, py) {
            code = code + 1;
        }
        if self.lit(px, py + 1) {
            code = code + 2;
        }
        if self.lit(px, py + 2) {
            code = code + 4;
        }
        if self.lit(px + 1, py) {
            code = code + 8;
        }
        if self.lit(px + 1, py + 1) {
            code = code + 16;
        }
        if self.lit(px + 1, py + 2) {
            code = code + 32;
        }
        if self.lit(px, py + 3) {
            code = code + 64;
        }
        if self.lit(px + 1, py + 3) {
            code = code + 128;
        }
        code
    }

    /// The cells that draw the canvas into `area`, row by row, in the given
    /// color quantized to steps of 16; cells of the canvas that fall outside
    /// the area are not drawn.
    pub fn render(&self, area: &Rect, color: Color) -> (cells: Vec<Vec<CellWrite>>)
        requires
            self.wf(),
            area.fits(),
        ensures
            cells@.len() == min_int(self.spec_rows() as int, area.height as int),
            forall|cy: int|
                0 <= cy < cells@.len() ==> #[trigger] cells@[cy]@.len() == min_int(
                    self.spec_cols() as int,
                    area.width as int,
                ),
            forall|cy: int, cx: int|
                0 <= cy < cells@.len() && 0 <= cx < cells@[cy]@.len() ==> #[trigger] cells@[cy]@[cx]
                    == self.cell_write(*area, color, cx, cy),
    {
        let fg = quantize_color(color, 16);
        let render_cols = if self.cols < area.width {
            self.cols
        } else {
            area.width
        };
        let render_rows = if self.rows < area.height {
            self.rows
        } else {
            area.height
        };
        let mut cells: Vec<Vec<CellWrite>> = Vec::new();
        let mut cy: u16 = 0;
        while cy < render_rows
            invariant
                self.wf(),
                area.fits(),
                fg == quantized(color, 16),
                render_cols == min_int(self.spec_cols() as int, area.width as int),
                render_rows == min_int(self.spec_rows() as int, area.height as int),
                cy <= render_rows,
                cells@.len() == cy,
                forall|j: int| 0 <= j < cy ==> #[trigger] cells@[j]@.len() == render_cols,
                forall|j: int, cx: int|
                    0 <= j < cy && 0 <= cx < render_cols ==> #[trigger] cells@[j]@[cx]
                        == self.cell_write(*area, color, cx, j),
            decreases render_rows - cy,
        {
            let mut row: Vec<CellWrite> = Vec::new();
            let mut cx: u16 = 0;
            while cx < render_cols
                invariant
                    self.wf(),
                    area.fits(),
                    fg == quantized(color, 16),
                    render_cols == min_int(self.spec_cols() as int, area.width as int),
                    render_rows == min_int(self.spec_rows() as int, area.height as int),
                    cy < render_rows,
                    cx <= render_cols,
                    row@.len() == cx,
                    forall|k: int|
                        0 <= k < cx ==> #[trigger] row@[k] == self.cell_write(
                            *area,
                            color,
                            k,
                            cy as int,
                        ),
                decreases render_cols - cx,
            {
                let code = self.cell_code_exec(cx as usize, cy as usize);
                let symbol = char_from_u32(0x2800 + code as u32).unwrap_or(' ');
                row.push(CellWrite { x: area.x + cx, y: area.y + cy, symbol, fg: Some(fg), bg: None });
                cx = cx + 1;
            }
            cells.push(row);
            cy = cy + 1;
        }
        cells
    }
}

impl BrailleCanvas {
    /// Every cell that `render` draws lies inside the area it draws into.
    pub proof fn lemma_render_stays_in_area(&self, area: Rect, color: Color, cx: int, cy: int)
        requires
            area.fits(),
            0 <= cx < min_int(self.spec_cols() as int, area.width as int),
            0 <= cy < min_int(self.spec_rows() as int, area.height as int),
        ensures
            area.holds(
                self.cell_write(area, color, cx, cy).x as int,
                self.cell_write(area, color, cx, cy).y as int,
            ),
    {
    }

    /// A set pixel shows as a raised dot: the symbol of its cell is neither
    /// the empty braille pattern nor a space.
    pub proof fn lemma_set_pixel_shows(&self, px: int, py: int)
        requires
            self.is_set(px, py),
        ensures
            self.cell_code(px / 2, py / 4) != 0,
            braille_symbol(self.cell_code(px / 2, py / 4)) != '\u{2800}',
            braille_symbol(self.cell_code(px / 2, py / 4)) != ' ',
    {
        let cx = px / 2;
        let cy = py / 4;
        let c = self.cell_code(cx, cy);
        assert(0 < c < 256);
        assert(px == 2 * cx || px == 2 * cx + 1);
        assert(py == 4 * cy || py == 4 * cy + 1 || py == 4 * cy + 2 || py == 4 * cy + 3);
        lemma_braille_symbol_distinct(c);
    }

    /// Each dot of a cell is its own bit of the braille pattern, as in the
    /// Unicode braille block: in the left column the top three dots are bits
    /// 0, 1, 2 and the bottom dot bit 6; in the right column the top three
    /// are bits 3, 4, 5 and the bottom dot bit 7. A bit is set exactly when
    /// its pixel is, and the cell's symbol is U+2800 plus the pattern.
    pub proof fn lemma_braille_dot_bits(&self, cx: int, cy: int)
        ensures
            ({
                let code = self.cell_code(cx, cy);
                let px = 2 * cx;
                let py = 4 * cy;
                &&& 0 <= code < 256
                &&& (code % 2 == 1) == self.is_set(px, py)
                &&& ((code / 2) % 2 == 1) == self.is_set(px, py + 1)
                &&& ((code / 4) % 2 == 1) == self.is_set(px, py + 2)
                &&& ((code / 8) % 2 == 1) == self.is_set(px + 1, py)
                &&& ((code / 16) % 2 == 1) == self.is_set(px + 1, py + 1)
                &&& ((code / 32) % 2 == 1) == self.is_set(px + 1, py + 2)
                &&& ((code / 64) % 2 == 1) == self.is_set(px, py + 3)
                &&& ((code / 128) % 2 == 1) == self.is_set(px + 1, py + 3)
                &&& braille_symbol(code) as u32 == 0x2800 + code
            }),
    {
        let px = 2 * cx;
        let py = 4 * cy;
        let b = |x: bool| -> int { if x { 1 } else { 0 } };
        lemma_bit_sum(
            b(self.is_set(px, py)),
            b(self.is_set(px, py + 1)),
            b(self.is_set(px, py + 2)),
            b(self.is_set(px + 1, py)),
            b(self.is_set(px + 1, py + 1)),
            b(self.is_set(px + 1, py + 2)),
            b(self.is_set(px, py + 3)),
            b(self.is_set(px + 1, py + 3)),
        );
        let code = self.cell_code(cx, cy);
        let u = (0x2800 + code) as u32;
        assert(vstd::utf8::is_scalar(u));
        assert((u as char) as u32 == u);
    }

    /// A canvas with no pixel set shows only empty braille patterns.
    pub proof fn lemma_blank_shows_empty(&self, cx: int, cy: int)
        requires
            self.is_blank(),
        ensures
            self.cell_code(cx, cy) == 0,
            braille_symbol(self.cell_code(cx, cy)) == '\u{2800}',
    {
        assert(!self.is_set(2 * cx, 4 * cy));
        assert(!self.is_set(2 * cx, 4 * cy + 1));
        assert(!self.is_set(2 * cx, 4 * cy + 2));
        assert(!self.is_set(2 * cx, 4 * cy + 3));
        assert(!self.is_set(2 * cx + 1, 4 * cy));
        assert(!self.is_set(2 * cx + 1, 4 * cy + 1));
        assert(!self.is_set(2 * cx + 1, 4 * cy + 2));
        assert(!self.is_set(2 * cx + 1, 4 * cy + 3));
    }

    /// Two canvases of one size with no pixel set cannot be told apart: they
    /// report the same pixels and draw the same cells. `new` and
    /// `resize_or_clear` both leave such a canvas, so a canvas resized or
    /// cleared to a size draws exactly as a new canvas of that size.
    pub proof fn lemma_blank_canvases_alike(&self, other: &BrailleCanvas)
        requires
            self.wf(),
            other.wf(),
            self.spec_cols() == other.spec_cols(),
            self.spec_rows() == other.spec_rows(),
            self.is_blank(),
            other.is_blank(),
        ensures
            self.spec_pixel_width() == other.spec_pixel_width(),
            self.spec_pixel_height() == other.spec_pixel_height(),
            forall|x: int, y: int| #[trigger] self.is_set(x, y) == other.is_set(x, y),
            forall|area: Rect, color: Color, cx: int, cy: int|
                #[trigger] self.cell_write(area, color, cx, cy) == other.cell_write(area, color, cx, cy),
    {
        assert forall|area: Rect, color: Color, cx: int, cy: int|
            #[trigger] self.cell_write(area, color, cx, cy) == other.cell_write(area, color, cx, cy) by {
            self.lemma_blank_shows_empty(cx, cy);
            other.lemma_blank_shows_empty(cx, cy);
        }
    }
}

/// What a cell shows whose upper pixel is `top` and lower pixel is `bot`,
/// both already quantized: a full block when they agree, an upper half
/// block over the lower color when they differ, a lower half block when
/// only the lower pixel is set, and a blank when neither is.
pub open spec fn halfblock_cell(x: u16, y: u16, top: Option<Color>, bot: Option<Color>) -> CellWrite {
    match (top, bot) {
        (Some(tc), Some(bc)) => if tc == bc {
            CellWrite { x, y, symbol: '\u{2588}', fg: Some(tc), bg: None }
        } else {
            CellWrite { x, y, symbol: '\u{2580}', fg: Some(tc), bg: Some(bc) }
        },
        (Some(tc), None) => CellWrite { x, y, symbol: '\u{2580}', fg: Some(tc), bg: None },
        (None, Some(bc)) => CellWrite { x, y, symbol: '\u{2584}', fg: Some(bc), bg: None },
        (None, None) => CellWrite { x, y, symbol: ' ', fg: None, bg: None },
    }
}

/// `c` quantized to steps of 16, when there is a color.
pub open spec fn quantized_option(c: Option<Color>) -> Option<Color> {
    match c {
        Some(color) => Some(quantized(color, 16)),
        None => None,
    }
}

/// A color canvas drawn with half-block symbols: every terminal cell holds
/// two pixels stacked vertically, the upper one drawn in the foreground and
/// the lower one in the background color.
pub struct HalfBlockCanvas {
    cols: u16,
    rows: u16,
    /// Row-major pixels, `None` where nothing is drawn.
    pixels: Vec<Option<Color>>,
}

impl HalfBlockCanvas {
    /// Terminal columns covered by the canvas.
    pub closed spec fn spec_cols(&self) -> nat {
        self.cols as nat
    }

    /// Terminal rows covered by the canvas.
    pub closed spec fn spec_rows(&self) -> nat {
        self.rows as nat
    }

    pub open spec fn spec_pixel_width(&self) -> nat {
        self.spec_cols()
    }

    pub open spec fn spec_pixel_height(&self) -> nat {
        self.spec_rows() * 2
    }

    /// The pixel buffer covers exactly the canvas.
    pub closed spec fn wf(&self) -> bool {
        self.pixels@.len() == self.spec_pixel_width() * self.spec_pixel_height()
    }

    /// The color of pixel (`x`, `y`); `None` where unset or outside.
    pub closed spec fn pixel(&self, x: int, y: int) -> Option<Color> {
        if 0 <= x < self.spec_pixel_width() && 0 <= y < self.spec_pixel_height() {
            self.pixels@[y * self.spec_pixel_width() + x]
        } else {
            None
        }
    }

    /// No pixel of the canvas is set.
    pub open spec fn is_blank(&self) -> bool {
        forall|x: int, y: int| #[trigger] self.pixel(x, y) == None::<Color>
    }

    /// The write for cell (`cx`, `cy`) of the canvas drawn into `area`.
    pub open spec fn cell_write(&self, area: Rect, cx: int, cy: int) -> CellWrite {
        halfblock_cell(
            (area.x + cx) as u16,
            (area.y + cy) as u16,
            quantized_option(self.pixel(cx, 2 * cy)),
            quantized_option(self.pixel(cx, 2 * cy + 1)),
        )
    }

    /// Creates a blank canvas of `cols` x `rows` terminal cells.
    pub fn new(cols: u16, rows: u16) -> (canvas: Self)
        requires
            (cols as int) * (rows as int) * 2 <= usize::MAX,
        ensures
            canvas.wf(),
            canvas.spec_cols() == cols,
            canvas.spec_rows() == rows,
            canvas.is_blank(),
    {
        let pw = cols as usize;
        let ph = rows as usize * 2;
        assert(pw * ph == (cols as int) * (rows as int) * 2) by (nonlinear_arith)
            requires
                pw == cols,
                ph == rows * 2,
        ;
        let n = pw * ph;
        let mut pixels: Vec<Option<Color>> = Vec::with_capacity(n);
        while pixels.len() < n
            invariant
                pixels@.len() <= n,
                forall|i: int| 0 <= i < pixels@.len() ==> pixels@[i] == None::<Color>,
            decreases n - pixels@.len(),
        {
            pixels.push(None);
        }
        let canvas = HalfBlockCanvas { cols, rows, pixels };
        proof {
            assert forall|x: int, y: int| #[trigger] canvas.pixel(x, y) == None::<Color> by {
                if 0 <= x < pw && 0 <= y < ph {
                    lemma_grid_index(x, y, pw as int, ph as int);
                }
            }
        }
        canvas
    }

    /// Keeps the canvas and clears it when its size is already `cols` x
    /// `rows`, and otherwise replaces it with a blank canvas of that size.
    pub fn resize_or_clear(&mut self, cols: u16, rows: u16)
        requires
            old(self).wf(),
            (cols as int) * (rows as int) * 2 <= usize::MAX,
        ensures
            final(self).wf(),
            final(self).spec_cols() == cols,
            final(self).spec_rows() == rows,
            final(self).is_blank(),
    {
        if self.cols != cols || self.rows != rows {
            *self = Self::new(cols, rows);
        } else {
            self.clear();
        }
    }

    /// Width of the canvas in pixels.
    pub fn pixel_width(&self) -> (w: usize)
        ensures
            w == self.spec_pixel_width(),
    {
        self.cols as usize
    }

    /// Height of the canvas in pixels.
    pub fn pixel_height(&self) -> (h: usize)
        ensures
            h == self.spec_pixel_height(),
    {
        self.rows as usize * 2
    }

    /// Paints pixel (`x`, `y`) in `color`; a pixel outside the canvas is
    /// ignored.
    pub fn set(&mut self, x: usize, y: usize, color: Color)
        requires
            old(self).wf(),
        ensures
            final(self).wf(),
            final(self).spec_cols() == old(self).spec_cols(),
            final(self).spec_rows() == old(self).spec_rows(),
            forall|px: int, py: int|
                #[trigger] final(self).pixel(px, py) == if px == x && py == y && x
                    < old(self).spec_pixel_width() && y < old(self).spec_pixel_height() {
                    Some(color)
                } else {
                    old(self).pixel(px, py)
                },
    {
        let pw = self.pixel_width();
        let ph = self.pixel_height();
        if x < pw && y < ph {
            proof {
                lemma_grid_index(x as int, y as int, pw as int, ph as int);
                assert(self.pixels@.len() == self.pixels.len());
                assert(y * pw + x < self.pixels@.len());
            }
            let i = y * pw + x;
            self.pixels.set(i, Some(color));
            proof {
                assert forall|px: int, py: int|
                    #[trigger] self.pixel(px, py) == if px == x && py == y {
                        Some(color)
                    } else {
                        old(self).pixel(px, py)
                    } by {
                    if 0 <= px < pw && 0 <= py < ph {
                        lemma_grid_index(px, py, pw as int, ph as int);
                        if py * pw + px == y * pw + x {
                            lemma_grid_index_injective(px, py, x as int, y as int, pw as int);
                        }
                    }
                }
            }
        }
    }

    /// Unsets every pixel.
    pub fn clear(&mut self)
        requires
            old(self).wf(),
        ensures
            final(self).wf(),
            final(self).spec_cols() == old(self).spec_cols(),
            final(self).spec_rows() == old(self).spec_rows(),
            final(self).is_blank(),
    {
        let n = self.pixels.len();
        let mut i: usize = 0;
        while i < n
            invariant
                i <= n,
                n == self.pixels@.len(),
                self.cols == old(self).cols,
                self.rows == old(self).rows,
                self.wf(),
                forall|j: int| 0 <= j < i ==> self.pixels@[j] == None::<Color>,
            decreases n - i,
        {
            self.pixels.set(i, None);
            i = i + 1;
        }
        proof {
            let pw = self.spec_pixel_width() as int;
            let ph = self.spec_pixel_height() as int;
            assert forall|x: int, y: int| #[trigger] self.pixel(x, y) == None::<Color> by {
                if 0 <= x < pw && 0 <= y < ph {
                    lemma_grid_index(x, y, pw, ph);
                }
            }
        }
    }

    /// Pixel (`x`, `y`) as stored, for a pixel inside the canvas.
    fn pixel_at(&self, x: usize, y: usize) -> (c: Option<Color>)
        requires
            self.wf(),
            x < self.spec_pixel_width(),
            y < self.spec_pixel_height(),
        ensures
            c == self.pixel(x as int, y as int),
    {
        let pw = self.pixel_width();
        let ph = self.pixel_height();
        proof {
            lemma_grid_index(x as int, y as int, pw as int, ph as int);
            assert(self.pixels@.len() == self.pixels.len());
        }
        self.pixels[y * pw + x]
    }

    /// The cells that draw the canvas into `area`, row by row, with colors
    /// quantized to steps of 16; cells of the canvas that fall outside the
    /// area are not drawn.
    pub fn render(&self, area: &Rect) -> (cells: Vec<Vec<CellWrite>>)
        requires
            self.wf(),
            area.fits(),
        ensures
            cells@.len() == min_int(self.spec_rows() as int, area.height as int),
            forall|cy: int|
                0 <= cy < cells@.len() ==> #[trigger] cells@[cy]@.len() == min_int(
                    self.spec_cols() as int,
                    area.width as int,
                ),
            forall|cy: int, cx: int|
                0 <= cy < cells@.len() && 0 <= cx < cells@[cy]@.len() ==> #[trigger] cells@[cy]@[cx]
                    == self.cell_write(*area, cx, cy),
    {
        let render_cols = if self.cols < area.width {
            self.cols
        } else {
            area.width
        };
        let render_rows = if self.rows < area.height {
            self.rows
        } else {
            area.height
        };
        let mut cells: Vec<Vec<CellWrite>> = Vec::new();
        let mut cy: u16 = 0;
        while cy < render_rows
            invariant
                self.wf(),
                area.fits(),
                render_cols == min_int(self.spec_cols() as int, area.width as int),
                render_rows == min_int(self.spec_rows() as int, area.height as int),
                cy <= render_rows,
                cells@.len() == cy,
                forall|j: int| 0 <= j < cy ==> #[trigger] cells@[j]@.len() == render_cols,
                forall|j: int, cx: int|
                    0 <= j < cy && 0 <= cx < render_cols ==> #[trigger] cells@[j]@[cx]
                        == self.cell_write(*area, cx, j),
            decreases render_rows - cy,
        {
            let mut row: Vec<CellWrite> = Vec::new();
            let mut cx: u16 = 0;
            while cx < render_cols
                invariant
                    self.wf(),
                    area.fits(),
                    render_cols == min_int(self.spec_cols() as int, area.width as int),
                    render_rows == min_int(self.spec_rows() as int, area.height as int),
                    cy < render_rows,
                    cx <= render_cols,
                    row@.len() == cx,
                    forall|k: int|
                        0 <= k < cx ==> #[trigger] row@[k] == self.cell_write(*area, k, cy as int),
                decreases render_cols - cx,
            {
                let top = match self.pixel_at(cx as usize, cy as usize * 2) {
                    Some(c) => Some(quantize_color(c, 16)),
                    None => None,
                };
                let bot = match self.pixel_at(cx as usize, cy as usize * 2 + 1) {
                    Some(c) => Some(quantize_color(c, 16)),
                    None => None,
                };
                let x = area.x + cx;
                let y = area.y + cy;
                let cell = match (top, bot) {
                    (Some(tc), Some(bc)) => if tc == bc {
                        CellWrite { x, y, symbol: '\u{2588}', fg: Some(tc), bg: None }
                    } else {
                        CellWrite { x, y, symbol: '\u{2580}', fg: Some(tc), bg: Some(bc) }
                    },
                    (Some(tc), None) => CellWrite { x, y, symbol: '\u{2580}', fg: Some(tc), bg: None },
                    (None, Some(bc)) => CellWrite { x, y, symbol: '\u{2584}', fg: Some(bc), bg: None },
                    (None, None) => CellWrite { x, y, symbol: ' ', fg: None, bg: None },
                };
                row.push(cell);
                cx = cx + 1;
            }
            cells.push(row);
            cy = cy + 1;
        }
        cells
    }

    /// Every cell that `render` draws lies inside the area it draws into.
    pub proof fn lemma_render_stays_in_area(&self, area: Rect, cx: int, cy: int)
        requires
            area.fits(),
            0 <= cx < min_int(self.spec_cols() as int, area.width as int),
            0 <= cy < min_int(self.spec_rows() as int, area.height as int),
        ensures
            area.holds(self.cell_write(area, cx, cy).x as int, self.cell_write(area, cx, cy).y as int),
    {
    }

    /// A canvas with no pixel set draws blanks and sets no color.
    pub proof fn lemma_blank_shows_spaces(&self, area: Rect, cx: int, cy: int)
        requires
            self.is_blank(),
        ensures
            self.cell_write(area, cx, cy).symbol == ' ',
            self.cell_write(area, cx, cy).fg == None::<Color>,
            self.cell_write(area, cx, cy).bg == None::<Color>,
    {
        assert(self.pixel(cx, 2 * cy) == None::<Color>);
        assert(self.pixel(cx, 2 * cy + 1) == None::<Color>);
    }

    /// What a cell of the canvas shows, from its upper pixel (pixel row
    /// `2 * cy`) and its lower pixel (row `2 * cy + 1`), colors quantized to
    /// steps of 16: only the upper one set gives the upper half block U+2580
    /// in its color; only the lower one set gives the lower half block
    /// U+2584 in its color; both set in one quantized color give the full
    /// block U+2588 in it; both set in different colors give the upper half
    /// block with the upper color in front and the lower one behind; neither
    /// set gives a blank with no colors. The cell lands at `(area.x + cx,
    /// area.y + cy)`.
    pub proof fn lemma_halfblock_symbols(&self, area: Rect, cx: int, cy: int)
        ensures
            ({
                let top = self.pixel(cx, 2 * cy);
                let bot = self.pixel(cx, 2 * cy + 1);
                let w = self.cell_write(area, cx, cy);
                &&& w.x == (area.x + cx) as u16
                &&& w.y == (area.y + cy) as u16
                &&& top is Some && bot is None ==> w.symbol == '\u{2580}' && w.fg == Some(
                    quantized(top.unwrap(), 16),
                ) && w.bg is None
                &&& top is None && bot is Some ==> w.symbol == '\u{2584}' && w.fg == Some(
                    quantized(bot.unwrap(), 16),
                ) && w.bg is None
                &&& top is Some && bot is Some && quantized(top.unwrap(), 16) == quantized(
                    bot.unwrap(),
                    16,
                ) ==> w.symbol == '\u{2588}' && w.fg == Some(quantized(top.unwrap(), 16)) && w.bg is None
                &&& top is Some && bot is Some && quantized(top.unwrap(), 16) != quantized(
                    bot.unwrap(),
                    16,
                ) ==> w.symbol == '\u{2580}' && w.fg == Some(quantized(top.unwrap(), 16)) && w.bg == Some(
                    quantized(bot.unwrap(), 16),
                )
                &&& top is None && bot is None ==> w.symbol == ' ' && w.fg is None && w.bg is None
            }),
    {
    }

    /// Two canvases of one size with no pixel set cannot be told apart: they
    /// report the same pixels and draw the same cells. `new` and
    /// `resize_or_clear` both leave such a canvas, so a canvas resized or
    /// cleared to a size draws exactly as a new canvas of that size.
    pub proof fn lemma_blank_canvases_alike(&self, other: &HalfBlockCanvas)
        requires
            self.wf(),
            other.wf(),
            self.spec_cols() == other.spec_cols(),
            self.spec_rows() == other.spec_rows(),
            self.is_blank(),
            other.is_blank(),
        ensures
            self.spec_pixel_width() == other.spec_pixel_width(),
            self.spec_pixel_height() == other.spec_pixel_height(),
            forall|x: int, y: int| #[trigger] self.pixel(x, y) == other.pixel(x, y),
            forall|area: Rect, cx: int, cy: int|
                #[trigger] self.cell_write(area, cx, cy) == other.cell_write(area, cx, cy),
    {
        assert forall|area: Rect, cx: int, cy: int|
            #[trigger] self.cell_write(area, cx, cy) == other.cell_write(area, cx, cy) by {
            assert(self.pixel(cx, 2 * cy) == other.pixel(cx, 2 * cy));
            assert(self.pixel(cx, 2 * cy + 1) == other.pixel(cx, 2 * cy + 1));
        }
    }
}

proof fn lemma_bit_sum(b0: int, b1: int, b2: int, b3: int, b4: int, b5: int, b6: int, b7: int)
    requires
        0 <= b0 <= 1,
        0 <= b1 <= 1,
        0 <= b2 <= 1,
        0 <= b3 <= 1,
        0 <= b4 <= 1,
        0 <= b5 <= 1,
        0 <= b6 <= 1,
        0 <= b7 <= 1,
    ensures
        ({
            let c = b0 + 2 * b1 + 4 * b2 + 8 * b3 + 16 * b4 + 32 * b5 + 64 * b6 + 128 * b7;
            &&& 0 <= c < 256
            &&& c % 2 == b0
            &&& (c / 2) % 2 == b1
            &&& (c / 4) % 2 == b2
            &&& (c / 8) % 2 == b3
            &&& (c / 16) % 2 == b4
            &&& (c / 32) % 2 == b5
            &&& (c / 64) % 2 == b6
            &&& (c / 128) % 2 == b7
        }),
{
    let r7 = b7;
    let r6 = b6 + 2 * r7;
    let r5 = b5 + 2 * r6;
    let r4 = b4 + 2 * r5;
    let r3 = b3 + 2 * r4;
    let r2 = b2 + 2 * r3;
    let r1 = b1 + 2 * r2;
    let c = b0 + 2 * r1;
    lemma_half(b0, r1);
    lemma_half(b1, r2);
    lemma_half(b2, r3);
    lemma_half(b3, r4);
    lemma_half(b4, r5);
    lemma_half(b5, r6);
    lemma_half(b6, r7);
    lemma_half(b7, 0);
    vstd::arithmetic::div_mod::lemma_div_denominator(c, 2, 2);
    vstd::arithmetic::div_mod::lemma_div_denominator(c, 4, 2);
    vstd::arithmetic::div_mod::lemma_div_denominator(c, 8, 2);
    vstd::arithmetic::div_mod::lemma_div_denominator(c, 16, 2);
    vstd::arithmetic::div_mod::lemma_div_denominator(c, 32, 2);
    vstd::arithmetic::div_mod::lemma_div_denominator(c, 64, 2);
}

proof fn lemma_half(b: int, r: int)
    requires
        0 <= b <= 1,
        r >= 0,
    ensures
        (b + 2 * r) % 2 == b,
        (b + 2 * r) / 2 == r,
{
    vstd::arithmetic::div_mod::lemma_fundamental_div_mod(b + 2 * r, 2);
}

proof fn lemma_braille_symbol_distinct(c: int)
    requires
        0 < c < 256,
    ensures
        braille_symbol(c) != '\u{2800}',
        braille_symbol(c) != ' ',
{
    let u = (0x2800 + c) as u32;
    assert(vstd::utf8::is_scalar(u));
    assert((u as char) as u32 == u);
}

/// Row-major index of cell (`x`, `y`) in a `w` x `h` grid lies in the grid.
pub proof fn lemma_grid_index(x: int, y: int, w: int, h: int)
    requires
        0 <= x < w,
        0 <= y < h,
    ensures
        0 <= y * w + x < w * h,
        y * w + x < h * w,
{
    assert(0 <= y * w + x < w * h) by (nonlinear_arith)
        requires
            0 <= x < w,
            0 <= y < h,
    ;
    assert(w * h == h * w) by (nonlinear_arith);
}

/// Distinct cells of a row-major grid have distinct indices.
pub proof fn lemma_grid_index_injective(x1: int, y1: int, x2: int, y2: int, w: int)
    requires
        0 <= x1 < w,
        0 <= x2 < w,
        0 <= y1,
        0 <= y2,
        y1 * w + x1 == y2 * w + x2,
    ensures
        x1 == x2 && y1 == y2,
{
    if y1 < y2 {
        assert(y1 * w + x1 < y2 * w + x2) by (nonlinear_arith)
            requires
                0 <= x1 < w,
                0 <= x2,
                y1 < y2,
        ;
    } else if y2 < y1 {
        assert(y2 * w + x2 < y1 * w + x1) by (nonlinear_arith)
            requires
                0 <= x2 < w,
                0 <= x1,
                y2 < y1,
        ;
    }
}

} // verus!
