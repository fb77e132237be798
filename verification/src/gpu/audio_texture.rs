//! Layout of the 256x2 RGBA audio texture handed to fragment shaders.
use vstd::prelude::*;

verus! {

/// Texture width in pixels.
pub const TEXTURE_WIDTH: u32 = 256;

/// Texture height in pixels: one row of waveform, one row of spectrum.
pub const TEXTURE_HEIGHT: u32 = 2;

/// Gray level of a waveform pixel that has no sample: silence, halfway
/// between the lowest and highest level.
pub const SILENT_LEVEL: u8 = 127;

/// RGBA pixel data following the Shadertoy audio texture convention: row 0
/// holds the waveform, row 1 the spectrum, each pixel a gray level with
/// full alpha.
pub struct AudioTextureData {
    pub data: Vec<u8>,
    pub width: u32,
    pub height: u32,
}

/// Gray level of pixel `i` of the waveform row: the level of sample `i`,
/// or silence past the last sample.
pub open spec fn waveform_level(levels: Seq<u8>, i: int) -> u8 {
    if i < levels.len() {
        levels[i]
    } else {
        SILENT_LEVEL
    }
}

/// Gray level of pixel `i` of the spectrum row: the bands are stretched
/// over the 256 pixels, band `i * bands / 256` landing on pixel `i`; with
/// no bands the row is black.
pub open spec fn spectrum_level(levels: Seq<u8>, i: int) -> u8 {
    let band = i * levels.len() / 256;
    if band < levels.len() {
        levels[band]
    } else {
        0
    }
}

/// Byte `c` (red, green, blue, alpha) of a gray pixel of level `v`.
pub open spec fn gray_byte(v: u8, c: int) -> u8 {
    if c < 3 {
        v
    } else {
        255
    }
}

impl AudioTextureData {
    /// Builds the texture from per-sample waveform levels and per-band
    /// spectrum levels, each already mapped to 0..=255.
    pub fn from_levels(waveform: &[u8], spectrum: &[u8]) -> (tex: Self)
        requires
            255 * spectrum@.len() <= usize::MAX,
        ensures
            tex.width == TEXTURE_WIDTH,
            tex.height == TEXTURE_HEIGHT,
            tex.data@.len() == 256 * 2 * 4,
            forall|i: int, c: int|
                0 <= i < 256 && 0 <= c < 4 ==> #[trigger] tex.data@[4 * i + c] == gray_byte(
                    waveform_level(waveform@, i),
                    c,
                ),
            forall|i: int, c: int|
                0 <= i < 256 && 0 <= c < 4 ==> #[trigger] tex.data@[1024 + 4 * i + c]
                    == gray_byte(spectrum_level(spectrum@, i), c),
    {
        let mut data: Vec<u8> = Vec::with_capacity(2048);
        let mut i: usize = 0;
        while i < 256
            invariant
                i <= 256,
                data@.len() == 4 * i,
                forall|k: int, c: int|
                    0 <= k < i && 0 <= c < 4 ==> #[trigger] data@[4 * k + c] == gray_byte(
                        waveform_level(waveform@, k),
                        c,
                    ),
            decreases 256 - i,
        {
            let v = if i < waveform.len() {
                waveform[i]
            } else {
                SILENT_LEVEL
            };
            data.push(v);
            data.push(v);
            data.push(v);
            data.push(255);
            i = i + 1;
        }
        let n = spectrum.len();
        let mut i: usize = 0;
        while i < 256
            invariant
                i <= 256,
                n == spectrum@.len(),
                255 * n <= usize::MAX,
                data@.len() == 1024 + 4 * i,
                forall|k: int, c: int|
                    0 <= k < 256 && 0 <= c < 4 ==> #[trigger] data@[4 * k + c] == gray_byte(
                        waveform_level(waveform@, k),
                        c,
                    ),
                forall|k: int, c: int|
                    0 <= k < i && 0 <= c < 4 ==> #[trigger] data@[1024 + 4 * k + c] == gray_byte(
                        spectrum_level(spectrum@, k),
                        c,
                    ),
            decreases 256 - i,
        {
            assert(i * n <= 255 * n) by (nonlinear_arith)
                requires
                    i < 256,
            ;
            let band = i * n / 256;
            let v = if band < n {
                spectrum[band]
            } else {
                0
            };
            data.push(v);
            data.push(v);
            data.push(v);
            data.push(255);
            i = i + 1;
        }
        AudioTextureData { data, width: TEXTURE_WIDTH, height: TEXTURE_HEIGHT }
    }
}


/// The texture's rows: waveform pixel `i` shows sample `i`, and silence
/// (level 127) past the last sample; the spectrum's `len` bands are
/// stretched over the 256 pixels, pixel `i` showing the band `b` whose
/// share `b * 256 <= i * len < (b + 1) * 256` holds it, and black when there
/// are no bands; each pixel is gray (red, green and blue alike) and opaque.
pub proof fn lemma_texture_rows(wave: Seq<u8>, spec: Seq<u8>, i: int, c: int)
    requires
        0 <= i < 256,
        0 <= c < 4,
    ensures
        i < wave.len() ==> waveform_level(wave, i) == wave[i],
        i >= wave.len() ==> waveform_level(wave, i) == 127,
        spec.len() == 0 ==> spectrum_level(spec, i) == 0,
        spec.len() > 0 ==> exists|b: int|
            0 <= b < spec.len() && b * 256 <= i * spec.len() < (b + 1) * 256 && #[trigger] spec[b]
                == spectrum_level(spec, i),
        forall|v: u8| c < 3 ==> #[trigger] gray_byte(v, c) == v,
        forall|v: u8| c == 3 ==> #[trigger] gray_byte(v, c) == 255,
{
    if spec.len() > 0 {
        let n = spec.len() as int;
        let b = i * n / 256;
        vstd::arithmetic::div_mod::lemma_fundamental_div_mod(i * n, 256);
        assert(0 <= i * n) by (nonlinear_arith)
            requires
                0 <= i,
                n > 0,
        ;
        assert(i * n < 256 * n) by (nonlinear_arith)
            requires
                i < 256,
                n > 0,
        ;
        assert(b * 256 <= i * n < (b + 1) * 256) by (nonlinear_arith)
            requires
                i * n == 256 * b + (i * n) % 256,
                0 <= (i * n) % 256 < 256,
        ;
        assert(b < n) by (nonlinear_arith)
            requires
                b * 256 <= i * n,
                i * n < 256 * n,
        ;
        assert(0 <= b) by (nonlinear_arith)
            requires
                i * n < (b + 1) * 256,
                0 <= i * n,
        ;
        assert(spec[b] == spectrum_level(spec, i));
    }
}

} // verus!
