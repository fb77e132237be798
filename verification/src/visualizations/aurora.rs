//! Band partition and layer steps of the aurora curtains.
use vstd::prelude::*;

verus! {

/// The spectrum bands that drive curtain `i` of `parts` curtains over
/// `len` bands: equal chunks of `len / parts` bands, the last curtain also
/// taking the bands left over.
pub open spec fn spec_band_chunk(i: int, parts: int, len: int) -> (int, int) {
    let chunk = len / parts;
    (i * chunk, if i == parts - 1 {
        len
    } else {
        (i + 1) * chunk
    })
}

/// Bands `start..end` that drive curtain `i` of `parts`.
pub fn band_chunk(i: usize, parts: usize, len: usize) -> (r: (usize, usize))
    requires
        i < parts,
    ensures
        r.0 == spec_band_chunk(i as int, parts as int, len as int).0,
        r.1 == spec_band_chunk(i as int, parts as int, len as int).1,
        r.0 <= r.1 <= len,
{
    let chunk = len / parts;
    assert((i as int + 1) * chunk <= len) by (nonlinear_arith)
        requires
            i < parts,
            chunk == len / parts,
            parts > 0,
    ;
    assert(i * chunk <= (i as int + 1) * chunk) by (nonlinear_arith)
        requires
            chunk >= 0,
    ;
    let start = i * chunk;
    let end = if i == parts - 1 {
        len
    } else {
        (i + 1) * chunk
    };
    (start, end)
}

/// The chunks of consecutive curtains meet, the first starts at band 0
/// and the last ends at the last band, so every band drives exactly one
/// curtain.
pub proof fn lemma_band_chunks_tile(i: int, parts: int, len: int)
    requires
        0 <= i < parts - 1,
        0 <= len,
    ensures
        spec_band_chunk(i, parts, len).1 == spec_band_chunk(i + 1, parts, len).0,
        spec_band_chunk(0, parts, len).0 == 0,
        spec_band_chunk(parts - 1, parts, len).1 == len,
{
}

/// Curtain count after the layer key: 2, 3 and 4 layers in turn; any other
/// count goes back to 2.
pub open spec fn spec_next_layer_count(n: usize) -> usize {
    if n == 2 {
        3
    } else if n == 3 {
        4
    } else {
        2
    }
}

/// The curtain count that follows `n` in the layer cycle.
pub fn next_layer_count(n: usize) -> (m: usize)
    ensures
        m == spec_next_layer_count(n),
{
    match n {
        2 => 3,
        3 => 4,
        _ => 2,
    }
}


/// The layer key steps 2 curtains to 3, 3 to 4 and 4 back to 2; any other
/// count goes to 2. Every curtain but the last gets `c` bands, `c` being the
/// largest count with `c * parts <= len`, and the last gets the rest: at
/// least `c` and fewer than `2 * c + parts`.
pub proof fn lemma_aurora_tables(n: usize, i: int, parts: int, len: int)
    requires
        0 <= i < parts,
        0 <= len,
    ensures
        spec_next_layer_count(2) == 3,
        spec_next_layer_count(3) == 4,
        spec_next_layer_count(4) == 2,
        n != 2 && n != 3 ==> spec_next_layer_count(n) == 2,
        ({
            let (start, end) = spec_band_chunk(i, parts, len);
            let c = end - start;
            &&& i < parts - 1 ==> c * parts <= len < (c + 1) * parts
            &&& i == parts - 1 ==> end == len && (c - len / parts) < parts
            &&& start == i * (len / parts)
        }),
{
    let q = len / parts;
    vstd::arithmetic::div_mod::lemma_fundamental_div_mod(len, parts);
    assert(q * parts <= len < (q + 1) * parts) by (nonlinear_arith)
        requires
            len == parts * q + len % parts,
            0 <= len % parts < parts,
    ;
    if i < parts - 1 {
        assert((i + 1) * q - i * q == q) by (nonlinear_arith);
    } else {
        assert(len - i * q - q < parts) by (nonlinear_arith)
            requires
                i == parts - 1,
                len < (q + 1) * parts,
        ;
    }
}

} // verus!
