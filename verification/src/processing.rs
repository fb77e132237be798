//! Index ranges of the logarithmic frequency bands.
use vstd::prelude::*;

verus! {

/// The FFT bins `lo..hi` averaged into one band, from the band's raw edges
/// among `n` bins: the low edge is kept to the last bin and the range
/// always holds at least one bin and ends within the bins.
pub fn band_bin_range(low: usize, high: usize, n: usize) -> (r: (usize, usize))
    requires
        n > 0,
    ensures
        r.0 == if low < n - 1 {
            low as int
        } else {
            n - 1
        },
        r.1 == if high < r.0 + 1 {
            r.0 + 1
        } else if high > n {
            n as int
        } else {
            high as int
        },
        r.0 < r.1 <= n,
{
    let lo = if low < n - 1 {
        low
    } else {
        n - 1
    };
    let hi = if high < lo + 1 {
        lo + 1
    } else if high > n {
        n
    } else {
        high
    };
    (lo, hi)
}

} // verus!
