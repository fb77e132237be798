//! Frequency band layout of the beat detector.
use vstd::prelude::*;

verus! {

/// `v` clamped to `lo..=hi`.
pub open spec fn clamp_int(v: int, lo: int, hi: int) -> int {
    if v < lo {
        lo
    } else if v > hi {
        hi
    } else {
        v
    }
}

/// Where the bass, mid and treble bands of a spectrum split: bands
/// `0..bass_end` are bass, `bass_end..mid_end` mid, the rest treble.
#[derive(Clone, Copy, Debug, PartialEq, Eq, Structural)]
pub struct BandSplit {
    pub bass_end: usize,
    pub mid_end: usize,
}

impl BandSplit {
    /// Clamps raw split points, computed from the band frequencies, so that
    /// each of the three ranges keeps at least one of the `num_bands`
    /// bands: the bass end into `1..=num_bands - 2`, the mid end into
    /// `bass_end + 1..=num_bands - 1`.
    pub fn new(raw_bass_end: usize, raw_mid_end: usize, num_bands: usize) -> (s: Self)
        requires
            num_bands >= 3,
        ensures
            s.bass_end == clamp_int(raw_bass_end as int, 1, num_bands - 2),
            s.mid_end == clamp_int(raw_mid_end as int, s.bass_end + 1, num_bands - 1),
            1 <= s.bass_end < s.mid_end < num_bands,
    {
        let bass_end = if raw_bass_end < 1 {
            1
        } else if raw_bass_end > num_bands - 2 {
            num_bands - 2
        } else {
            raw_bass_end
        };
        let mid_end = if raw_mid_end < bass_end + 1 {
            bass_end + 1
        } else if raw_mid_end > num_bands - 1 {
            num_bands - 1
        } else {
            raw_mid_end
        };
        BandSplit { bass_end, mid_end }
    }

    /// The split points for a spectrum of `n` bands, cut back to `n`: bass
    /// is `0..b`, mid `b..m`, treble `m..n` of the returned `(b, m)`.
    pub fn ranges(&self, n: usize) -> (r: (usize, usize))
        requires
            self.bass_end <= self.mid_end,
        ensures
            r.0 == if self.bass_end < n {
                self.bass_end as int
            } else {
                n as int
            },
            r.1 == if self.mid_end < n {
                self.mid_end as int
            } else {
                n as int
            },
            r.0 <= r.1 <= n,
    {
        let b = if self.bass_end < n {
            self.bass_end
        } else {
            n
        };
        let m = if self.mid_end < n {
            self.mid_end
        } else {
            n
        };
        (b, m)
    }
}

} // verus!
