use terminal_vibes::beat::BandSplit;

#[test]
fn band_split_for_128_bands() {
    // 128 * ln(200/30) / ln(18000/30) = 37.9, 128 * ln(4000/30) / ln(600) = 97.9
    let s = BandSplit::new(37, 97, 128);
    assert_eq!(s, BandSplit { bass_end: 37, mid_end: 97 });
    assert_eq!(s.ranges(128), (37, 97));
    assert_eq!(s.ranges(50), (37, 50));
    assert_eq!(s.ranges(10), (10, 10));
}

#[test]
fn band_split_keeps_every_range_non_empty() {
    assert_eq!(BandSplit::new(0, 0, 3), BandSplit { bass_end: 1, mid_end: 2 });
    assert_eq!(BandSplit::new(100, 200, 8), BandSplit { bass_end: 6, mid_end: 7 });
    assert_eq!(BandSplit::new(4, 2, 16), BandSplit { bass_end: 4, mid_end: 5 });
}
