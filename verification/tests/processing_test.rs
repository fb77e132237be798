use terminal_vibes::processing::band_bin_range;

#[test]
fn band_bins_non_empty_and_in_range() {
    assert_eq!(band_bin_range(3, 9, 512), (3, 9));
    assert_eq!(band_bin_range(3, 3, 512), (3, 4));
    assert_eq!(band_bin_range(600, 700, 512), (511, 512));
    assert_eq!(band_bin_range(10, 900, 512), (10, 512));
    assert_eq!(band_bin_range(0, 0, 1), (0, 1));
}
