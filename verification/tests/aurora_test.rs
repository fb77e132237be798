use terminal_vibes::visualizations::aurora::{band_chunk, next_layer_count};

#[test]
fn aurora_band_chunks_split_evenly() {
    assert_eq!(band_chunk(0, 3, 128), (0, 42));
    assert_eq!(band_chunk(1, 3, 128), (42, 84));
    assert_eq!(band_chunk(2, 3, 128), (84, 128));
}

#[test]
fn aurora_band_chunks_tile_the_spectrum() {
    for parts in 1..6usize {
        for len in [0usize, 1, 7, 64, 129] {
            let mut next_start = 0;
            for i in 0..parts {
                let (start, end) = band_chunk(i, parts, len);
                assert_eq!(start, next_start);
                assert!(start <= end && end <= len);
                next_start = end;
            }
            assert_eq!(next_start, len);
        }
    }
}

#[test]
fn aurora_last_curtain_takes_leftover_bands() {
    assert_eq!(band_chunk(3, 4, 10), (6, 10));
    assert_eq!(band_chunk(0, 4, 3), (0, 0));
}

#[test]
fn aurora_layer_cycle() {
    assert_eq!(next_layer_count(2), 3);
    assert_eq!(next_layer_count(3), 4);
    assert_eq!(next_layer_count(4), 2);
    assert_eq!(next_layer_count(9), 2);
}
