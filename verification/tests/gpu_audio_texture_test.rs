use terminal_vibes::gpu::audio_texture::AudioTextureData;

/// Levels of a frame with 256 silent samples (level 127) and 128 bands at
/// half level (0.5 * 255 = 127).
fn test_levels() -> (Vec<u8>, Vec<u8>) {
    (vec![127; 256], vec![127; 128])
}

#[test]
fn test_audio_texture_dimensions() {
    let (wave, spec) = test_levels();
    let tex = AudioTextureData::from_levels(&wave, &spec);
    // 256 pixels wide, 2 rows, 4 bytes per pixel (RGBA)
    assert_eq!(tex.data.len(), 256 * 2 * 4);
    assert_eq!(tex.width, 256);
    assert_eq!(tex.height, 2);
}

#[test]
fn test_waveform_in_row_0() {
    let (mut wave, spec) = test_levels();
    // Sample 0.75 maps to (0.75 * 0.5 + 0.5) * 255 = ~223.
    wave[0] = ((0.75f32 * 0.5 + 0.5).clamp(0.0, 1.0) * 255.0) as u8;
    let tex = AudioTextureData::from_levels(&wave, &spec);
    // Row 0, pixel 0, red channel
    let r = tex.data[0];
    assert!(r > 220 && r < 230, "Expected ~223, got {}", r);
}

#[test]
fn test_spectrum_in_row_1() {
    let (wave, mut spec) = test_levels();
    spec[0] = 255;
    let tex = AudioTextureData::from_levels(&wave, &spec);
    // Row 1 starts at byte offset 256*4 = 1024
    let r = tex.data[1024];
    assert_eq!(r, 255);
}

#[test]
fn texture_rows_gray_with_full_alpha() {
    let wave = vec![10, 20, 30];
    let spec: Vec<u8> = (0..128).map(|i| i as u8).collect();
    let tex = AudioTextureData::from_levels(&wave, &spec);
    assert_eq!(&tex.data[0..4], &[10, 10, 10, 255]);
    assert_eq!(&tex.data[8..12], &[30, 30, 30, 255]);
    assert_eq!(&tex.data[12..16], &[127, 127, 127, 255]);
    // pixel 5 of row 1 shows band 5 * 128 / 256 = 2
    assert_eq!(&tex.data[1024 + 20..1024 + 24], &[2, 2, 2, 255]);
    assert_eq!(tex.data[1024 + 4 * 255], 127);
    let empty = AudioTextureData::from_levels(&[], &[]);
    assert_eq!(&empty.data[1024..1028], &[0, 0, 0, 255]);
    assert_eq!(&empty.data[0..4], &[127, 127, 127, 255]);
}
