use terminal_vibes::visualizations::milkdrop::{milkdrop_key, MilkdropKey, MilkdropLayers};
use terminal_vibes::visualizations::spectrum::ColorPalette;

#[test]
fn milkdrop_key_map() {
    assert_eq!(milkdrop_key('w'), Some(MilkdropKey::ToggleWaveform));
    assert_eq!(milkdrop_key('r'), Some(MilkdropKey::ToggleParticles));
    assert_eq!(milkdrop_key('D'), Some(MilkdropKey::DecayDown));
    assert_eq!(milkdrop_key('z'), Some(MilkdropKey::ZoomUp));
    assert_eq!(milkdrop_key('X'), Some(MilkdropKey::RotationDown));
    assert_eq!(milkdrop_key('c'), Some(MilkdropKey::WarpUp));
    assert_eq!(milkdrop_key('V'), Some(MilkdropKey::ReactivityDown));
    assert_eq!(milkdrop_key('P'), Some(MilkdropKey::PalettePrev));
    assert_eq!(milkdrop_key('q'), None);
    assert_eq!(milkdrop_key('g'), None);
}

#[test]
fn milkdrop_layers_toggle_and_palette() {
    let mut l = MilkdropLayers::new();
    assert!(l.waveform && l.shapes && l.particles);
    assert_eq!(l.palette, ColorPalette::Synthwave);
    l.apply(MilkdropKey::ToggleShapes);
    assert!(!l.shapes && l.waveform && l.particles);
    l.apply(MilkdropKey::PaletteNext);
    assert_eq!(l.palette, ColorPalette::Outrun);
    l.apply(MilkdropKey::DecayUp);
    assert_eq!(l.palette, ColorPalette::Outrun);
    assert!(!l.shapes);
    l.apply(MilkdropKey::PalettePrev);
    l.apply(MilkdropKey::ToggleShapes);
    assert_eq!(l, MilkdropLayers::new());
}
