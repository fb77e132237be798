use terminal_vibes::visualizations::render::{CellWrite, Color, Rect};
use terminal_vibes::visualizations::spectrum::{
    bar_cells, bar_layout, ColorPalette, KeyOutcome, SpectrumSettings,
};

#[test]
fn palette_names_round_trip() {
    for p in ColorPalette::ALL {
        assert_eq!(ColorPalette::from_name(p.name()), Some(p));
    }
    assert_eq!(ColorPalette::GruvboxDark.name(), "gruvbox-dark");
    assert_eq!(ColorPalette::from_name("pastel"), Some(ColorPalette::Pastel));
    assert_eq!(ColorPalette::from_name("Neon"), None);
    assert_eq!(ColorPalette::from_name(""), None);
}

#[test]
fn palette_cycle_wraps_both_ways() {
    assert_eq!(ColorPalette::Neon.next(), ColorPalette::Fire);
    assert_eq!(ColorPalette::Pastel.next(), ColorPalette::Neon);
    assert_eq!(ColorPalette::Neon.prev(), ColorPalette::Pastel);
    let mut p = ColorPalette::Sunset;
    for _ in 0..12 {
        p = p.next();
    }
    assert_eq!(p, ColorPalette::Sunset);
    for q in ColorPalette::ALL {
        assert_eq!(q.next().prev(), q);
    }
}

#[test]
fn bar_layout_with_and_without_gap() {
    assert_eq!(bar_layout(40, false), (1, 1, 41));
    assert_eq!(bar_layout(40, true), (2, 3, 13));
    assert_eq!(bar_layout(0, true), (2, 3, 0));
}

#[test]
fn bar_cells_fill_from_bottom() {
    let area = Rect { x: 2, y: 1, width: 6, height: 4 };
    let c = Color::Rgb(1, 2, 3);
    let rows = bar_cells(&area, 1, true, 2, 3, c);
    assert_eq!(rows.len(), 3);
    assert_eq!(rows[0][0], CellWrite { x: 5, y: 4, symbol: '\u{2588}', fg: Some(c), bg: None });
    assert_eq!(rows[0][1], CellWrite { x: 6, y: 4, symbol: '\u{2588}', fg: Some(c), bg: None });
    assert_eq!(rows[1][0].y, 3);
    assert_eq!(rows[2][1], CellWrite { x: 6, y: 2, symbol: '\u{2583}', fg: Some(c), bg: None });
}

#[test]
fn bar_cells_clipped_at_right_edge() {
    let area = Rect { x: 0, y: 0, width: 4, height: 2 };
    let rows = bar_cells(&area, 4, false, 2, 0, Color::White);
    assert_eq!(rows.len(), 2);
    assert!(rows.iter().all(|r| r.is_empty()));
    let rows = bar_cells(&area, 3, false, 1, 0, Color::White);
    assert_eq!(rows[0].len(), 1);
    assert_eq!(rows[0][0].x, 3);
    assert_eq!(rows[0][0].y, 1);
}

#[test]
fn spectrum_settings_keys() {
    let mut s = SpectrumSettings::new();
    assert_eq!(s.palette, ColorPalette::Neon);
    assert!(s.chunky && !s.gap && !s.cycling);
    assert_eq!(s.on_key('g'), KeyOutcome { handled: true, reset_phase: false });
    assert!(s.gap);
    assert_eq!(s.on_key('r'), KeyOutcome { handled: true, reset_phase: false });
    assert!(s.cycling);
    assert_eq!(s.on_key('r'), KeyOutcome { handled: true, reset_phase: true });
    assert!(!s.cycling);
    s.on_key('P');
    assert_eq!(s.palette, ColorPalette::Pastel);
    s.on_key('p');
    s.on_key('p');
    assert_eq!(s.palette, ColorPalette::Fire);
    let before = s;
    assert_eq!(s.on_key('x'), KeyOutcome { handled: false, reset_phase: false });
    assert_eq!(s, before);
    s.on_key('c');
    assert!(!s.chunky);
}
