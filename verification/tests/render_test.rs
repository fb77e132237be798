use terminal_vibes::visualizations::render::{
    quantize_color, scaled_index, BrailleCanvas, CellWrite, Color, HalfBlockCanvas, Rect,
};

fn area(x: u16, y: u16, width: u16, height: u16) -> Rect {
    Rect { x, y, width, height }
}

fn symbol_at(cells: &[Vec<CellWrite>], x: usize, y: usize) -> char {
    cells[y][x].symbol
}

#[test]
fn test_braille_canvas_dimensions() {
    let canvas = BrailleCanvas::new(80, 24);
    // 80 cols * 2 = 160 pixel width, 24 rows * 4 = 96 pixel height
    assert_eq!(canvas.pixel_width(), 160);
    assert_eq!(canvas.pixel_height(), 96);
}

#[test]
fn test_braille_canvas_empty_renders_blanks() {
    let canvas = BrailleCanvas::new(4, 2);
    let a = area(0, 0, 4, 2);
    let cells = canvas.render(&a, Color::White);
    assert_eq!(cells.len(), 2);
    for y in 0..2 {
        assert_eq!(cells[y].len(), 4);
        for x in 0..4 {
            let ch = symbol_at(&cells, x, y);
            assert!(ch == '\u{2800}' || ch == ' ',
                "Expected braille blank at ({x},{y}), got {:?}", ch);
        }
    }
}

#[test]
fn test_braille_canvas_set_pixel_renders_dot() {
    let mut canvas = BrailleCanvas::new(4, 2);
    canvas.set(0, 0); // top-left dot of cell (0,0)
    let a = area(0, 0, 4, 2);
    let cells = canvas.render(&a, Color::White);
    let ch = symbol_at(&cells, 0, 0);
    assert_ne!(ch, '\u{2800}', "Expected a dot, got blank braille");
    assert_ne!(ch, ' ', "Expected a dot, got space");
}

#[test]
fn test_braille_canvas_out_of_bounds_no_panic() {
    let mut canvas = BrailleCanvas::new(4, 2);
    canvas.set(999, 999); // should silently ignore
    let a = area(0, 0, 4, 2);
    let cells = canvas.render(&a, Color::White);
    assert!(cells.iter().all(|row| row.iter().all(|c| c.symbol == '\u{2800}')));
}

#[test]
fn test_braille_canvas_clear() {
    let mut canvas = BrailleCanvas::new(4, 2);
    canvas.set(0, 0);
    canvas.clear();
    let a = area(0, 0, 4, 2);
    let cells = canvas.render(&a, Color::White);
    let ch = symbol_at(&cells, 0, 0);
    assert!(ch == '\u{2800}' || ch == ' ');
}

#[test]
fn braille_dot_positions_follow_unicode_numbering() {
    let mut canvas = BrailleCanvas::new(1, 1);
    let a = area(0, 0, 1, 1);
    // (x, y) within the cell and the bit each dot raises
    let dots = [
        ((0, 0), 0x01u32),
        ((0, 1), 0x02),
        ((0, 2), 0x04),
        ((1, 0), 0x08),
        ((1, 1), 0x10),
        ((1, 2), 0x20),
        ((0, 3), 0x40),
        ((1, 3), 0x80),
    ];
    let mut expected = 0u32;
    for ((x, y), bit) in dots {
        canvas.set(x, y);
        expected |= bit;
        let cells = canvas.render(&a, Color::White);
        assert_eq!(cells[0][0].symbol as u32, 0x2800 + expected);
    }
    assert_eq!(canvas.render(&a, Color::White)[0][0].symbol, '\u{28ff}');
}

#[test]
fn braille_render_positions_and_color() {
    let mut canvas = BrailleCanvas::new(3, 2);
    canvas.set(5, 7);
    let a = area(10, 20, 3, 2);
    let cells = canvas.render(&a, Color::Rgb(17, 33, 255));
    assert_eq!(
        cells[1][2],
        CellWrite { x: 12, y: 21, symbol: '\u{2880}', fg: Some(Color::Rgb(16, 32, 240)), bg: None }
    );
    assert_eq!(cells[0][0].x, 10);
    assert_eq!(cells[0][0].y, 20);
}

#[test]
fn braille_render_clipped_to_area() {
    let canvas = BrailleCanvas::new(10, 5);
    let a = area(0, 0, 4, 2);
    let cells = canvas.render(&a, Color::White);
    assert_eq!(cells.len(), 2);
    assert_eq!(cells[0].len(), 4);
    let wide = area(3, 4, 50, 50);
    let cells = canvas.render(&wide, Color::White);
    assert_eq!(cells.len(), 5);
    assert_eq!(cells[4].len(), 10);
    for row in &cells {
        for c in row {
            assert!(c.x >= 3 && c.x < 53 && c.y >= 4 && c.y < 54);
        }
    }
}

#[test]
fn braille_resize_or_clear() {
    let mut canvas = BrailleCanvas::new(2, 2);
    canvas.set(1, 1);
    canvas.resize_or_clear(2, 2);
    let a = area(0, 0, 2, 2);
    assert_eq!(canvas.render(&a, Color::White)[0][0].symbol, '\u{2800}');
    canvas.resize_or_clear(5, 3);
    assert_eq!(canvas.pixel_width(), 10);
    assert_eq!(canvas.pixel_height(), 12);
}

#[test]
fn quantize_color_step_16() {
    assert_eq!(
        quantize_color(Color::Rgb(17, 33, 255), 16),
        Color::Rgb(16, 32, 240)
    );
}

#[test]
fn quantize_color_step_32() {
    assert_eq!(
        quantize_color(Color::Rgb(33, 50, 255), 32),
        Color::Rgb(32, 32, 224)
    );
}

#[test]
fn quantize_color_passthrough_non_rgb() {
    assert_eq!(quantize_color(Color::White, 16), Color::White);
}

#[test]
fn quantize_color_is_idempotent_and_step_one_keeps() {
    let q = quantize_color(Color::Rgb(201, 7, 99), 10);
    assert_eq!(q, Color::Rgb(200, 0, 90));
    assert_eq!(quantize_color(q, 10), q);
    assert_eq!(quantize_color(Color::Rgb(201, 7, 99), 1), Color::Rgb(201, 7, 99));
    assert_eq!(quantize_color(Color::Indexed(200), 16), Color::Indexed(200));
}

#[test]
fn halfblock_dimensions_and_symbols() {
    let mut canvas = HalfBlockCanvas::new(3, 2);
    assert_eq!(canvas.pixel_width(), 3);
    assert_eq!(canvas.pixel_height(), 4);
    let red = Color::Rgb(255, 0, 0);
    let blue = Color::Rgb(0, 0, 255);
    canvas.set(0, 0, red);
    canvas.set(0, 1, red);
    canvas.set(1, 0, red);
    canvas.set(1, 1, blue);
    canvas.set(2, 1, blue);
    canvas.set(9, 9, blue);
    let a = area(1, 1, 3, 2);
    let cells = canvas.render(&a);
    let q_red = Color::Rgb(240, 0, 0);
    let q_blue = Color::Rgb(0, 0, 240);
    assert_eq!(cells[0][0], CellWrite { x: 1, y: 1, symbol: '\u{2588}', fg: Some(q_red), bg: None });
    assert_eq!(cells[0][1], CellWrite { x: 2, y: 1, symbol: '\u{2580}', fg: Some(q_red), bg: Some(q_blue) });
    assert_eq!(cells[0][2], CellWrite { x: 3, y: 1, symbol: '\u{2584}', fg: Some(q_blue), bg: None });
    assert_eq!(cells[1][0], CellWrite { x: 1, y: 2, symbol: ' ', fg: None, bg: None });
    canvas.set(2, 3, red);
    assert_eq!(canvas.render(&a)[1][2].symbol, '\u{2584}');
    canvas.set(2, 2, blue);
    let c = canvas.render(&a)[1][2];
    assert_eq!((c.symbol, c.fg, c.bg), ('\u{2580}', Some(q_blue), Some(q_red)));
}

#[test]
fn halfblock_clear_and_resize() {
    let mut canvas = HalfBlockCanvas::new(2, 1);
    canvas.set(0, 0, Color::White);
    canvas.clear();
    let a = area(0, 0, 2, 1);
    assert_eq!(canvas.render(&a)[0][0].symbol, ' ');
    canvas.set(1, 1, Color::White);
    canvas.resize_or_clear(2, 1);
    assert_eq!(canvas.render(&a)[0][1].symbol, ' ');
    canvas.resize_or_clear(4, 4);
    assert_eq!(canvas.pixel_height(), 8);
    assert_eq!(canvas.render(&area(0, 0, 10, 10)).len(), 4);
}

#[test]
fn scaled_index_spreads_and_clamps() {
    assert_eq!(scaled_index(0, 80, 8192), 0);
    assert_eq!(scaled_index(40, 80, 8192), 4096);
    assert_eq!(scaled_index(79, 80, 8192), 8089);
    assert_eq!(scaled_index(5, 4, 10), 9);
    assert_eq!(scaled_index(3, 10, 0), 0);
}

#[test]
fn resized_canvases_draw_as_new_ones() {
    let a = area(1, 1, 6, 4);
    let mut braille = BrailleCanvas::new(3, 2);
    braille.set(0, 0);
    braille.set(5, 7);
    braille.resize_or_clear(3, 2);
    assert_eq!(braille.render(&a, Color::Cyan), BrailleCanvas::new(3, 2).render(&a, Color::Cyan));
    braille.set(2, 2);
    braille.resize_or_clear(6, 4);
    assert_eq!(braille.render(&a, Color::Cyan), BrailleCanvas::new(6, 4).render(&a, Color::Cyan));

    let mut half = HalfBlockCanvas::new(3, 2);
    half.set(1, 3, Color::Rgb(200, 10, 10));
    half.resize_or_clear(3, 2);
    assert_eq!(half.render(&a), HalfBlockCanvas::new(3, 2).render(&a));
    half.set(0, 0, Color::Red);
    half.resize_or_clear(5, 1);
    assert_eq!(half.render(&a), HalfBlockCanvas::new(5, 1).render(&a));
}
