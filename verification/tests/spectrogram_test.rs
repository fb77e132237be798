use terminal_vibes::visualizations::history::BoundedHistory;
use terminal_vibes::visualizations::spectrogram::{shade_char, visible_window};

#[test]
fn history_keeps_newest_entries() {
    let mut h = BoundedHistory::new(3);
    for i in 0..5 {
        h.push(i);
    }
    assert_eq!(h.len(), 3);
    assert_eq!((*h.get(0), *h.get(2)), (2, 4));
    h.extend(&[7, 8]);
    assert_eq!((*h.get(0), *h.get(1), *h.get(2)), (4, 7, 8));
    h.set_max_len(1);
    assert_eq!(h.len(), 3);
    h.push(9);
    assert_eq!(h.len(), 1);
    assert_eq!(*h.get(0), 9);
    let mut none: BoundedHistory<u8> = BoundedHistory::new(0);
    none.push(1);
    assert!(none.is_empty());
}

#[test]
fn shading_levels() {
    assert_eq!(shade_char(0), ' ');
    assert_eq!(shade_char(1), '\u{2591}');
    assert_eq!(shade_char(2), '\u{2592}');
    assert_eq!(shade_char(3), '\u{2593}');
    assert_eq!(shade_char(4), '\u{2588}');
    assert_eq!(shade_char(200), '\u{2588}');
}

#[test]
fn window_shows_newest_at_right() {
    assert_eq!(visible_window(10, 40), (0, 30));
    assert_eq!(visible_window(200, 40), (160, 0));
    assert_eq!(visible_window(0, 5), (0, 5));
}
