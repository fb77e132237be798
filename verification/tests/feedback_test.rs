use terminal_vibes::visualizations::feedback::FeedbackCanvas;

const BLACK: (f32, f32, f32) = (0.0, 0.0, 0.0);

#[test]
fn test_new_creates_zeroed_buffers() {
    let fb = FeedbackCanvas::new(10, 5, BLACK);
    assert_eq!(fb.pixel_width(), 10);
    assert_eq!(fb.pixel_height(), 10); // 5 rows * 2 (half-block resolution)
    assert_eq!(fb.get_back(0, 0), (0.0, 0.0, 0.0));
    assert_eq!(fb.get_back(9, 9), (0.0, 0.0, 0.0));
}

#[test]
fn test_resize_changes_dimensions() {
    let mut fb = FeedbackCanvas::new(10, 5, BLACK);
    fb.resize(20, 10);
    assert_eq!(fb.pixel_width(), 20);
    assert_eq!(fb.pixel_height(), 20);
    assert_eq!(fb.get_back(19, 19), (0.0, 0.0, 0.0));
}

#[test]
fn test_resize_same_dims_clears() {
    let mut fb = FeedbackCanvas::new(10, 5, BLACK);
    fb.set_back(5, 5, (1.0, 0.0, 0.0));
    fb.resize(10, 5);
    // resize with same dims should NOT clear — feedback persists
    // only clears when dimensions actually change
    assert_eq!(fb.get_back(5, 5), (1.0, 0.0, 0.0));
}

#[test]
fn test_set_and_get_back() {
    let mut fb = FeedbackCanvas::new(10, 5, BLACK);
    fb.set_back(3, 4, (0.5, 0.7, 0.3));
    assert_eq!(fb.get_back(3, 4), (0.5, 0.7, 0.3));
}

#[test]
fn test_out_of_bounds_ignored() {
    let mut fb = FeedbackCanvas::new(10, 5, BLACK);
    fb.set_back(100, 100, (1.0, 1.0, 1.0)); // should not panic
    assert_eq!(fb.get_back(100, 100), (0.0, 0.0, 0.0)); // out of bounds returns black
}

#[test]
fn feedback_front_untouched_by_back_writes_and_resize_blanks() {
    let mut fb = FeedbackCanvas::new(4, 2, BLACK);
    fb.set_back(1, 1, (0.25, 0.5, 1.0));
    assert_eq!(fb.get_front(1, 1), BLACK);
    assert_eq!(fb.get_back(1, 2), BLACK);
    fb.resize(3, 2);
    assert_eq!(fb.get_back(1, 1), BLACK);
    assert_eq!(fb.pixel_width(), 3);
    assert_eq!(fb.get_front(7, 0), BLACK);
}
