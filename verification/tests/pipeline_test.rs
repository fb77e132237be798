use terminal_vibes::pipeline::SampleAccumulator;

#[test]
fn accumulator_cuts_frames_with_half_overlap() {
    let mut acc: SampleAccumulator<u32> = SampleAccumulator::new(4);
    assert_eq!(acc.push_samples(&[1, 2]), None);
    assert_eq!(acc.push_samples(&[3, 4]), Some(vec![1, 2, 3, 4]));
    // the newest half frame, [3, 4], is kept
    assert_eq!(acc.push_samples(&[5]), None);
    assert_eq!(acc.push_samples(&[6]), Some(vec![3, 4, 5, 6]));
}

#[test]
fn accumulator_keeps_newest_half_after_large_batch() {
    let mut acc: SampleAccumulator<u32> = SampleAccumulator::new(4);
    assert_eq!(acc.push_samples(&[1, 2, 3, 4, 5, 6, 7]), Some(vec![1, 2, 3, 4]));
    assert_eq!(acc.push_samples(&[8, 9]), Some(vec![6, 7, 8, 9]));
    assert_eq!(acc.push_samples(&[]), None);
}
