use pengui::frame_counter::FrameCounter;

#[test]
fn new_counter_counts_from_zero() {
    let c = FrameCounter::new();
    assert_eq!(c.count(), 0);
    let d: FrameCounter = Default::default();
    assert_eq!(d.count(), 0);
}

#[test]
fn update_counts_one_frame() {
    let mut widget = FrameCounter::new().create();
    assert_eq!(FrameCounter::new().update(&mut widget), 1);
    assert_eq!(FrameCounter::new().update(&mut widget), 2);
    assert_eq!(FrameCounter::new().count_next(false).update(&mut widget), 2);
    assert_eq!(widget.count(), 2);
    assert_eq!(FrameCounter::new().count_next(true).update(&mut widget), 3);
}
