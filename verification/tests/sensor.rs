use trichter::sensor::PulseWindow;

#[test]
fn window_opens_and_closes() {
    let w = PulseWindow::new(100, 50);
    assert!(w.is_open(100));
    assert!(w.is_open(149));
    assert!(!w.is_open(150));
    assert!(!w.is_open(1000));
    let empty = PulseWindow::new(7, 0);
    assert!(!empty.is_open(7));
}

#[test]
fn counts_set_polls() {
    let mut w = PulseWindow::new(0, 10);
    assert_eq!(w.pulses(), 0);
    let polls = [true, false, false, true, true, false];
    for p in polls {
        assert_eq!(w.record(p), p);
    }
    assert_eq!(w.pulses(), 3);
}

#[test]
fn counting_resumes_after_clear() {
    let mut w = PulseWindow::new(0, 10);
    for _ in 0..1000 {
        w.record(true);
        w.record(false);
    }
    assert_eq!(w.pulses(), 1000);
}
