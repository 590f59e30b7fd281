use supersilver::controller::{EncoderTracker, ReportAction, Reading, Side, UsbReporter};
use supersilver::{encode, EncoderState};

fn zero() -> EncoderState {
    EncoderState { left: 0, right: 0, left_pressed: false, right_pressed: false }
}

#[test]
fn tracker_updates_only_its_side_on_movement() {
    let mut shared = zero();
    let mut left = EncoderTracker::new(Side::Left);
    let mut right = EncoderTracker::new(Side::Right);

    assert_eq!(left.observe(Some(0), &mut shared), Reading::Unchanged);
    assert_eq!(shared, zero());

    assert_eq!(left.observe(Some(3), &mut shared), Reading::Moved(3));
    assert_eq!(shared, EncoderState { left: 3, ..zero() });

    assert_eq!(right.observe(Some(-2), &mut shared), Reading::Moved(-2));
    assert_eq!(shared, EncoderState { left: 3, right: -2, ..zero() });

    assert_eq!(left.observe(Some(3), &mut shared), Reading::Unchanged);
    assert_eq!(left.observe(None, &mut shared), Reading::ReadError);
    assert_eq!(shared, EncoderState { left: 3, right: -2, ..zero() });
}

#[test]
fn tracker_keeps_pressed_flags() {
    let mut shared = EncoderState { left_pressed: true, ..zero() };
    let mut right = EncoderTracker::new(Side::Right);
    assert_eq!(right.observe(Some(9), &mut shared), Reading::Moved(9));
    assert_eq!(shared, EncoderState { right: 9, left_pressed: true, ..zero() });
}

#[test]
fn reporter_sends_once_per_position_change() {
    let mut reporter = UsbReporter::new();
    let mut buf = [0u8; 32];

    assert_eq!(reporter.poll(zero(), &mut buf), ReportAction::Idle);

    let moved = EncoderState { left: 5, ..zero() };
    let action = reporter.poll(moved, &mut buf);
    let mut expected = [0u8; 32];
    let len = encode(&moved, &mut expected).unwrap();
    assert_eq!(action, ReportAction::Send(len));
    assert_eq!(&buf[..len], &expected[..len]);

    assert_eq!(reporter.poll(moved, &mut buf), ReportAction::Idle);
}

#[test]
fn reporter_ignores_button_only_changes() {
    let mut reporter = UsbReporter::new();
    let mut buf = [0u8; 32];
    let pressed = EncoderState { left_pressed: true, right_pressed: true, ..zero() };
    assert_eq!(reporter.poll(pressed, &mut buf), ReportAction::Idle);
    assert_eq!(buf, [0u8; 32]);
}

#[test]
fn reporter_reports_encode_failure_and_moves_on() {
    let mut reporter = UsbReporter::new();
    let mut small = [0u8; 2];
    let moved = EncoderState { right: 1, ..zero() };
    assert_eq!(reporter.poll(moved, &mut small), ReportAction::EncodeFailed);
    // The state counts as reported all the same.
    let mut buf = [0u8; 32];
    assert_eq!(reporter.poll(moved, &mut buf), ReportAction::Idle);
}

#[test]
fn shared_position_mirrors_latest_good_read() {
    let mut shared = EncoderState { right: 8, right_pressed: true, ..zero() };
    let mut left = EncoderTracker::new(Side::Left);
    for poll in [Some(3), None, Some(3), Some(-1), None, Some(4), None] {
        left.observe(poll, &mut shared);
    }
    assert_eq!(shared, EncoderState { left: 4, right: 8, left_pressed: false, right_pressed: true });
}
