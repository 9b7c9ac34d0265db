use seal_updater::progress::{dec_digits, ProgressTracker};

#[test]
fn decimal_digits_exact() {
    assert_eq!(dec_digits(0), b"0".to_vec());
    assert_eq!(dec_digits(7), b"7".to_vec());
    assert_eq!(dec_digits(10), b"10".to_vec());
    assert_eq!(dec_digits(907), b"907".to_vec());
}

#[test]
fn compact_line_with_known_total() {
    let mut t = ProgressTracker::new(Some(10));
    assert_eq!(t.compact_line(), b"0/10".to_vec());
    t.advance();
    t.advance();
    t.advance();
    assert_eq!(t.completed, 3);
    assert_eq!(t.compact_line(), b"3/10".to_vec());
}

#[test]
fn compact_line_with_unknown_total() {
    let mut t = ProgressTracker::new(None);
    t.advance();
    assert_eq!(t.compact_line(), b"1/?".to_vec());
}

#[test]
fn advance_is_monotonic() {
    let mut t = ProgressTracker::new(Some(2));
    assert_eq!(t.completed, 0);
    t.advance();
    assert_eq!(t.completed, 1);
    t.advance();
    assert_eq!(t.completed, 2);
    assert_eq!(t.total, Some(2));
}

#[test]
fn blackout_covers_the_compact_line() {
    let mut t = ProgressTracker::new(Some(10));
    t.advance();
    // the compact line is "1/10": the blackout is a carriage return, one
    // space per byte, and a carriage return again
    assert_eq!(t.blackout_line(), b"\r    \r".to_vec());
}
