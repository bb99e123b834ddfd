use fusebox::clock::{parse_hhmm, time_in_window};

#[test]
fn parses_hhmm() {
    assert_eq!(parse_hhmm("07:30"), Some(450));
    assert_eq!(parse_hhmm("00:00"), Some(0));
    assert_eq!(parse_hhmm("23:59"), Some(1439));
    assert_eq!(parse_hhmm("24:00"), None);
    assert_eq!(parse_hhmm("bad"), None);
}

#[test]
fn same_day_window() {
    // 09:00 to 17:00
    let (s, e) = (540, 1020);
    assert!(time_in_window(600, s, e));
    assert!(!time_in_window(480, s, e));
    assert!(!time_in_window(1080, s, e));
    assert!(time_in_window(540, s, e));
    assert!(time_in_window(1020, s, e));
}

#[test]
fn overnight_window_wraps_midnight() {
    // 07:30 to 01:00
    let (s, e) = (450, 60);
    assert!(time_in_window(450, s, e));
    assert!(time_in_window(1439, s, e));
    assert!(time_in_window(0, s, e));
    assert!(time_in_window(60, s, e));
    assert!(!time_in_window(61, s, e));
    assert!(!time_in_window(449, s, e));
}
