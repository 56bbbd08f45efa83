use tordln::config::{default_download_dir, default_watch_folder, digit_value, speed_limit_after_backspace, speed_limit_after_digit, Settings};

#[test]
fn documented_defaults() {
    let s = Settings::defaults("/home/you");
    assert_eq!(s.watch_folder, None);
    assert_eq!(s.download_dir, "/home/you/Downloads/tordln");
    assert!(s.clipboard_watch);
    assert_eq!(s.global_speed_limit, None);
    assert_eq!(default_download_dir("."), "./Downloads/tordln");
    assert_eq!(default_watch_folder("/h"), "/h/Downloads/tordln-watch");
}

#[test]
fn speed_limit_typing() {
    assert_eq!(speed_limit_after_digit(None, 7), Some(7));
    assert_eq!(speed_limit_after_digit(None, 0), Some(1));
    assert_eq!(speed_limit_after_digit(Some(1), 0), Some(10));
    assert_eq!(speed_limit_after_digit(Some(1), 1), Some(1));
    assert_eq!(speed_limit_after_digit(Some(5), 5), Some(5));
    assert_eq!(speed_limit_after_digit(Some(0), 0), Some(1));
    assert_eq!(speed_limit_after_digit(Some(429_496_729), 6), Some(429_496_729));
}

#[test]
fn speed_limit_erasing() {
    assert_eq!(speed_limit_after_backspace(None), None);
    assert_eq!(speed_limit_after_backspace(Some(9)), None);
    assert_eq!(speed_limit_after_backspace(Some(10)), Some(1));
    assert_eq!(speed_limit_after_backspace(Some(105)), Some(10));
    assert_eq!(speed_limit_after_backspace(Some(110)), None);
}

#[test]
fn digits() {
    assert_eq!(digit_value('0'), Some(0));
    assert_eq!(digit_value('9'), Some(9));
    assert_eq!(digit_value('a'), None);
    assert_eq!(digit_value('٣'), None);
}
