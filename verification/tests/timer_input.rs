use raid_planner::timer_input::{format_timer, parse_timer, update_timer_input};

#[test]
fn parses_minutes_and_seconds() {
    assert_eq!(parse_timer("1:20", None, None), Some(80));
    assert_eq!(parse_timer("01:20", None, None), Some(80));
    assert_eq!(parse_timer("0:00", None, None), Some(0));
    assert_eq!(parse_timer("99:59", None, None), Some(5999));
}

#[test]
fn parses_plain_seconds() {
    assert_eq!(parse_timer("90", None, None), Some(90));
    assert_eq!(parse_timer("+5", None, None), Some(5));
    assert_eq!(parse_timer("5999", None, None), Some(5999));
}

#[test]
fn refuses_malformed_text() {
    assert_eq!(parse_timer("", None, None), None);
    assert_eq!(parse_timer("1:60", None, None), None);
    assert_eq!(parse_timer("123:00", None, None), None);
    assert_eq!(parse_timer("1:2:3", None, None), None);
    assert_eq!(parse_timer("1:", None, None), None);
    assert_eq!(parse_timer(":20", None, None), None);
    assert_eq!(parse_timer("a:20", None, None), None);
    assert_eq!(parse_timer("-5", None, None), None);
    assert_eq!(parse_timer("1 20", None, None), None);
}

#[test]
fn refuses_a_hundred_minutes_or_more() {
    assert_eq!(parse_timer("6000", None, None), None);
    assert_eq!(parse_timer("18446744073709551615", None, None), None);
    assert_eq!(parse_timer("18446744073709551616", None, None), None);
}

#[test]
fn bounds_are_exclusive() {
    assert_eq!(parse_timer("1:20", Some(80), None), None);
    assert_eq!(parse_timer("1:21", Some(80), None), Some(81));
    assert_eq!(parse_timer("2:00", None, Some(120)), None);
    assert_eq!(parse_timer("1:59", Some(80), Some(120)), Some(119));
}

#[test]
fn formats_with_two_digits() {
    assert_eq!(format_timer(0), "00:00");
    assert_eq!(format_timer(80), "01:20");
    assert_eq!(format_timer(277), "04:37");
    assert_eq!(format_timer(5999), "99:59");
    assert_eq!(format_timer(6000), "100:00");
}

#[test]
fn format_then_parse_gives_the_time_back() {
    for t in [0u64, 1, 59, 60, 61, 80, 277, 3599, 5999] {
        assert_eq!(parse_timer(&format_timer(t), None, None), Some(t));
    }
    assert_eq!(parse_timer(&format_timer(100), Some(99), Some(101)), Some(100));
}

#[test]
fn update_rewrites_text_unless_focused() {
    let u = update_timer_input("80".to_string(), false, None, None);
    assert_eq!(u.result, Some(80));
    assert!(!u.invalid);
    assert_eq!(u.text, "01:20");

    let u = update_timer_input("80".to_string(), true, None, None);
    assert_eq!(u.result, Some(80));
    assert_eq!(u.text, "80");

    let u = update_timer_input("1:75".to_string(), false, None, None);
    assert_eq!(u.result, None);
    assert!(u.invalid);
    assert_eq!(u.text, "1:75");
}

#[test]
fn update_is_stable() {
    let first = update_timer_input("4:37".to_string(), false, None, None);
    let second = update_timer_input(first.text.clone(), false, None, None);
    assert_eq!(second.result, first.result);
    assert_eq!(second.text, first.text);
}
