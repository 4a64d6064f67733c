use decimal_clock::args::{parse_args, ScanAction};
use decimal_clock::parse::parse_timezone;

fn argv(parts: &[&str]) -> Vec<String> {
    parts.iter().map(|p| p.to_string()).collect()
}

#[test]
fn parses_plain_numbers() {
    assert_eq!(parse_timezone("0"), Some(0));
    assert_eq!(parse_timezone("42"), Some(42));
    assert_eq!(parse_timezone("-5"), Some(-5));
    assert_eq!(parse_timezone("+7"), Some(7));
    assert_eq!(parse_timezone("007"), Some(7));
}

#[test]
fn rejects_non_numbers() {
    assert_eq!(parse_timezone("abc"), None);
    assert_eq!(parse_timezone(""), None);
    assert_eq!(parse_timezone("-"), None);
    assert_eq!(parse_timezone("+"), None);
    assert_eq!(parse_timezone("1x"), None);
    assert_eq!(parse_timezone(" 5"), None);
    assert_eq!(parse_timezone("5 "), None);
    assert_eq!(parse_timezone("--3"), None);
}

#[test]
fn honors_i32_bounds() {
    assert_eq!(parse_timezone("2147483647"), Some(i32::MAX));
    assert_eq!(parse_timezone("2147483648"), None);
    assert_eq!(parse_timezone("-2147483648"), Some(i32::MIN));
    assert_eq!(parse_timezone("-2147483649"), None);
    assert_eq!(parse_timezone("99999999999999999999"), None);
}

#[test]
fn no_flags_runs_with_defaults() {
    let r = parse_args(&argv(&["clock"]));
    assert_eq!(r.action, ScanAction::Run { tz_offset: 0, oneshot: false });
    assert!(r.unknown.is_empty());
}

#[test]
fn offset_and_oneshot_are_read() {
    let r = parse_args(&argv(&["clock", "-t", "3", "--oneshot"]));
    assert_eq!(r.action, ScanAction::Run { tz_offset: 3, oneshot: true });
    assert!(r.unknown.is_empty());
}

#[test]
fn flag_order_does_not_matter() {
    let r = parse_args(&argv(&["clock", "--oneshot", "-t", "2"]));
    assert_eq!(r.action, ScanAction::Run { tz_offset: 2, oneshot: true });
}

#[test]
fn negative_offset_value_is_consumed() {
    let r = parse_args(&argv(&["clock", "-t", "-5"]));
    assert_eq!(r.action, ScanAction::Run { tz_offset: -5, oneshot: false });
}

#[test]
fn later_offset_overrides_earlier() {
    let r = parse_args(&argv(&["clock", "-t", "1", "-t", "2"]));
    assert_eq!(r.action, ScanAction::Run { tz_offset: 2, oneshot: false });
}

#[test]
fn missing_offset_value_is_an_error() {
    let r = parse_args(&argv(&["clock", "-t"]));
    assert_eq!(r.action, ScanAction::MissingOffset);
}

#[test]
fn non_numeric_offset_value_is_an_error() {
    let r = parse_args(&argv(&["clock", "-t", "abc"]));
    assert_eq!(r.action, ScanAction::BadOffset { index: 2 });
}

#[test]
fn unrecognized_arguments_are_recorded_and_skipped() {
    let r = parse_args(&argv(&["clock", "--foo", "-t", "4", "bar"]));
    assert_eq!(r.action, ScanAction::Run { tz_offset: 4, oneshot: false });
    assert_eq!(r.unknown, vec![1, 4]);
}

#[test]
fn error_after_warnings_keeps_the_warnings() {
    let r = parse_args(&argv(&["clock", "--foo", "-t"]));
    assert_eq!(r.action, ScanAction::MissingOffset);
    assert_eq!(r.unknown, vec![1]);
}
