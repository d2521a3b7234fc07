use ytdl_lib::humantime::HumanTime;

#[test]
fn parses_seconds_only() {
    assert_eq!(HumanTime::from("5"), Some(HumanTime(0, 0, 5)));
    assert_eq!(HumanTime::from("59"), Some(HumanTime(0, 0, 59)));
}

#[test]
fn parses_minutes_and_seconds() {
    assert_eq!(HumanTime::from("12:34"), Some(HumanTime(0, 12, 34)));
    assert_eq!(HumanTime::from("0:07"), Some(HumanTime(0, 0, 7)));
}

#[test]
fn parses_full_times() {
    assert_eq!(HumanTime::from("1:2:3"), Some(HumanTime(1, 2, 3)));
    assert_eq!(HumanTime::from("23:59:59"), Some(HumanTime(23, 59, 59)));
}

#[test]
fn rejects_out_of_range_fields() {
    assert_eq!(HumanTime::from("24:00:00"), None);
    assert_eq!(HumanTime::from("99"), None);
    assert_eq!(HumanTime::from("1:60"), None);
}

#[test]
fn rejects_malformed_times() {
    assert_eq!(HumanTime::from(""), None);
    assert_eq!(HumanTime::from("123"), None);
    assert_eq!(HumanTime::from("1:2:3:4"), None);
    assert_eq!(HumanTime::from("a:b"), None);
    assert_eq!(HumanTime::from("12:"), None);
}

#[test]
fn duration_between_times() {
    let start = HumanTime::from("0:0:10").unwrap();
    let end = HumanTime::from("0:1:20").unwrap();
    assert_eq!(start.calculate_duration(end), Some(HumanTime(0, 1, 10)));
}

#[test]
fn duration_rejects_reversed_times() {
    let start = HumanTime::from("0:2:10").unwrap();
    let end = HumanTime::from("0:1:20").unwrap();
    assert_eq!(start.calculate_duration(end), None);
}
