use cctv_ingest::datetime::compute_window;
use cctv_ingest::datetime::datetime_parts_to_rfc3339;
use cctv_ingest::datetime::days_in_month;
use cctv_ingest::datetime::parse_rfc3339;
use cctv_ingest::datetime::prepare_window;
use cctv_ingest::datetime::rfc3339_to_timestamp;
use cctv_ingest::datetime::sub_days;
use cctv_ingest::datetime::DateTimeParts;

fn parts(year: u32, month: u8, day: u8, hour: u8, minute: u8, second: u8) -> DateTimeParts {
    DateTimeParts { year, month, day, hour, minute, second }
}

#[test]
fn parses_canonical_datetime() {
    let p = parse_rfc3339("2025-10-02T13:11:00Z").unwrap();
    assert_eq!(p, parts(2025, 10, 2, 13, 11, 0));
}

#[test]
fn round_trip_from_string() {
    let s = "2024-02-29T23:59:59Z";
    let p = parse_rfc3339(s).unwrap();
    assert_eq!(datetime_parts_to_rfc3339(&p), s);
}

#[test]
fn round_trip_from_parts() {
    let p = parts(7, 1, 31, 0, 5, 9);
    let s = datetime_parts_to_rfc3339(&p);
    assert_eq!(s, "0007-01-31T00:05:09Z");
    assert_eq!(parse_rfc3339(&s).unwrap(), p);
}

#[test]
fn rejects_wrong_length() {
    assert!(parse_rfc3339("2025-10-02T13:11:00").is_err());
    assert!(parse_rfc3339("").is_err());
}

#[test]
fn rejects_bad_separators() {
    assert!(parse_rfc3339("2025-10-02 13:11:00Z").is_err());
    assert!(parse_rfc3339("2025-10-02T13:11:00X").is_err());
}

#[test]
fn rejects_out_of_range_components() {
    assert!(parse_rfc3339("2025-13-02T13:11:00Z").is_err());
    assert!(parse_rfc3339("2025-00-02T13:11:00Z").is_err());
    assert!(parse_rfc3339("2025-10-02T24:11:00Z").is_err());
    assert!(parse_rfc3339("2025-10-02T13:60:00Z").is_err());
    assert!(parse_rfc3339("2025-10-32T13:11:00Z").is_err());
    assert!(parse_rfc3339("0000-10-02T13:11:00Z").is_err());
}

#[test]
fn respects_the_real_calendar() {
    assert!(parse_rfc3339("2023-02-29T00:00:00Z").is_err());
    assert!(parse_rfc3339("2024-02-29T00:00:00Z").is_ok());
    assert!(parse_rfc3339("1900-02-29T00:00:00Z").is_err());
    assert!(parse_rfc3339("2000-02-29T00:00:00Z").is_ok());
}

#[test]
fn month_lengths() {
    assert_eq!(days_in_month(2025, 2), 28);
    assert_eq!(days_in_month(2024, 2), 29);
    assert_eq!(days_in_month(2025, 4), 30);
    assert_eq!(days_in_month(2025, 12), 31);
}

#[test]
fn sub_days_crosses_month_and_year() {
    let p = parts(2025, 1, 1, 6, 30, 0);
    assert_eq!(sub_days(&p, 1), parts(2024, 12, 31, 6, 30, 0));
    let q = parts(2024, 3, 1, 0, 0, 0);
    assert_eq!(sub_days(&q, 1), parts(2024, 2, 29, 0, 0, 0));
    assert_eq!(sub_days(&q, 2), parts(2024, 2, 28, 0, 0, 0));
}

#[test]
fn window_bounds_are_formatted_exactly() {
    let now = parts(2025, 10, 8, 6, 32, 4);
    let w = compute_window(&now, 2);
    assert_eq!(w.date_stop, "2025-10-08 06:32:04");
    assert_eq!(w.date_start, "2025-10-06 06:32:04");
}

#[test]
fn window_of_zero_days_is_a_point() {
    let now = parts(2025, 10, 8, 6, 32, 4);
    let w = compute_window(&now, 0);
    assert_eq!(w.date_start, w.date_stop);
}

#[test]
fn prepared_window_has_wire_shape() {
    let w = prepare_window(2);
    assert_eq!(w.date_start.len(), 19);
    assert_eq!(w.date_stop.len(), 19);
    assert_eq!(&w.date_stop[4..5], "-");
    assert_eq!(&w.date_stop[10..11], " ");
}

#[test]
fn timestamp_from_canonical_datetime() {
    let ts = rfc3339_to_timestamp("1970-01-01T00:00:01Z").unwrap();
    assert_eq!(ts.seconds, 1);
    assert_eq!(ts.nanos, 0);
    let epoch = rfc3339_to_timestamp("1970-01-01T00:00:00Z").unwrap();
    assert_eq!(epoch.seconds, 0);
    let later = rfc3339_to_timestamp("1970-01-02T00:00:00Z").unwrap();
    assert_eq!(later.seconds, 86400);
}

#[test]
fn timestamp_seconds_across_month_and_leap_boundaries() {
    assert_eq!(
        rfc3339_to_timestamp("2025-10-02T13:11:00Z").unwrap().seconds,
        1759410660
    );
    assert_eq!(
        rfc3339_to_timestamp("1999-12-31T23:59:59Z").unwrap().seconds,
        946684799
    );
    assert_eq!(
        rfc3339_to_timestamp("2000-03-01T00:00:00Z").unwrap().seconds,
        951868800
    );
    assert_eq!(
        rfc3339_to_timestamp("2024-02-29T12:00:00Z").unwrap().seconds,
        1709208000
    );
}

#[test]
fn timestamp_rejects_malformed_datetime() {
    let e = rfc3339_to_timestamp("not a datetime").unwrap_err();
    assert!(e.contains("Failed to parse RFC 3339 datetime"));
    assert!(rfc3339_to_timestamp("2025-10-02T13:11:00+07:00").is_err());
}
