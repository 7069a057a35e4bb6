use cctv_ingest::datetime::api_datetime_to_rfc3339;
use cctv_ingest::filename::filename_to_rfc3339;
use cctv_ingest::filename::parse_cctv_filename;
use cctv_ingest::filename::parse_dash_format;
use cctv_ingest::filename::parse_underscore_format;

#[test]
fn parses_underscore_form() {
    let p = parse_cctv_filename("cctv08_2025-10-08_06-32_4.jpg").unwrap();
    assert_eq!(p.camera_id, "cctv08");
    assert_eq!(p.date, "2025-10-08");
    assert_eq!(p.time, "06-32");
    assert_eq!(p.sequence, "4");
}

#[test]
fn parses_dash_form() {
    let p = parse_cctv_filename("cctv08-2025-10-08-06-32-4.jpg").unwrap();
    assert_eq!(p.camera_id, "cctv08");
    assert_eq!(p.date, "2025-10-08");
    assert_eq!(p.time, "06-32");
    assert_eq!(p.sequence, "4");
}

#[test]
fn both_forms_agree_on_logical_fields() {
    let a = parse_cctv_filename("cctv08_2025-10-08_06-32_4.jpg").unwrap();
    let b = parse_cctv_filename("cctv08-2025-10-08-06-32-4.jpg").unwrap();
    assert_eq!(a.camera_id, b.camera_id);
    assert_eq!(a.date, b.date);
    assert_eq!(a.time, b.time);
    assert_eq!(a.sequence, b.sequence);
}

#[test]
fn strips_url_prefix() {
    let p = parse_cctv_filename("http://host/some/dir/cctv03_2024-01-02_10-00_7.png").unwrap();
    assert_eq!(p.camera_id, "cctv03");
    assert_eq!(p.date, "2024-01-02");
    assert_eq!(p.time, "10-00");
    assert_eq!(p.sequence, "7");
}

#[test]
fn rejects_underscore_form_with_too_few_segments() {
    let e = parse_cctv_filename("cam_2025-10-08_06-32.jpg").unwrap_err();
    assert_eq!(e, "Invalid filename format");
}

#[test]
fn rejects_dash_form_with_too_few_segments() {
    let e = parse_cctv_filename("cctv08-2025-10-08.jpg").unwrap_err();
    assert_eq!(e, "Invalid dash format filename");
}

#[test]
fn rejects_dash_form_without_any_dash() {
    let e = parse_dash_format("cctv08").unwrap_err();
    assert_eq!(e, "Invalid dash format filename - missing camera ID");
}

#[test]
fn underscore_parser_rejects_empty_string() {
    assert!(parse_underscore_format("").is_err());
}

#[test]
fn dash_selection_needs_cctv_substring() {
    // No underscore, but no "cctv" either: the underscore parser runs and
    // finds a single segment.
    let e = parse_cctv_filename("cam08-2025-10-08-06-32-4.jpg").unwrap_err();
    assert_eq!(e, "Invalid filename format");
}

#[test]
fn sequence_is_cut_at_first_dot() {
    let p = parse_cctv_filename("cctv01_2025-01-01_00-00_12.tar.gz").unwrap();
    assert_eq!(p.sequence, "12");
}

#[test]
fn canonical_datetime_is_exact_concatenation() {
    assert_eq!(
        api_datetime_to_rfc3339("2025-10-02", "13:11:00"),
        "2025-10-02T13:11:00Z"
    );
}

#[test]
fn concatenation_does_not_reformat() {
    // Whatever the fields hold is concatenated byte for byte.
    assert_eq!(api_datetime_to_rfc3339("a", "b"), "aTbZ");
}

#[test]
fn filename_datetime_to_rfc3339() {
    let p = parse_cctv_filename("cctv08_2025-10-08_06-32_4.jpg").unwrap();
    assert_eq!(filename_to_rfc3339(&p), "2025-10-08T06:32:00Z");
}
