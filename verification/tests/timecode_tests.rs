use muscle::errors::PlanError;
use muscle::timecode::format_index4;
use muscle::timecode::format_milli_trimmed;
use muscle::timecode::format_ms_fixed3;
use muscle::timecode::parse_time_ms;
use muscle::timecode::u64_to_string;

#[test]
fn three_fields_read_as_hours_minutes_seconds() {
    assert_eq!(parse_time_ms("00:00:05"), Ok(5_000));
    assert_eq!(parse_time_ms("01:02:03"), Ok(3_723_000));
    assert_eq!(parse_time_ms("0:0:59"), Ok(59_000));
    assert_eq!(parse_time_ms("2:0:0"), Ok(7_200_000));
}

#[test]
fn third_field_above_59_reads_as_minutes_seconds_milliseconds() {
    assert_eq!(parse_time_ms("1:2:500"), Ok(62_500));
    assert_eq!(parse_time_ms("0:1:60"), Ok(1_060));
    assert_eq!(parse_time_ms("0:0:999"), Ok(999));
}

#[test]
fn ambiguity_is_kept_not_fixed() {
    // 1:2:3 always reads as hours:minutes:seconds even when
    // minutes:seconds:milliseconds was meant.
    assert_eq!(parse_time_ms("1:2:3"), Ok(3_723_000));
}

#[test]
fn plain_numbers_read_as_seconds() {
    assert_eq!(parse_time_ms("7"), Ok(7_000));
    assert_eq!(parse_time_ms("6.5"), Ok(6_500));
    assert_eq!(parse_time_ms("0.25"), Ok(250));
    assert_eq!(parse_time_ms(".5"), Ok(500));
    assert_eq!(parse_time_ms("5."), Ok(5_000));
    assert_eq!(parse_time_ms("0"), Ok(0));
}

#[test]
fn fractional_digits_beyond_the_third_do_not_contribute() {
    assert_eq!(parse_time_ms("1.2345"), Ok(1_234));
    assert_eq!(parse_time_ms("0.0009"), Ok(0));
}

#[test]
fn fractional_fields_inside_three_field_forms() {
    // 1.5 hours, 2 minutes, 3 seconds.
    assert_eq!(parse_time_ms("1.5:2:3"), Ok(5_523_000));
    // The third field 59.5 exceeds 59, so the whole reads as
    // minutes:seconds:milliseconds with a truncated sub-millisecond part.
    assert_eq!(parse_time_ms("0:0:59.5"), Ok(59));
}

#[test]
fn malformed_timestamps_are_time_parse_errors() {
    assert_eq!(parse_time_ms("abc"), Err(PlanError::TimeParse));
    assert_eq!(parse_time_ms(""), Err(PlanError::TimeParse));
    assert_eq!(parse_time_ms("1:2"), Err(PlanError::TimeParse));
    assert_eq!(parse_time_ms("1:2:3:4"), Err(PlanError::TimeParse));
    assert_eq!(parse_time_ms("1:2:x"), Err(PlanError::TimeParse));
    assert_eq!(parse_time_ms("-5"), Err(PlanError::TimeParse));
    assert_eq!(parse_time_ms("1e3"), Err(PlanError::TimeParse));
    assert_eq!(parse_time_ms("."), Err(PlanError::TimeParse));
    assert_eq!(parse_time_ms("1.2.3"), Err(PlanError::TimeParse));
}

#[test]
fn values_at_and_over_the_cap() {
    // One billion seconds is exactly the representable cap.
    assert_eq!(parse_time_ms("1000000000"), Ok(1_000_000_000_000));
    assert_eq!(parse_time_ms("1000000000.001"), Err(PlanError::TimeParse));
    assert_eq!(
        parse_time_ms("99999999999999999999999999"),
        Err(PlanError::TimeParse)
    );
}

#[test]
fn decimal_formatting() {
    assert_eq!(u64_to_string(0), "0");
    assert_eq!(u64_to_string(42), "42");
    assert_eq!(u64_to_string(1_000_000_000_000), "1000000000000");
    assert_eq!(format_ms_fixed3(0), "0.000");
    assert_eq!(format_ms_fixed3(7_500), "7.500");
    assert_eq!(format_ms_fixed3(12_345), "12.345");
    assert_eq!(format_milli_trimmed(5_000), "5");
    assert_eq!(format_milli_trimmed(4_500), "4.5");
    assert_eq!(format_milli_trimmed(250), "0.25");
    assert_eq!(format_milli_trimmed(1), "0.001");
    assert_eq!(format_milli_trimmed(0), "0");
    assert_eq!(format_milli_trimmed(1_000), "1");
}

#[test]
fn index_formatting_pads_to_four_digits() {
    assert_eq!(format_index4(0), "0000");
    assert_eq!(format_index4(7), "0007");
    assert_eq!(format_index4(123), "0123");
    assert_eq!(format_index4(9_999), "9999");
    assert_eq!(format_index4(10_000), "10000");
}

#[test]
fn error_labels() {
    assert_eq!(PlanError::TimeParse.label(), "time_parse_error");
    assert_eq!(PlanError::SpecParse.label(), "spec_parse_error");
    assert_eq!(PlanError::MissingSource.label(), "missing_source_error");
    assert_eq!(
        PlanError::SegmentRender(0, "boom".to_string()).label(),
        "segment_render_error"
    );
    assert_eq!(
        PlanError::Finalize("boom".to_string()).label(),
        "finalize_error"
    );
    assert_eq!(
        PlanError::Thumbnail("boom".to_string()).label(),
        "thumbnail_error"
    );
}
