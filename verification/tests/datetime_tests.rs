//! The accepted front-matter datetime formats, and RFC 2822 rendering.

use mdblog::time::MyDateTime;

// All eight inputs denote 2023-08-28 13:00:00 UTC.
const EXPECTED_SECS: i64 = 1693227600;

#[test]
fn parse_format_1() {
    let input = "28 Aug 2023 06:00:00 PM +0500";
    let parsed = MyDateTime::parse(input).expect("parse_from_str");
    assert_eq!(parsed.secs, EXPECTED_SECS);
}

#[test]
fn parse_format_2() {
    let input = "28 Aug 2023 18:00:00 +0500";
    let parsed = MyDateTime::parse(input).expect("parse_from_str");
    assert_eq!(parsed.secs, EXPECTED_SECS);
}

#[test]
fn parse_format_3() {
    let input = "28 August 2023 06:00:00 PM +0500";
    let parsed = MyDateTime::parse(input).expect("parse_from_str");
    assert_eq!(parsed.secs, EXPECTED_SECS);
}

#[test]
fn parse_format_4() {
    let input = "28 August 2023 18:00:00 +0500";
    let parsed = MyDateTime::parse(input).expect("parse_from_str");
    assert_eq!(parsed.secs, EXPECTED_SECS);
}

#[test]
fn parse_format_5() {
    let input = "28 Aug 2023 06:00 PM +0500";
    let parsed = MyDateTime::parse(input).expect("parse_from_str");
    assert_eq!(parsed.secs, EXPECTED_SECS);
}

#[test]
fn parse_format_6() {
    let input = "28 Aug 2023 18:00 +0500";
    let parsed = MyDateTime::parse(input).expect("parse_from_str");
    assert_eq!(parsed.secs, EXPECTED_SECS);
}

#[test]
fn parse_format_7() {
    let input = "28 August 2023 06:00 PM +0500";
    let parsed = MyDateTime::parse(input).expect("parse_from_str");
    assert_eq!(parsed.secs, EXPECTED_SECS);
}

#[test]
fn parse_format_8() {
    let input = "28 August 2023 18:00 +0500";
    let parsed = MyDateTime::parse(input).expect("parse_from_str");
    assert_eq!(parsed.secs, EXPECTED_SECS);
}

// The band stops at year 9999, the last year RFC 2822 can express: later
// dates are treated as unparseable rather than ever reaching the formatter.
#[test]
fn dates_past_year_9999_are_rejected() {
    assert!(MyDateTime::parse("28 Aug 9999 18:00:00 +0500").is_some());
    assert!(MyDateTime::parse("28 Aug 99999 18:00:00 +0500").is_none());
}

#[test]
fn parse_rejects_other_shapes() {
    assert!(MyDateTime::parse("2023-08-28T18:00:00Z").is_none());
    assert!(MyDateTime::parse("not a date").is_none());
    assert!(MyDateTime::parse("").is_none());
}

#[test]
fn rss_rendering_is_rfc2822() {
    let d = MyDateTime { secs: EXPECTED_SECS };
    assert_eq!(d.to_string_rss(), "Mon, 28 Aug 2023 13:00:00 +0000");
}
