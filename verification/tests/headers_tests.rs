//! The conditional-request evaluator and header-token parsing.

use mdblog::headers::{AcceptedManipulations, CacheControl, IfModifiedSince, RequestHeaders};
use mdblog::time::MyDateTime;

#[test]
fn no_cache_token_is_found() {
    let cc = CacheControl { value: "no-cache".to_owned() };
    assert!(cc.is_no_cache());
    let cc = CacheControl { value: "max-age=60, no-cache".to_owned() };
    assert!(cc.is_no_cache());
}

#[test]
fn no_cache_needs_token_boundaries() {
    let cc = CacheControl { value: "xno-cache".to_owned() };
    assert!(!cc.is_no_cache());
    let cc = CacheControl { value: "no-cachex".to_owned() };
    assert!(!cc.is_no_cache());
    let cc = CacheControl { value: "max-age=60".to_owned() };
    assert!(!cc.is_no_cache());
}

#[test]
fn feed_manipulation_is_found() {
    let aim = AcceptedManipulations { value: "feed".to_owned() };
    assert!(aim.includes_feed());
    let aim = AcceptedManipulations { value: "gzip, feed".to_owned() };
    assert!(aim.includes_feed());
    let aim = AcceptedManipulations { value: "feeds".to_owned() };
    assert!(!aim.includes_feed());
}

// A resource stamped exactly at the client's timestamp is not modified; one
// stamped an hour later is.
#[test]
fn if_modified_since_tolerance() {
    let t: i64 = 1693227600;
    let ims = IfModifiedSince { when: MyDateTime { secs: t } };
    assert!(ims.is_up_to_date(t));
    assert!(ims.is_up_to_date(t + 1));
    assert!(!ims.is_up_to_date(t + 2));
    // client timestamp an hour before the resource: modified
    let earlier = IfModifiedSince { when: MyDateTime { secs: t - 3600 } };
    assert!(!earlier.is_up_to_date(t));
}

#[test]
fn no_cache_always_forces_fresh() {
    let t: i64 = 1693227600;
    let h = RequestHeaders::from_raw(
        Some("Mon, 28 Aug 2023 13:00:00 +0000".to_owned()),
        Some("no-cache".to_owned()),
        None,
    );
    // the timestamp alone would allow a 304, but no-cache wins
    assert!(!h.is_cache_valid(t));
    let without = RequestHeaders::from_raw(
        Some("Mon, 28 Aug 2023 13:00:00 +0000".to_owned()),
        None,
        None,
    );
    assert!(without.is_cache_valid(t));
}

#[test]
fn header_parsing_rfc2822() {
    let h = RequestHeaders::from_raw(Some("Wed, 21 Oct 2015 07:28:00 GMT".to_owned()), None, None);
    let ims = h.if_modified_since.expect("should parse");
    assert_eq!(ims.when.secs, 1445412480);
}

#[test]
fn unparseable_date_means_no_conditional_state() {
    let h = RequestHeaders::from_raw(Some("yesterday-ish".to_owned()), None, None);
    assert!(h.if_modified_since.is_none());
    assert!(!h.is_cache_valid(0));
    let absent = RequestHeaders::from_raw(None, None, None);
    assert!(!absent.is_cache_valid(0));
}

#[test]
fn deltas_supported_via_a_im() {
    let h = RequestHeaders::from_raw(None, None, Some("feed".to_owned()));
    assert!(h.deltas_supported());
    let h = RequestHeaders::from_raw(None, None, Some("gzip".to_owned()));
    assert!(!h.deltas_supported());
    let h = RequestHeaders::from_raw(None, None, None);
    assert!(!h.deltas_supported());
}
