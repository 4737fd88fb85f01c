//! Timestamps, modelled as whole seconds since the Unix epoch, together with
//! the trusted bridge to the `chrono` crate for parsing and formatting
//! RFC 2822 dates and the post front matter's datetime formats.

use vstd::prelude::*;

verus! {

/// The earliest timestamp (in seconds since the epoch) the library works
/// with: the start of year 0, the first year the RFC 2822 date format can
/// express.
pub const MIN_TS: i64 = -62_167_219_200;

/// The latest timestamp the library works with: the last second of year
/// 9999, the last year the RFC 2822 date format can express.
pub const MAX_TS: i64 = 253_402_300_799;

/// A timestamp is well formed when it lies inside the supported band: the
/// years 0 through 9999.  Every such timestamp can be rendered as an
/// RFC 2822 date, and every timestamp computation in the crate stays free of
/// overflow.
pub open spec fn ts_wf(t: i64) -> bool {
    MIN_TS <= t <= MAX_TS
}

/// What `chrono::DateTime::parse_from_str` returns for a text and a format
/// string (the timestamp of the parsed date, or `None` when the text does not
/// match the format).  The result depends on the two arguments alone.
pub uninterp spec fn strptime_of(s: Seq<char>, fmt: Seq<char>) -> Option<i64>;

/// Relies on `chrono::DateTime::parse_from_str`: parses a date in the given
/// `strftime`-style format, yielding its epoch-second timestamp.
#[verifier::external_body]
pub(crate) fn parse_with_format(s: &str, fmt: &str) -> (r: Option<i64>)
    ensures
        r == strptime_of(s@, fmt@),
{
    chrono::DateTime::parse_from_str(s, fmt).ok().map(|d| d.timestamp())
}

/// What `chrono::DateTime::parse_from_rfc2822` returns for a text (the
/// timestamp of the parsed date, or `None` when the text is not an RFC 2822
/// date).  The result depends on the text alone.
pub uninterp spec fn rfc2822_parse_of(s: Seq<char>) -> Option<i64>;

/// Relies on `chrono::DateTime::parse_from_rfc2822`: parses an RFC 2822 date
/// (the HTTP date format), yielding its epoch-second timestamp.
#[verifier::external_body]
pub(crate) fn parse_rfc2822(s: &str) -> (r: Option<i64>)
    ensures
        r == rfc2822_parse_of(s@),
{
    chrono::DateTime::parse_from_rfc2822(s).ok().map(|d| d.timestamp())
}

/// The RFC 2822 text of a timestamp, rendered in UTC.  The result depends on
/// the timestamp alone.
pub uninterp spec fn rfc2822_text_of(t: i64) -> Seq<char>;

/// Relies on `chrono::DateTime::from_timestamp` and `to_rfc2822`: renders a
/// timestamp as an RFC 2822 date.  Within the band `ts_wf` admits,
/// `from_timestamp` returns a date (so the unwrap cannot fail), and that
/// date's year lies in 0 through 9999, the range `to_rfc2822`'s formatter
/// accepts — outside it the formatter panics, which is why the band stops at
/// year 9999.
#[verifier::external_body]
pub(crate) fn format_rfc2822(t: i64) -> (r: String)
    requires
        ts_wf(t),
    ensures
        r@ == rfc2822_text_of(t),
{
    chrono::DateTime::from_timestamp(t, 0).unwrap().to_rfc2822()
}

/// A datetime as the post front matter carries it: a timestamp in seconds
/// since the Unix epoch, within the supported band.
#[derive(Clone, Copy, Debug, PartialEq, Eq, Structural)]
pub struct MyDateTime {
    pub secs: i64,
}

/// The result of trying each accepted front-matter datetime format in order
/// and keeping the first that parses.
pub open spec fn datetime_parse_spec(s: Seq<char>) -> Option<i64> {
    if strptime_of(s, "%e %b %Y %I:%M:%S %p %z"@) is Some {
        strptime_of(s, "%e %b %Y %I:%M:%S %p %z"@)
    } else if strptime_of(s, "%e %b %Y %H:%M:%S %z"@) is Some {
        strptime_of(s, "%e %b %Y %H:%M:%S %z"@)
    } else if strptime_of(s, "%e %B %Y %I:%M:%S %p %z"@) is Some {
        strptime_of(s, "%e %B %Y %I:%M:%S %p %z"@)
    } else if strptime_of(s, "%e %B %Y %H:%M:%S %z"@) is Some {
        strptime_of(s, "%e %B %Y %H:%M:%S %z"@)
    } else if strptime_of(s, "%e %b %Y %I:%M %p %z"@) is Some {
        strptime_of(s, "%e %b %Y %I:%M %p %z"@)
    } else if strptime_of(s, "%e %b %Y %H:%M %z"@) is Some {
        strptime_of(s, "%e %b %Y %H:%M %z"@)
    } else if strptime_of(s, "%e %B %Y %I:%M %p %z"@) is Some {
        strptime_of(s, "%e %B %Y %I:%M %p %z"@)
    } else {
        strptime_of(s, "%e %B %Y %H:%M %z"@)
    }
}

impl MyDateTime {
    pub open spec fn wf(self) -> bool {
        ts_wf(self.secs)
    }

    /// Parses a front-matter datetime, trying each accepted format in order
    /// and keeping the first that matches.  A date whose timestamp falls
    /// outside the supported band is treated as unparseable.
    pub fn parse(s: &str) -> (r: Option<MyDateTime>)
        ensures
            r == (match datetime_parse_spec(s@) {
                Some(t) => if ts_wf(t) {
                    Some(MyDateTime { secs: t })
                } else {
                    None::<MyDateTime>
                },
                None => None::<MyDateTime>,
            }),
    {
        let parsed: Option<i64> = if let Some(t) = parse_with_format(s, "%e %b %Y %I:%M:%S %p %z") {
            Some(t)
        } else if let Some(t) = parse_with_format(s, "%e %b %Y %H:%M:%S %z") {
            Some(t)
        } else if let Some(t) = parse_with_format(s, "%e %B %Y %I:%M:%S %p %z") {
            Some(t)
        } else if let Some(t) = parse_with_format(s, "%e %B %Y %H:%M:%S %z") {
            Some(t)
        } else if let Some(t) = parse_with_format(s, "%e %b %Y %I:%M %p %z") {
            Some(t)
        } else if let Some(t) = parse_with_format(s, "%e %b %Y %H:%M %z") {
            Some(t)
        } else if let Some(t) = parse_with_format(s, "%e %B %Y %I:%M %p %z") {
            Some(t)
        } else {
            parse_with_format(s, "%e %B %Y %H:%M %z")
        };
        match parsed {
            Some(t) => {
                if MIN_TS <= t && t <= MAX_TS {
                    Some(MyDateTime { secs: t })
                } else {
                    None
                }
            },
            None => None,
        }
    }

    /// The RFC 2822 text of this datetime, for feed timestamps.
    pub fn to_string_rss(&self) -> (r: String)
        requires
            self.wf(),
        ensures
            r@ == rfc2822_text_of(self.secs),
    {
        format_rfc2822(self.secs)
    }
}

} // verus!
