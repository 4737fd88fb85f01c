//! Trusted bridge to the `url` crate.  Each function here is a plain-values
//! wrapper: it parses, adjusts and re-serialises a URL in one step, and its
//! result — a deterministic function of its arguments — is given a name that
//! the callers' contracts use.

use vstd::prelude::*;

verus! {

/// What parsing and normalising a base URL yields: `Some` of the serialised
/// URL when the text parses as a hierarchical ("can-be-a-base") URL, `None`
/// otherwise.  The result depends on the text alone.
pub uninterp spec fn base_url_of(s: Seq<char>) -> Option<Seq<char>>;

/// A text is a normalised base URL when some input normalises to it.
pub open spec fn is_normalized_base(u: Seq<char>) -> bool {
    exists|raw: Seq<char>| base_url_of(raw) == Some(u)
}

/// Relies on `url::Url::parse`, `cannot_be_a_base` and `to_string`: parses
/// `s` and yields its serialisation when it is a hierarchical URL.
#[verifier::external_body]
pub(crate) fn parse_base_url(s: &str) -> (r: Option<String>)
    ensures
        match r {
            Some(u) => base_url_of(s@) == Some(u@),
            None => base_url_of(s@) is None,
        },
{
    match url::Url::parse(s) {
        Ok(u) => {
            if u.cannot_be_a_base() {
                None
            } else {
                Some(u.to_string())
            }
        },
        Err(_) => None,
    }
}

/// What appending one path segment to a URL yields: `Some` of the serialised
/// URL when `base` parses and accepts path segments, `None` otherwise.  The
/// result depends on the arguments alone.
pub uninterp spec fn with_segment_of(base: Seq<char>, a: Seq<char>) -> Option<Seq<char>>;

/// Relies on `url::Url::parse`, `path_segments_mut` and `to_string`: appends
/// one path segment (percent-encoding it as needed) to a URL.
#[verifier::external_body]
pub(crate) fn url_with_segment(base: &str, a: &str) -> (r: Option<String>)
    ensures
        match r {
            Some(u) => with_segment_of(base@, a@) == Some(u@),
            None => with_segment_of(base@, a@) is None,
        },
{
    let mut u = match url::Url::parse(base) {
        Ok(u) => u,
        Err(_) => return None,
    };
    u.path_segments_mut().ok()?.extend(&[a]);
    Some(u.to_string())
}

/// What appending two path segments to a URL yields, as `with_segment_of`.
pub uninterp spec fn with_segments_of(base: Seq<char>, a: Seq<char>, b: Seq<char>) -> Option<
    Seq<char>,
>;

/// Relies on `url::Url::parse`, `path_segments_mut` and `to_string`: appends
/// two path segments (percent-encoding them as needed) to a URL.
#[verifier::external_body]
pub(crate) fn url_with_segments(base: &str, a: &str, b: &str) -> (r: Option<String>)
    ensures
        match r {
            Some(u) => with_segments_of(base@, a@, b@) == Some(u@),
            None => with_segments_of(base@, a@, b@) is None,
        },
{
    let mut u = match url::Url::parse(base) {
        Ok(u) => u,
        Err(_) => return None,
    };
    u.path_segments_mut().ok()?.extend(&[a, b]);
    Some(u.to_string())
}

/// What replacing a URL's path yields: `Some` of the serialised URL when
/// `base` parses, `None` otherwise.  The result depends on the arguments
/// alone.
pub uninterp spec fn with_path_of(base: Seq<char>, path: Seq<char>) -> Option<Seq<char>>;

/// Relies on `url::Url::parse`, `set_path` and `to_string`: replaces the
/// URL's path with the given one.
#[verifier::external_body]
pub(crate) fn url_with_path(base: &str, path: &str) -> (r: Option<String>)
    ensures
        match r {
            Some(u) => with_path_of(base@, path@) == Some(u@),
            None => with_path_of(base@, path@) is None,
        },
{
    let mut u = match url::Url::parse(base) {
        Ok(u) => u,
        Err(_) => return None,
    };
    u.set_path(path);
    Some(u.to_string())
}

} // verus!
