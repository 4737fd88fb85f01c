//! The conditional-request evaluator: decides, from the client's caching
//! headers and the resource's authoritative timestamp, whether a
//! 304 Not Modified response is appropriate.  Header values are split into
//! tokens at the RFC 2616 separator characters.

use vstd::prelude::*;

use crate::text::matches_at;
use crate::time::{rfc2822_parse_of, parse_rfc2822, ts_wf, MyDateTime, MAX_TS, MIN_TS};

verus! {

/// Whether `c` is one of the RFC 2616 header-value separator characters.
pub open spec fn is_sep_char(c: char) -> bool {
    ||| c == '('
    ||| c == ')'
    ||| c == '<'
    ||| c == '>'
    ||| c == '@'
    ||| c == ','
    ||| c == ';'
    ||| c == ':'
    ||| c == '\\'
    ||| c == '"'
    ||| c == '/'
    ||| c == '['
    ||| c == ']'
    ||| c == '?'
    ||| c == '='
    ||| c == '{'
    ||| c == '}'
    ||| c == ' '
    ||| c == '\t'
}

fn is_sep_exec(c: char) -> (r: bool)
    ensures
        r == is_sep_char(c),
{
    c == '(' || c == ')' || c == '<' || c == '>' || c == '@' || c == ',' || c == ';' || c == ':'
        || c == '\\' || c == '"' || c == '/' || c == '[' || c == ']' || c == '?' || c == '='
        || c == '{' || c == '}' || c == ' ' || c == '\t'
}

/// The token `tok` occurs in `s` at index `i`, delimited on both sides by a
/// separator character or the ends of the value.
pub open spec fn token_at(s: Seq<char>, tok: Seq<char>, i: int) -> bool {
    &&& matches_at(s, tok, i)
    &&& (i == 0 || is_sep_char(s[i - 1]))
    &&& (i + tok.len() == s.len() || is_sep_char(s[i + tok.len()]))
}

/// Splitting `s` at the separator characters yields the token `tok`.
pub open spec fn has_token_spec(s: Seq<char>, tok: Seq<char>) -> bool {
    exists|i: int| token_at(s, tok, i)
}

/// Whether splitting `s` at the RFC 2616 separators yields the token `tok`.
pub fn has_token(s: &str, tok: &str) -> (r: bool)
    requires
        tok@.len() >= 1,
    ensures
        r == has_token_spec(s@, tok@),
{
    let slen = s.unicode_len();
    let tlen = tok.unicode_len();
    if tlen > slen {
        return false;
    }
    let mut i: usize = 0;
    while i <= slen - tlen
        invariant
            1 <= tlen <= slen,
            slen == s@.len(),
            tlen == tok@.len(),
            i <= slen - tlen + 1,
            forall|j: int| 0 <= j < i ==> !token_at(s@, tok@, j),
        decreases slen - tlen - i + 1,
    {
        if crate::text::match_at_exec(s, tok, i, slen, tlen) {
            let left_ok = if i == 0 {
                true
            } else {
                is_sep_exec(s.get_char(i - 1))
            };
            let right_ok = if i + tlen == slen {
                true
            } else {
                is_sep_exec(s.get_char(i + tlen))
            };
            if left_ok && right_ok {
                proof {
                    assert(token_at(s@, tok@, i as int));
                }
                return true;
            }
        }
        i += 1;
    }
    false
}

/// The `Cache-Control` request header, held as its raw value.
pub struct CacheControl {
    pub value: String,
}

impl CacheControl {
    /// Whether the header carries a `no-cache` directive.
    pub fn is_no_cache(&self) -> (r: bool)
        ensures
            r == has_token_spec(self.value@, "no-cache"@),
    {
        proof {
            reveal_strlit("no-cache");
        }
        has_token(self.value.as_str(), "no-cache")
    }
}

/// The `A-IM` request header (accepted instance manipulations), held as its
/// raw value.
pub struct AcceptedManipulations {
    pub value: String,
}

impl AcceptedManipulations {
    /// Whether the client declared support for incremental feed delivery.
    pub fn includes_feed(&self) -> (r: bool)
        ensures
            r == has_token_spec(self.value@, "feed"@),
    {
        proof {
            reveal_strlit("feed");
        }
        has_token(self.value.as_str(), "feed")
    }
}

/// A parsed `If-Modified-Since` request header.
#[derive(Clone, Copy, Debug, PartialEq, Eq, Structural)]
pub struct IfModifiedSince {
    pub when: MyDateTime,
}

impl IfModifiedSince {
    pub open spec fn wf(self) -> bool {
        self.when.wf()
    }

    /// A resource is up to date when its timestamp is no newer than the
    /// client's timestamp plus a one-second tolerance (HTTP dates have
    /// one-second resolution, so equality must be fuzzy).
    pub fn is_up_to_date(&self, current: i64) -> (r: bool)
        requires
            self.wf(),
            ts_wf(current),
        ensures
            r == (current <= self.when.secs + 1),
    {
        current <= self.when.secs + 1
    }
}

/// The caching-related headers of one request, parsed from their raw values.
pub struct RequestHeaders {
    pub if_modified_since: Option<IfModifiedSince>,
    pub cache_control: Option<CacheControl>,
    pub accepted_manipulations: Option<AcceptedManipulations>,
}

/// What parsing an `If-Modified-Since` value yields: the timestamp of the
/// RFC 2822 date it holds, if it is one and lies in the supported band.
pub open spec fn ims_parse_spec(raw: Option<Seq<char>>) -> Option<IfModifiedSince> {
    match raw {
        Some(s) => match rfc2822_parse_of(s) {
            Some(t) => if ts_wf(t) {
                Some(IfModifiedSince { when: MyDateTime { secs: t } })
            } else {
                None
            },
            None => None,
        },
        None => None,
    }
}

impl RequestHeaders {
    pub open spec fn wf(self) -> bool {
        match self.if_modified_since {
            Some(ims) => ims.wf(),
            None => true,
        }
    }

    /// Parses the caching headers from their raw values.  An absent or
    /// unparseable `If-Modified-Since` value leaves no conditional state, so
    /// the resource is always served fresh.
    pub fn from_raw(ims: Option<String>, cc: Option<String>, aim: Option<String>) -> (r:
        RequestHeaders)
        ensures
            r.wf(),
            r.if_modified_since == ims_parse_spec(
                match ims {
                    Some(s) => Some(s@),
                    None => None::<Seq<char>>,
                },
            ),
            r.cache_control matches Some(c) <==> cc is Some,
            r.cache_control matches Some(c) ==> cc matches Some(v) && c.value == v,
            r.accepted_manipulations matches Some(a) <==> aim is Some,
            r.accepted_manipulations matches Some(a) ==> aim matches Some(v) && a.value == v,
    {
        let if_modified_since = match ims {
            Some(s) => match parse_rfc2822(s.as_str()) {
                Some(t) => {
                    if MIN_TS <= t && t <= MAX_TS {
                        Some(IfModifiedSince { when: MyDateTime { secs: t } })
                    } else {
                        None
                    }
                },
                None => None,
            },
            None => None,
        };
        let cache_control = match cc {
            Some(value) => Some(CacheControl { value }),
            None => None,
        };
        let accepted_manipulations = match aim {
            Some(value) => Some(AcceptedManipulations { value }),
            None => None,
        };
        RequestHeaders { if_modified_since, cache_control, accepted_manipulations }
    }

    /// Whether the client's cached copy of a resource with timestamp
    /// `current` is still valid, so a 304 Not Modified answer is right.  A
    /// `no-cache` directive unconditionally forces a fresh response; absent
    /// conditional state also means a fresh response.
    pub fn is_cache_valid(&self, current: i64) -> (r: bool)
        requires
            self.wf(),
            ts_wf(current),
        ensures
            r == ({
                let cache_valid = match self.if_modified_since {
                    Some(ims) => current <= ims.when.secs + 1,
                    None => false,
                };
                let no_cache = match self.cache_control {
                    Some(cc) => has_token_spec(cc.value@, "no-cache"@),
                    None => false,
                };
                cache_valid && !no_cache
            }),
    {
        let no_cache = match &self.cache_control {
            Some(cc) => cc.is_no_cache(),
            None => false,
        };
        let cache_valid = match &self.if_modified_since {
            Some(ims) => ims.is_up_to_date(current),
            None => false,
        };
        cache_valid && !no_cache
    }

    /// Whether the client declared support for incremental feed delivery.
    pub fn deltas_supported(&self) -> (r: bool)
        ensures
            r == (match self.accepted_manipulations {
                Some(aim) => has_token_spec(aim.value@, "feed"@),
                None => false,
            }),
    {
        match &self.accepted_manipulations {
            Some(aim) => aim.includes_feed(),
            None => false,
        }
    }
}

/// A `no-cache` directive always forces a fresh response: whatever the
/// timestamps, the evaluator reports "modified" whenever the request's
/// `Cache-Control` value carries the `no-cache` token.
pub proof fn lemma_no_cache_forces_fresh(h: RequestHeaders, current: i64)
    requires
        h.wf(),
        ts_wf(current),
        h.cache_control matches Some(cc) && has_token_spec(cc.value@, "no-cache"@),
    ensures
        !({
            let cache_valid = match h.if_modified_since {
                Some(ims) => current <= ims.when.secs + 1,
                None => false,
            };
            let no_cache = match h.cache_control {
                Some(cc) => has_token_spec(cc.value@, "no-cache"@),
                None => false,
            };
            cache_valid && !no_cache
        }),
{
}

} // verus!
