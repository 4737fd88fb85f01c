//! Request routing and request-level policy: which handler a method and path
//! select, how a post identifier is extracted and sanitised, which public
//! paths are refused, which user agents are turned away, and how the feed's
//! delta parameters are chosen.

use vstd::prelude::*;

use crate::settings::RssContent;
use crate::text::{
    ascii_iequal, contains_seq, contains_sub, eq_ignore_ascii_case, find_char_from, has_prefix,
    lower_code, match_at_exec, matches_at, remove_dots, str_eq, strip_dots_spec,
};

verus! {

/// The handler an inbound request selects.
#[derive(Debug)]
pub enum Route {
    /// The rendered index page.
    Index,
    /// The syndication feed.
    Rss,
    /// The full post listing.
    Archive,
    /// A rendered post; carries the sanitised identifier.
    Post(String),
    /// A redirect to a uniformly chosen post.
    Random,
    /// A static file; carries the path below the public directory.
    Public(String),
    /// The fixed robots policy text.
    Robots,
    NotFound,
}

/// The request uses the GET method.
pub open spec fn is_get(m: Seq<char>) -> bool {
    m == "GET"@
}

/// `e` ends the post-identifier segment of a `/p/...` path: the first path
/// separator after the prefix, or the end of the path.
pub open spec fn seg_end_at(path: Seq<char>, e: int) -> bool {
    &&& 3 <= e <= path.len()
    &&& (e == path.len() || path[e] == '/')
    &&& (forall|k: int| 3 <= k < e ==> path[k] != '/')
}

/// `id` is the post identifier a `/p/...` path selects: the third path
/// segment with every `.` stripped.
pub open spec fn post_route_id(path: Seq<char>, id: Seq<char>) -> bool {
    exists|e: int| #[trigger] seg_end_at(path, e) && id == strip_dots_spec(path.subrange(3, e))
}

/// A prefix pins the path's early characters.
proof fn lemma_prefix_char(s: Seq<char>, p: Seq<char>, k: int)
    requires
        matches_at(s, p, 0),
        0 <= k < p.len(),
    ensures
        s[k] == p[k],
{
    assert(s[0 + k] == p[k]);
}

/// A character mismatch refutes a prefix match.
proof fn lemma_no_match_at0(s: Seq<char>, p: Seq<char>, k: int)
    requires
        0 <= k < p.len(),
        k < s.len(),
        s[k] != p[k],
    ensures
        !matches_at(s, p, 0),
{
    if matches_at(s, p, 0) {
        assert(s[0 + k] == p[k]);
    }
}

/// A case-folded character mismatch refutes case-insensitive equality.
proof fn lemma_not_iequal(s: Seq<char>, t: Seq<char>, k: int)
    requires
        0 <= k < t.len(),
        k < s.len(),
        lower_code(s[k]) != lower_code(t[k]),
    ensures
        !ascii_iequal(s, t),
{
    if ascii_iequal(s, t) {
        assert(lower_code(s[k]) == lower_code(t[k]));
    }
}

/// Decides which handler serves a request.
pub fn route(method: &str, path: &str) -> (r: Route)
    ensures
        (r is Index) <==> (is_get(method@) && path@ == "/"@),
        (r is Rss) <==> (is_get(method@) && path@ == "/rss"@),
        (r is Archive) <==> (is_get(method@) && matches_at(path@, "/archive"@, 0)),
        r matches Route::Post(id) ==> (is_get(method@) && matches_at(path@, "/p/"@, 0)
            && post_route_id(path@, id@)),
        (is_get(method@) && matches_at(path@, "/p/"@, 0)) ==> r is Post,
        (r is Random) <==> (is_get(method@) && matches_at(path@, "/random"@, 0)),
        r matches Route::Public(sub) ==> (is_get(method@) && matches_at(path@, "/public/"@, 0)
            && sub@ == path@.subrange(8, path@.len() as int)),
        (is_get(method@) && matches_at(path@, "/public/"@, 0)) ==> r is Public,
        (r is Robots) <==> (is_get(method@) && ascii_iequal(path@, "/robots.txt"@)),
{
    proof {
        reveal_strlit("GET");
        reveal_strlit("/");
        reveal_strlit("/rss");
        reveal_strlit("/archive");
        reveal_strlit("/p/");
        reveal_strlit("/random");
        reveal_strlit("/public/");
        reveal_strlit("/robots.txt");
    }
    if !str_eq(method, "GET") {
        return Route::NotFound;
    }
    if str_eq(path, "/") {
        proof {
            assert(path@.len() == 1);
            assert(!ascii_iequal(path@, "/robots.txt"@));
        }
        return Route::Index;
    }
    if str_eq(path, "/rss") {
        proof {
            assert(path@.len() == 4);
            lemma_no_match_at0(path@, "/p/"@, 1);
            assert(!ascii_iequal(path@, "/robots.txt"@));
        }
        return Route::Rss;
    }
    if has_prefix(path, "/archive") {
        proof {
            lemma_prefix_char(path@, "/archive"@, 1);
            lemma_no_match_at0(path@, "/p/"@, 1);
            lemma_no_match_at0(path@, "/random"@, 1);
            lemma_no_match_at0(path@, "/public/"@, 1);
            lemma_not_iequal(path@, "/robots.txt"@, 1);
        }
        return Route::Archive;
    }
    if has_prefix(path, "/p/") {
        let plen = path.unicode_len();
        let e = match find_char_from(path, '/', 3) {
            Some(j) => j,
            None => plen,
        };
        let seg = path.substring_char(3, e);
        let id = remove_dots(seg);
        proof {
            assert(seg_end_at(path@, e as int));
            assert(post_route_id(path@, id@));
            lemma_prefix_char(path@, "/p/"@, 1);
            lemma_prefix_char(path@, "/p/"@, 2);
            lemma_no_match_at0(path@, "/archive"@, 1);
            lemma_no_match_at0(path@, "/random"@, 1);
            lemma_no_match_at0(path@, "/public/"@, 2);
            lemma_not_iequal(path@, "/robots.txt"@, 1);
        }
        return Route::Post(id);
    }
    if has_prefix(path, "/random") {
        proof {
            lemma_prefix_char(path@, "/random"@, 1);
            lemma_prefix_char(path@, "/random"@, 2);
            lemma_no_match_at0(path@, "/p/"@, 1);
            lemma_no_match_at0(path@, "/archive"@, 2);
            lemma_no_match_at0(path@, "/public/"@, 1);
            lemma_not_iequal(path@, "/robots.txt"@, 2);
        }
        return Route::Random;
    }
    if has_prefix(path, "/public/") {
        let plen = path.unicode_len();
        let sub = path.substring_char(8, plen);
        proof {
            lemma_prefix_char(path@, "/public/"@, 1);
            lemma_prefix_char(path@, "/public/"@, 2);
            lemma_no_match_at0(path@, "/p/"@, 2);
            lemma_no_match_at0(path@, "/archive"@, 1);
            lemma_no_match_at0(path@, "/random"@, 1);
            lemma_not_iequal(path@, "/robots.txt"@, 1);
        }
        return Route::Public(String::from_str(sub));
    }
    if eq_ignore_ascii_case(path, "/robots.txt") {
        return Route::Robots;
    }
    Route::NotFound
}

/// `[i, j)` spans one segment of a `/`-separated path.
pub open spec fn seg_at(s: Seq<char>, i: int, j: int) -> bool {
    &&& 0 <= i <= j <= s.len()
    &&& (i == 0 || s[i - 1] == '/')
    &&& (j == s.len() || s[j] == '/')
    &&& (forall|k: int| i <= k < j ==> s[k] != '/')
}

/// The segment `[i, j)` is one a public request must never serve: a hidden
/// (dot-leading) name, a private-key-like name, or a key file.
pub open spec fn seg_bad(s: Seq<char>, i: int, j: int) -> bool {
    ||| (j > i && s[i] == '.')
    ||| (j - i >= 4 && matches_at(s, ".pem"@, j - 4))
    ||| (j - i >= 6 && matches_at(s, "id_rsa"@, i))
}

/// Some segment of the path is one a public request must never serve.
pub open spec fn suspicious_spec(s: Seq<char>) -> bool {
    exists|i: int, j: int| #[trigger] seg_at(s, i, j) && seg_bad(s, i, j)
}

/// Whether a path below the public directory holds a segment that must never
/// be served: a dotfile or dot-directory (which also rejects `..`
/// traversal), a `.pem` file, or an `id_rsa`-style key name.
pub fn public_path_is_suspicious(subpath: &str) -> (r: bool)
    ensures
        r == suspicious_spec(subpath@),
{
    proof {
        reveal_strlit(".pem");
        reveal_strlit("id_rsa");
    }
    let len = subpath.unicode_len();
    let mut i: usize = 0;
    loop
        invariant
            i <= len,
            len == subpath@.len(),
            i == 0 || subpath@[i - 1] == '/',
            forall|a: int, b: int|
                #[trigger] seg_at(subpath@, a, b) && a < i ==> !seg_bad(subpath@, a, b),
        decreases len - i,
    {
        proof {
            reveal_strlit(".pem");
            reveal_strlit("id_rsa");
        }
        let j = match find_char_from(subpath, '/', i) {
            Some(j) => j,
            None => len,
        };
        proof {
            assert(seg_at(subpath@, i as int, j as int));
        }
        let starts_dot = j > i && subpath.get_char(i) == '.';
        let ends_pem = j - i >= 4 && match_at_exec(subpath, ".pem", j - 4, len, 4);
        let starts_key = j - i >= 6 && match_at_exec(subpath, "id_rsa", i, len, 6);
        if starts_dot || ends_pem || starts_key {
            proof {
                assert(seg_bad(subpath@, i as int, j as int));
            }
            return true;
        }
        proof {
            assert forall|a: int, b: int|
                #[trigger] seg_at(subpath@, a, b) && a < j + 1 implies !seg_bad(
                subpath@,
                a,
                b,
            ) by {
                if a >= i {
                    assert(a == i as int) by {
                        if a > i {
                            assert(subpath@[a - 1] == '/');
                        }
                    }
                    assert(b == j as int) by {
                        if b < j {
                            assert(subpath@[b] == '/');
                        }
                        if b > j {
                            assert(subpath@[j as int] != '/');
                        }
                    }
                }
            }
        }
        if j >= len {
            proof {
                assert forall|a: int, b: int|
                    #[trigger] seg_at(subpath@, a, b) implies !seg_bad(subpath@, a, b) by {
                    assert(a <= subpath@.len());
                }
            }
            return false;
        }
        i = j + 1;
    }
}

/// Decides whether a public-file request must be refused: a path with a
/// suspicious segment, or one whose resolution traverses a symbolic link, is
/// answered with "not found" — never with the file, and never with an
/// error.
pub fn public_request_denied(subpath: &str, traverses_symlink: bool) -> (r: bool)
    ensures
        r == (suspicious_spec(subpath@) || traverses_symlink),
{
    if public_path_is_suspicious(subpath) {
        true
    } else {
        traverses_symlink
    }
}

/// A path with a `..` segment (or any other dot-leading segment) is
/// suspicious, so a public request for it is answered with "not found",
/// never with the file.
pub proof fn lemma_dot_segment_suspicious(s: Seq<char>, i: int, j: int)
    requires
        seg_at(s, i, j),
        j > i,
        s[i] == '.',
    ensures
        suspicious_spec(s),
{
    assert(seg_bad(s, i, j));
}

/// What `str::to_lowercase` returns; the result depends on the characters
/// alone.
pub uninterp spec fn lower_of(s: Seq<char>) -> Seq<char>;

/// Relies on `str::to_lowercase`.
#[verifier::external_body]
pub(crate) fn to_lowercase(s: &str) -> (r: String)
    ensures
        r@ == lower_of(s@),
{
    s.to_lowercase()
}

/// The user-agent text, lowered, names one of the crawlers the server turns
/// away.
pub open spec fn bot_agent(s: Seq<char>) -> bool {
    ||| contains_seq(lower_of(s), "gptbot"@)
    ||| contains_seq(lower_of(s), "claudebot"@)
    ||| contains_seq(lower_of(s), "imagesift"@)
}

/// Whether any of the request's user-agent values names a crawler the server
/// turns away.
pub fn is_stupid_bot(user_agents: &Vec<String>) -> (r: bool)
    ensures
        r == exists|i: int| 0 <= i < user_agents@.len() && bot_agent(#[trigger] user_agents@[i]@),
{
    let n = user_agents.len();
    let mut i: usize = 0;
    while i < n
        invariant
            i <= n,
            n == user_agents@.len(),
            forall|k: int| 0 <= k < i ==> !bot_agent(#[trigger] user_agents@[k]@),
        decreases n - i,
    {
        let lowered = to_lowercase(user_agents[i].as_str());
        if contains_sub(lowered.as_str(), "gptbot") || contains_sub(lowered.as_str(), "claudebot")
            || contains_sub(lowered.as_str(), "imagesift") {
            proof {
                assert(bot_agent(user_agents@[i as int]@));
            }
            return true;
        }
        i += 1;
    }
    false
}

/// Chooses the feed's delta parameters.  The `since` filter applies only
/// when the client declared support for incremental delivery.  Content
/// follows the configured policy; under the delta-aware policy a client that
/// did not negotiate incremental delivery always receives full content for
/// every item, and a delta-capable client receives the trimmed incremental
/// form.
pub fn feed_params(rss_content: RssContent, deltas_supported: bool, if_modified_since: Option<
    i64,
>) -> (r: (Option<i64>, bool))
    ensures
        r.0 == (if deltas_supported {
            if_modified_since
        } else {
            None::<i64>
        }),
        r.1 == (match rss_content {
            RssContent::Never => false,
            RssContent::Always => true,
            RssContent::SupportsDeltas => !deltas_supported,
        }),
{
    let since = if deltas_supported {
        if_modified_since
    } else {
        None
    };
    let include_content = match rss_content {
        RssContent::Never => false,
        RssContent::Always => true,
        RssContent::SupportsDeltas => !deltas_supported,
    };
    (since, include_content)
}

} // verus!
