//! The path validator: turns an untrusted content identifier into a safe,
//! canonical filesystem path strictly inside the posts directory, or rejects
//! it.  Identifiers may hold only `[A-Za-z0-9-]`; the canonical path must be
//! a markdown file whose name starts with an alphanumeric character, must lie
//! under the posts directory, and must not have resolved through a symbolic
//! link.  Canonicalisation itself is filesystem work and happens at the
//! caller; every decision about its outcome is made here.

use vstd::prelude::*;

use crate::error::Error;
use crate::text::{has_prefix, match_at_exec, matches_at, str_eq};

verus! {

/// Whether `c` may appear in a post identifier.
pub open spec fn is_id_char(c: char) -> bool {
    ||| ('A' <= c && c <= 'Z')
    ||| ('a' <= c && c <= 'z')
    ||| ('0' <= c && c <= '9')
    ||| c == '-'
}

/// Whether every character of `s` may appear in a post identifier.
pub open spec fn id_chars_ok(s: Seq<char>) -> bool {
    forall|i: int| 0 <= i < s.len() ==> is_id_char(s[i])
}

/// Whether `c` is an ASCII letter or digit.
pub open spec fn is_alnum(c: char) -> bool {
    ||| ('A' <= c && c <= 'Z')
    ||| ('a' <= c && c <= 'z')
    ||| ('0' <= c && c <= '9')
}

/// Checks an identifier's characters.  This check reads only the identifier:
/// an identifier with a character outside `[A-Za-z0-9-]` is rejected before
/// any filesystem access occurs.
pub fn validate_id(id: &str) -> (r: bool)
    ensures
        r == id_chars_ok(id@),
{
    let len = id.unicode_len();
    let mut i: usize = 0;
    while i < len
        invariant
            i <= len,
            len == id@.len(),
            forall|k: int| 0 <= k < i ==> is_id_char(id@[k]),
        decreases len - i,
    {
        let c = id.get_char(i);
        let ok = ('A' <= c && c <= 'Z') || ('a' <= c && c <= 'z') || ('0' <= c && c <= '9') || c
            == '-';
        if !ok {
            return false;
        }
        i += 1;
    }
    true
}

/// The path `p` lies inside the directory `d`: it is `d` itself or continues
/// `d` at a path-separator boundary.
pub open spec fn in_dir(p: Seq<char>, d: Seq<char>) -> bool {
    p == d || matches_at(p, d.push('/'), 0)
}

/// `b` is the index where the path's file name begins: just after the last
/// path separator, or the start of the path.
pub open spec fn file_name_start(p: Seq<char>, b: int) -> bool {
    &&& 0 <= b <= p.len()
    &&& (b == 0 || p[b - 1] == '/')
    &&& forall|k: int| b <= k < p.len() ==> p[k] != '/'
}

/// `q` is the position of the dot that begins the file name's `md` extension:
/// the last dot of the path, strictly after the file name's first character.
pub open spec fn md_ext_at(p: Seq<char>, b: int, q: int) -> bool {
    &&& b < q < p.len()
    &&& p[q] == '.'
    &&& (forall|k: int| q < k < p.len() ==> p[k] != '.')
    &&& p.subrange(q + 1, p.len() as int) == "md"@
}

/// The path names a markdown file whose name starts with an alphanumeric
/// character.
pub open spec fn valid_md_file(p: Seq<char>) -> bool {
    exists|b: int|
        #[trigger] file_name_start(p, b) && b < p.len() && is_alnum(p[b]) && exists|q: int|
            md_ext_at(p, b, q)
}

/// Finds the last occurrence of the character `c` in `s`.
pub fn rfind_char(s: &str, c: char) -> (r: Option<usize>)
    ensures
        match r {
            Some(j) => j < s@.len() && s@[j as int] == c && forall|k: int|
                j < k < s@.len() ==> s@[k] != c,
            None => forall|k: int| 0 <= k < s@.len() ==> s@[k] != c,
        },
{
    let len = s.unicode_len();
    let mut j: usize = len;
    while j > 0
        invariant
            j <= len,
            len == s@.len(),
            forall|k: int| j <= k < s@.len() ==> s@[k] != c,
        decreases j,
    {
        j -= 1;
        if s.get_char(j) == c {
            return Some(j);
        }
    }
    None
}

/// Whether the path names a markdown file whose name starts with an
/// alphanumeric character.
pub fn check_md_file(path: &str) -> (r: bool)
    ensures
        r == valid_md_file(path@),
{
    proof {
        reveal_strlit("md");
    }
    let len = path.unicode_len();
    let b: usize = match rfind_char(path, '/') {
        Some(j) => j + 1,
        None => 0,
    };
    proof {
        assert(file_name_start(path@, b as int));
    }
    if b >= len {
        proof {
            assert forall|bb: int| #[trigger]
                file_name_start(path@, bb) implies !(bb < path@.len() && is_alnum(path@[bb])) by {
                if bb < b as int {
                    assert(path@[b - 1] == '/');
                } else {
                    assert(bb >= path@.len());
                }
            }
        }
        return false;
    }
    let first = path.get_char(b);
    let first_ok = ('A' <= first && first <= 'Z') || ('a' <= first && first <= 'z') || ('0'
        <= first && first <= '9');
    let ext_ok: bool = match rfind_char(path, '.') {
        Some(q) => {
            if q > b && len - (q + 1) == 2 && match_at_exec(path, "md", q + 1, len, 2) {
                proof {
                    assert(path@.subrange(q + 1, path@.len() as int) =~= "md"@);
                    assert(md_ext_at(path@, b as int, q as int));
                }
                true
            } else {
                proof {
                    assert forall|qq: int| !md_ext_at(path@, b as int, qq) by {
                        if qq < q {
                            assert(path@[q as int] == '.');
                        } else if qq == q {
                            if q > b && path@.subrange(q + 1, path@.len() as int) == "md"@ {
                                assert(path@.subrange(q + 1, path@.len() as int).len() == 2);
                                assert(path@[q + 1] == path@.subrange(
                                    q + 1,
                                    path@.len() as int,
                                )[0]);
                                assert(path@[q + 2] == path@.subrange(
                                    q + 1,
                                    path@.len() as int,
                                )[1]);
                                assert(matches_at(path@, "md"@, q + 1));
                            }
                        }
                    }
                }
                false
            }
        },
        None => {
            proof {
                assert forall|qq: int| !md_ext_at(path@, b as int, qq) by {
                    if (b as int) < qq && qq < path@.len() {
                        assert(path@[qq] != '.');
                    }
                }
            }
            false
        },
    };
    let r = first_ok && ext_ok;
    proof {
        if r {
            assert(valid_md_file(path@));
        } else {
            assert forall|bb: int| #[trigger]
                file_name_start(path@, bb) implies !(bb < path@.len() && is_alnum(path@[bb])
                && exists|q: int| md_ext_at(path@, bb, q)) by {
                if bb < b as int {
                    assert(path@[b - 1] == '/');
                } else if bb > b as int {
                    if bb <= path@.len() && (bb == 0 || path@[bb - 1] == '/') {
                        assert(path@[bb - 1] != '/');
                    }
                } else {
                    assert(bb == b as int);
                }
            }
        }
    }
    r
}

/// Whether the path lies inside the directory.
pub fn check_in_dir(path: &str, dir: &str) -> (r: bool)
    ensures
        r == in_dir(path@, dir@),
{
    if str_eq(path, dir) {
        return true;
    }
    let mut pref = String::new();
    pref.append(dir);
    pref.append("/");
    proof {
        reveal_strlit("/");
        assert(pref@ =~= dir@.push('/'));
    }
    has_prefix(path, pref.as_str())
}

/// Validates a canonical path for a post lookup.  The path must not have
/// resolved through a symbolic link (symlinks are inherently untrustworthy
/// for a public-facing path), must lie inside the posts directory — this
/// defeats `../` traversal and directory-symlink escapes — and must name a
/// markdown file whose name starts with an alphanumeric character.
pub fn validate_post_path(path: &str, posts_dir: &str, traverses_symlink: bool) -> (r: Result<
    (),
    Error,
>)
    ensures
        r is Ok <==> (!traverses_symlink && in_dir(path@, posts_dir@) && valid_md_file(path@)),
        r matches Err(e) ==> e is InvalidInput,
{
    if traverses_symlink {
        return Err(Error::InvalidInput);
    }
    if !check_in_dir(path, posts_dir) {
        return Err(Error::InvalidInput);
    }
    if !check_md_file(path) {
        return Err(Error::InvalidInput);
    }
    Ok(())
}

/// An identifier with any character outside `[A-Za-z0-9-]` fails the
/// identifier check — and that check reads only the identifier, so such an
/// identifier is rejected before any filesystem access occurs.
pub proof fn lemma_bad_id_rejected(id: Seq<char>, i: int)
    requires
        0 <= i < id.len(),
        !is_id_char(id[i]),
    ensures
        !id_chars_ok(id),
{
}

/// A canonical path that resolves outside the posts directory is rejected by
/// the path validator, whatever else holds of it.
pub proof fn lemma_outside_dir_rejected(p: Seq<char>, d: Seq<char>, traverses_symlink: bool)
    requires
        !in_dir(p, d),
    ensures
        !(!traverses_symlink && in_dir(p, d) && valid_md_file(p)),
{
}

/// A path whose resolution traverses any symbolic link component is rejected
/// by the path validator, even when the resolved path lies inside the posts
/// directory and names a valid markdown file.
pub proof fn lemma_symlink_rejected(p: Seq<char>, d: Seq<char>, traverses_symlink: bool)
    requires
        traverses_symlink,
    ensures
        !(!traverses_symlink && in_dir(p, d) && valid_md_file(p)),
{
}

} // verus!
