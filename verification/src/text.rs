//! Verified text utilities: substring matching and search, character lookup,
//! case-insensitive comparison, and character filtering.  Everything here is
//! plain character-sequence logic, proved against `Seq<char>` views.

use vstd::prelude::*;

verus! {

/// The pattern `p` occurs in `s` starting at index `i`.
pub open spec fn matches_at(s: Seq<char>, p: Seq<char>, i: int) -> bool {
    &&& 0 <= i
    &&& i + p.len() <= s.len()
    &&& forall|k: int| 0 <= k < p.len() ==> s[i + k] == p[k]
}

/// The pattern `p` occurs somewhere in `s`.
pub open spec fn contains_seq(s: Seq<char>, p: Seq<char>) -> bool {
    exists|i: int| matches_at(s, p, i)
}

/// Whether two string slices hold the same characters.
pub fn str_eq(a: &str, b: &str) -> (r: bool)
    ensures
        r == (a@ == b@),
{
    let alen = a.unicode_len();
    let blen = b.unicode_len();
    if alen != blen {
        return false;
    }
    let mut i: usize = 0;
    while i < alen
        invariant
            i <= alen,
            alen == a@.len(),
            blen == b@.len(),
            alen == blen,
            forall|k: int| 0 <= k < i ==> a@[k] == b@[k],
        decreases alen - i,
    {
        if a.get_char(i) != b.get_char(i) {
            return false;
        }
        i += 1;
    }
    proof {
        assert(a@ =~= b@);
    }
    true
}

/// Whether `p` occurs in `s` at index `i`.  The lengths are passed in so
/// callers scanning a long string do not recount them.
pub(crate) fn match_at_exec(s: &str, p: &str, i: usize, slen: usize, plen: usize) -> (r: bool)
    requires
        slen == s@.len(),
        plen == p@.len(),
        i + plen <= slen,
    ensures
        r == matches_at(s@, p@, i as int),
{
    let mut k: usize = 0;
    while k < plen
        invariant
            k <= plen,
            slen == s@.len(),
            plen == p@.len(),
            i + plen <= slen,
            forall|m: int| 0 <= m < k ==> s@[i + m] == p@[m],
        decreases plen - k,
    {
        if s.get_char(i + k) != p.get_char(k) {
            return false;
        }
        k += 1;
    }
    true
}

/// Whether `s` starts with `p`.
pub fn has_prefix(s: &str, p: &str) -> (r: bool)
    ensures
        r == matches_at(s@, p@, 0),
{
    let slen = s.unicode_len();
    let plen = p.unicode_len();
    if plen > slen {
        return false;
    }
    match_at_exec(s, p, 0, slen, plen)
}

/// Whether `s` ends with `p`.
pub fn has_suffix(s: &str, p: &str) -> (r: bool)
    ensures
        r == (p@.len() <= s@.len() && matches_at(s@, p@, s@.len() - p@.len())),
{
    let slen = s.unicode_len();
    let plen = p.unicode_len();
    if plen > slen {
        return false;
    }
    match_at_exec(s, p, slen - plen, slen, plen)
}

/// Finds the first occurrence of `p` in `s` at or after `from`.
pub fn find_sub_from(s: &str, p: &str, from: usize) -> (r: Option<usize>)
    ensures
        match r {
            Some(i) => from <= i && matches_at(s@, p@, i as int) && forall|j: int|
                from <= j < i ==> !matches_at(s@, p@, j),
            None => forall|j: int| from <= j ==> !matches_at(s@, p@, j),
        },
{
    let slen = s.unicode_len();
    let plen = p.unicode_len();
    if plen > slen || from > slen - plen {
        return None;
    }
    let mut i: usize = from;
    while i <= slen - plen
        invariant
            plen <= slen,
            slen == s@.len(),
            plen == p@.len(),
            from <= i <= slen - plen + 1,
            forall|j: int| from <= j < i ==> !matches_at(s@, p@, j),
        decreases slen - plen - i + 1,
    {
        if match_at_exec(s, p, i, slen, plen) {
            return Some(i);
        }
        i += 1;
    }
    None
}

/// Whether `p` occurs somewhere in `s`.
pub fn contains_sub(s: &str, p: &str) -> (r: bool)
    ensures
        r == contains_seq(s@, p@),
{
    match find_sub_from(s, p, 0) {
        Some(_) => true,
        None => false,
    }
}

/// Finds the first occurrence of the character `c` in `s` at or after `from`.
pub fn find_char_from(s: &str, c: char, from: usize) -> (r: Option<usize>)
    requires
        from <= s@.len(),
    ensures
        match r {
            Some(j) => from <= j < s@.len() && s@[j as int] == c && forall|k: int|
                from <= k < j ==> s@[k] != c,
            None => forall|k: int| from <= k < s@.len() ==> s@[k] != c,
        },
{
    let slen = s.unicode_len();
    let mut j: usize = from;
    while j < slen
        invariant
            from <= j <= slen,
            slen == s@.len(),
            forall|k: int| from <= k < j ==> s@[k] != c,
        decreases slen - j,
    {
        if s.get_char(j) == c {
            return Some(j);
        }
        j += 1;
    }
    None
}

/// The characters of `s` with every `.` removed.
pub open spec fn strip_dots_spec(s: Seq<char>) -> Seq<char> {
    s.filter(|c: char| c != '.')
}

/// Removes every `.` character from `s`.
pub fn remove_dots(s: &str) -> (r: String)
    ensures
        r@ == strip_dots_spec(s@),
{
    let slen = s.unicode_len();
    let mut out = String::new();
    let mut i: usize = 0;
    while i < slen
        invariant
            i <= slen,
            slen == s@.len(),
            out@ == strip_dots_spec(s@.subrange(0, i as int)),
        decreases slen - i,
    {
        proof {
            reveal(Seq::filter);
            assert(s@.subrange(0, i + 1).drop_last() =~= s@.subrange(0, i as int));
            assert(s@.subrange(0, i + 1).last() == s@[i as int]);
        }
        let c = s.get_char(i);
        if c != '.' {
            let piece = s.substring_char(i, i + 1);
            out.append(piece);
            proof {
                assert(piece@ =~= seq![s@[i as int]]);
                assert(strip_dots_spec(s@.subrange(0, i + 1)) =~= strip_dots_spec(
                    s@.subrange(0, i as int),
                ).push(s@[i as int]));
                assert(out@ =~= strip_dots_spec(s@.subrange(0, (i + 1) as int)));
            }
        } else {
            proof {
                assert(strip_dots_spec(s@.subrange(0, i + 1)) =~= strip_dots_spec(
                    s@.subrange(0, i as int),
                ));
            }
        }
        i += 1;
    }
    proof {
        assert(s@.subrange(0, slen as int) =~= s@);
    }
    out
}

/// The code point of `c` with ASCII upper-case letters folded to lower case.
pub open spec fn lower_code(c: char) -> int {
    if 'A' <= c && c <= 'Z' {
        c as int + 32
    } else {
        c as int
    }
}

/// Two character sequences are equal up to ASCII case.
pub open spec fn ascii_iequal(s: Seq<char>, t: Seq<char>) -> bool {
    s.len() == t.len() && forall|k: int| 0 <= k < s.len() ==> lower_code(s[k]) == lower_code(t[k])
}

/// Whether two string slices are equal up to ASCII case.
pub fn eq_ignore_ascii_case(a: &str, b: &str) -> (r: bool)
    ensures
        r == ascii_iequal(a@, b@),
{
    let alen = a.unicode_len();
    let blen = b.unicode_len();
    if alen != blen {
        return false;
    }
    let mut i: usize = 0;
    while i < alen
        invariant
            i <= alen,
            alen == a@.len(),
            blen == b@.len(),
            alen == blen,
            forall|k: int| 0 <= k < i ==> lower_code(a@[k]) == lower_code(b@[k]),
        decreases alen - i,
    {
        let ca = a.get_char(i);
        let cb = b.get_char(i);
        let la: u32 = if ca >= 'A' && ca <= 'Z' {
            ca as u32 + 32
        } else {
            ca as u32
        };
        let lb: u32 = if cb >= 'A' && cb <= 'Z' {
            cb as u32 + 32
        } else {
            cb as u32
        };
        if la != lb {
            return false;
        }
        i += 1;
    }
    true
}

} // verus!
