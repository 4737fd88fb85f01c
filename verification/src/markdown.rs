//! Splitting a source document into its YAML front-matter block and its
//! markdown body, and rendering the body to HTML.  The front-matter grammar —
//! an opening `---` line at the very start and a closing `---` line — is the
//! blog's own file format and is verified here; only the markdown-to-HTML
//! conversion goes through a trusted wrapper.

use vstd::prelude::*;

use crate::text::{find_sub_from, matches_at};

verus! {

/// The document with a leading byte-order mark removed.
pub open spec fn strip_bom_spec(s: Seq<char>) -> Seq<char> {
    if s.len() >= 1 && s[0] == '\u{feff}' {
        s.subrange(1, s.len() as int)
    } else {
        s
    }
}

/// Where the front-matter content begins: right after the opening `---` line,
/// which must stand at the very start of the document and end with a line
/// break.
pub open spec fn fm_content_start(t: Seq<char>) -> Option<int> {
    if t.len() >= 4 && t[0] == '-' && t[1] == '-' && t[2] == '-' && t[3] == '\n' {
        Some(4)
    } else if t.len() >= 5 && t[0] == '-' && t[1] == '-' && t[2] == '-' && t[3] == '\r' && t[4]
        == '\n' {
        Some(5)
    } else {
        None
    }
}

/// `i` is the first index at or after `from` where `p` occurs in `s`.
pub open spec fn first_match_from(s: Seq<char>, p: Seq<char>, from: int, i: int) -> bool {
    &&& from <= i
    &&& matches_at(s, p, i)
    &&& forall|j: int| from <= j < i ==> !matches_at(s, p, j)
}

/// `p` occurs in `s` at or after `from`.
pub open spec fn has_match_from(s: Seq<char>, p: Seq<char>, from: int) -> bool {
    exists|i: int| from <= i && matches_at(s, p, i)
}

/// The document has a front-matter block: an opening `---` line, and a
/// closing `---` line — one ending in `\r\n` anywhere, else one ending in
/// `\n` anywhere, else one that ends the document.
pub open spec fn fm_present(s: Seq<char>) -> bool {
    let t = strip_bom_spec(s);
    match fm_content_start(t) {
        None => false,
        Some(st) => {
            ||| has_match_from(t, "\n---\r\n"@, st)
            ||| has_match_from(t, "\n---\n"@, st)
            ||| (t.len() >= st + 4 && first_match_from(t, "\n---"@, st, t.len() - 4))
        },
    }
}

/// `i` is the closing delimiter's position (the index of the line break that
/// begins the closing `---` line), picked by the same priority `fm_present`
/// describes.
pub open spec fn fm_close_at(t: Seq<char>, st: int, i: int) -> bool {
    if has_match_from(t, "\n---\r\n"@, st) {
        first_match_from(t, "\n---\r\n"@, st, i)
    } else if has_match_from(t, "\n---\n"@, st) {
        first_match_from(t, "\n---\n"@, st, i)
    } else {
        first_match_from(t, "\n---"@, st, i) && i + 4 == t.len()
    }
}

/// `inner` is the front-matter content of `s`: the characters between the
/// opening `---` line and the closing `---` line.
pub open spec fn fm_inner(s: Seq<char>, inner: Seq<char>) -> bool {
    let t = strip_bom_spec(s);
    match fm_content_start(t) {
        None => false,
        Some(st) => exists|i: int| #[trigger]
            fm_close_at(t, st, i) && inner == t.subrange(3, i + 1),
    }
}

/// The front-matter content of a document is unique: the grammar's priority
/// determines the closing delimiter, so any two splits agree.
pub proof fn lemma_fm_inner_unique(s: Seq<char>, a: Seq<char>, b: Seq<char>)
    requires
        fm_inner(s, a),
        fm_inner(s, b),
    ensures
        a == b,
{
    let t = strip_bom_spec(s);
    match fm_content_start(t) {
        Some(st) => {
            let i1 = choose|i: int| #[trigger]
                fm_close_at(t, st, i) && a == t.subrange(3, i + 1);
            let i2 = choose|i: int| #[trigger]
                fm_close_at(t, st, i) && b == t.subrange(3, i + 1);
            assert(fm_close_at(t, st, i1));
            assert(fm_close_at(t, st, i2));
            if has_match_from(t, "\n---\r\n"@, st) {
                if i1 < i2 {
                    assert(matches_at(t, "\n---\r\n"@, i1));
                } else if i2 < i1 {
                    assert(matches_at(t, "\n---\r\n"@, i2));
                }
            } else if has_match_from(t, "\n---\n"@, st) {
                if i1 < i2 {
                    assert(matches_at(t, "\n---\n"@, i1));
                } else if i2 < i1 {
                    assert(matches_at(t, "\n---\n"@, i2));
                }
            } else {
                assert(i1 + 4 == t.len() && i2 + 4 == t.len());
            }
            assert(i1 == i2);
        },
        None => {
            assert(false);
        },
    }
}

/// Splits off the document's front-matter content: the YAML text between the
/// opening and closing `---` lines, or `None` when the document has no
/// front-matter block.
pub fn split_front_matter(s: &str) -> (r: Option<String>)
    ensures
        match r {
            Some(inner) => fm_present(s@) && fm_inner(s@, inner@),
            None => !fm_present(s@),
        },
{
    proof {
        reveal_strlit("\n---\r\n");
        reveal_strlit("\n---\n");
        reveal_strlit("\n---");
    }
    let slen = s.unicode_len();
    let t: &str = if slen >= 1 && s.get_char(0) == '\u{feff}' {
        s.substring_char(1, slen)
    } else {
        s
    };
    let tlen = t.unicode_len();
    proof {
        assert(t@ == strip_bom_spec(s@));
    }
    let st: usize;
    if tlen >= 4 && t.get_char(0) == '-' && t.get_char(1) == '-' && t.get_char(2) == '-'
        && t.get_char(3) == '\n' {
        st = 4;
    } else if tlen >= 5 && t.get_char(0) == '-' && t.get_char(1) == '-' && t.get_char(2) == '-'
        && t.get_char(3) == '\r' && t.get_char(4) == '\n' {
        st = 5;
    } else {
        proof {
            assert(fm_content_start(t@) is None);
        }
        return None;
    }
    proof {
        assert(fm_content_start(t@) == Some(st as int));
    }
    match find_sub_from(t, "\n---\r\n", st) {
        Some(i) => {
            proof {
                assert(has_match_from(t@, "\n---\r\n"@, st as int)) by {
                    assert(st as int <= i as int && matches_at(t@, "\n---\r\n"@, i as int));
                }
                assert(fm_present(s@));
                assert(fm_inner(s@, t@.subrange(3, i + 1))) by {
                    assert(fm_close_at(t@, st as int, i as int));
                }
            }
            let inner = t.substring_char(3, i + 1);
            Some(String::from_str(inner))
        },
        None => {
            proof {
                assert(!has_match_from(t@, "\n---\r\n"@, st as int));
            }
            match find_sub_from(t, "\n---\n", st) {
                Some(i) => {
                    proof {
                        assert(has_match_from(t@, "\n---\n"@, st as int)) by {
                            assert(st as int <= i as int && matches_at(t@, "\n---\n"@, i as int));
                        }
                        assert(fm_present(s@));
                        assert(fm_inner(s@, t@.subrange(3, i + 1))) by {
                            assert(fm_close_at(t@, st as int, i as int));
                        }
                    }
                    let inner = t.substring_char(3, i + 1);
                    Some(String::from_str(inner))
                },
                None => {
                    proof {
                        assert(!has_match_from(t@, "\n---\n"@, st as int));
                    }
                    match find_sub_from(t, "\n---", st) {
                        Some(i) => {
                            if i + 4 == tlen {
                                proof {
                                    assert(fm_present(s@)) by {
                                        assert(first_match_from(
                                            t@,
                                            "\n---"@,
                                            st as int,
                                            t@.len() - 4,
                                        ));
                                    }
                                    assert(fm_inner(s@, t@.subrange(3, i + 1))) by {
                                        assert(fm_close_at(t@, st as int, i as int));
                                    }
                                }
                                let inner = t.substring_char(3, i + 1);
                                Some(String::from_str(inner))
                            } else {
                                proof {
                                    assert(i as int <= t@.len() - 4);
                                    assert(!fm_present(s@));
                                }
                                None
                            }
                        },
                        None => {
                            proof {
                                assert(!fm_present(s@));
                            }
                            None
                        },
                    }
                },
            }
        },
    }
}

/// The HTML that the markdown engine renders for a document, with its
/// front-matter block skipped.  The result depends on the text alone: the
/// engine's options are fixed here.
pub uninterp spec fn html_of(text: Seq<char>) -> Seq<char>;

/// Relies on `comrak::markdown_to_html`, with the blog's fixed option set:
/// a `---` front-matter delimiter, the strikethrough, table, tasklist and
/// header-id extensions, smart punctuation, and relaxed tasklist matching.
#[verifier::external_body]
pub(crate) fn render_markdown(text: &str) -> (r: String)
    ensures
        r@ == html_of(text@),
{
    let mut options = comrak::Options::default();
    options.extension.front_matter_delimiter = Some("---".to_owned());
    options.extension.strikethrough = true;
    options.extension.header_id_prefix = Some(String::new());
    options.extension.table = true;
    options.extension.tasklist = true;
    options.parse.smart = true;
    options.parse.relaxed_tasklist_matching = true;
    comrak::markdown_to_html(text, &options)
}

} // verus!
