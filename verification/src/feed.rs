//! The feed builder: a syndication channel derived from the cache's current
//! post set.  Selection (only posts published at or after a given time),
//! descending publication order and truncation are verified; XML and
//! attribute escaping go through trusted wrappers with named results.

use vstd::multiset::Multiset;
use vstd::prelude::*;

use crate::db::{is_index_key, post_keys, DbV, Post, PostDb, PostEntryV, PostMeta};
use crate::metadata::IndexMetadata;
use crate::time::{format_rfc2822, rfc2822_text_of, ts_wf};
use crate::urlutil::{url_with_segment, url_with_segments, with_segment_of, with_segments_of};

verus! {

broadcast use vstd::multiset::group_multiset_axioms, vstd::multiset::lemma_multiset_empty_len;

/// What XML text escaping does to one character: `<`, `>`, `&` and `\r` are
/// replaced by references, everything else passes through.
pub open spec fn xml_escape_char(c: char) -> Seq<char> {
    if c == '<' {
        "&lt;"@
    } else if c == '>' {
        "&gt;"@
    } else if c == '&' {
        "&amp;"@
    } else if c == '\r' {
        "&#13;"@
    } else {
        seq![c]
    }
}

/// The text with the characters XML cannot hold verbatim escaped, character
/// by character.
pub open spec fn xml_escaped(s: Seq<char>) -> Seq<char>
    decreases s.len(),
{
    if s.len() == 0 {
        Seq::<char>::empty()
    } else {
        xml_escape_char(s[0]) + xml_escaped(s.subrange(1, s.len() as int))
    }
}

/// Relies on `quick_xml::escape::partial_escape`: escapes exactly `<`, `>`,
/// `&` and `\r`, as `xml_escaped` states.
#[verifier::external_body]
pub(crate) fn partial_escape(s: &str) -> (r: String)
    ensures
        r@ == xml_escaped(s@),
{
    quick_xml::escape::partial_escape(s).into_owned()
}

/// Whether `c` is an ASCII letter or digit.
pub open spec fn is_ascii_alnum(c: char) -> bool {
    ||| ('0' <= c && c <= '9')
    ||| ('a' <= c && c <= 'z')
    ||| ('A' <= c && c <= 'Z')
}

/// The upper-case hexadecimal digit for `n` (0 through 15).
pub open spec fn hex_digit(n: int) -> char {
    "0123456789ABCDEF"@[n]
}

/// What unquoted-attribute escaping does to one character: `&`, `<`, `>` and
/// `"` become named references, every other non-alphanumeric ASCII character
/// becomes a two-digit hexadecimal reference, and alphanumeric and non-ASCII
/// characters pass through.
pub open spec fn attr_escape_char(c: char) -> Seq<char> {
    if c == '&' {
        "&amp;"@
    } else if c == '<' {
        "&lt;"@
    } else if c == '>' {
        "&gt;"@
    } else if c == '"' {
        "&quot;"@
    } else if is_ascii_alnum(c) || c as int >= 128 {
        seq![c]
    } else {
        seq!['&', '#', 'x', hex_digit(c as int / 16), hex_digit(c as int % 16), ';']
    }
}

/// The text escaped for use in an unquoted HTML attribute value, character
/// by character.
pub open spec fn attr_escaped(s: Seq<char>) -> Seq<char>
    decreases s.len(),
{
    if s.len() == 0 {
        Seq::<char>::empty()
    } else {
        attr_escape_char(s[0]) + attr_escaped(s.subrange(1, s.len() as int))
    }
}

/// Relies on `html_escape::encode_unquoted_attribute`: the replacement table
/// `attr_escaped` states (non-ASCII bytes are never escaped, so whole
/// non-ASCII characters pass through).
#[verifier::external_body]
pub(crate) fn encode_unquoted_attribute(s: &str) -> (r: String)
    ensures
        r@ == attr_escaped(s@),
{
    html_escape::encode_unquoted_attribute(s).into_owned()
}

/// The base-URL declaration prefixed to feed content so relative links
/// resolve correctly outside the site's own pages.
pub open spec fn base_part_of(url: Seq<char>) -> Seq<char> {
    "<base href=\""@ + attr_escaped(url) + "\" />"@
}

/// Renders the base-URL declaration for a page or feed item.
pub fn render_base_part(url: &str) -> (r: String)
    ensures
        r@ == base_part_of(url@),
{
    let mut s = String::from_str("<base href=\"");
    s.append(encode_unquoted_attribute(url).as_str());
    s.append("\" />");
    s
}

/// One item of the syndication feed, as plain values; the caller serialises
/// it with its XML library of choice.
#[derive(Debug)]
pub struct FeedItem {
    /// The post's title, XML-escaped.
    pub title: String,
    /// The permalink: the site URL with `p/<id>` appended.
    pub link: String,
    /// The item's unique identifier: the permalink.
    pub guid: String,
    /// The guid is a permalink.
    pub guid_permalink: bool,
    /// The publish date in RFC 2822 form, when the post names one.
    pub pub_date: Option<String>,
    /// The post's summary, XML-escaped, when it has one.
    pub description: Option<String>,
    /// The full rendered body prefixed with a base-URL declaration, only
    /// when full content was asked for.
    pub content: Option<String>,
}

/// The channel-level fields of the feed, as plain values, with its items.
#[derive(Debug)]
pub struct FeedChannel {
    /// The site title, XML-escaped.
    pub title: String,
    /// The site URL, XML-escaped.
    pub link: String,
    /// The site language, XML-escaped.
    pub language: String,
    /// The last-build date: the cache's index clock, in RFC 2822 form.
    pub last_build_date: String,
    /// The time-to-live in minutes, rounded up from the TTL, floored at 5.
    pub ttl_minutes: u64,
    /// The channel publish date, in RFC 2822 form.
    pub pub_date: String,
    /// The channel image: the site's favicon URL.
    pub image_url: Option<String>,
    pub image_title: String,
    pub image_link: String,
    /// The self-referential feed link: the site URL with `rss` appended.
    pub self_link: Option<String>,
    /// The site summary, when there is one.
    pub description: Option<String>,
    pub items: Vec<FeedItem>,
}

/// The feed's time-to-live in minutes: the TTL in seconds rounded up to
/// minutes, with a floor of 5 minutes.
pub open spec fn ttl_minutes_spec(ttl: u64) -> u64 {
    if ((ttl + 59) / 60) as u64 >= 5 {
        ((ttl + 59) / 60) as u64
    } else {
        5u64
    }
}

/// The feed item that represents the entry `e` cached under `k`, for a site
/// URL and a content-inclusion choice.
pub open spec fn item_matches(
    it: FeedItem,
    k: Seq<char>,
    e: PostEntryV,
    site_url: Seq<char>,
    include_content: bool,
) -> bool {
    &&& it.title@ == xml_escaped(e.metadata.title)
    &&& (match with_segments_of(site_url, "p"@, k) {
        Some(u) => it.link@ == u,
        None => it.link@ == Seq::<char>::empty(),
    })
    &&& it.guid@ == it.link@
    &&& it.guid_permalink
    &&& (match e.metadata.created {
        Some(t) => it.pub_date matches Some(d) && d@ == rfc2822_text_of(t),
        None => it.pub_date is None,
    })
    &&& (match e.metadata.summary {
        Some(s) => it.description matches Some(d) && d@ == xml_escaped(s),
        None => it.description is None,
    })
    &&& (if include_content {
        it.content matches Some(c) && c@ == base_part_of(site_url) + e.body
    } else {
        it.content is None
    })
}

impl Post {
    /// Builds this post's feed item.
    pub fn to_rss_item(&self, site_url: &str, include_content: bool) -> (r: FeedItem)
        requires
            self.entry@.wf(),
        ensures
            item_matches(r, self.id@, self.entry@, site_url@, include_content),
    {
        let title = partial_escape(self.entry.metadata.title.as_str());
        let link = match url_with_segments(site_url, "p", self.id.as_str()) {
            Some(u) => u,
            None => String::new(),
        };
        let guid = link.clone();
        let pub_date = match &self.entry.metadata.created {
            Some(d) => Some(d.to_string_rss()),
            None => None,
        };
        let description = match &self.entry.metadata.summary {
            Some(s) => Some(partial_escape(s.as_str())),
            None => None,
        };
        let content = if include_content {
            let mut c = render_base_part(site_url);
            c.append(self.entry.body.as_str());
            Some(c)
        } else {
            None
        };
        FeedItem { title, link, guid, guid_permalink: true, pub_date, description, content }
    }
}

/// The channel-level fields derived from the site metadata, the index clock,
/// the TTL and a publish time (`c.items` is not constrained).
pub open spec fn channel_matches(
    c: FeedChannel,
    meta: IndexMetadata,
    index_updated: i64,
    ttl: u64,
    now: i64,
) -> bool {
    &&& c.title@ == xml_escaped(meta.title@)
    &&& c.link@ == xml_escaped(meta.url@)
    &&& c.language@ == xml_escaped(meta.lang@)
    &&& c.last_build_date@ == rfc2822_text_of(index_updated)
    &&& c.ttl_minutes == ttl_minutes_spec(ttl)
    &&& c.pub_date@ == rfc2822_text_of(now)
    &&& (match with_segments_of(meta.url@, "public"@, "favicon.png"@) {
        Some(u) => c.image_url matches Some(v) && v@ == u,
        None => c.image_url is None,
    })
    &&& c.image_title@ == meta.title@
    &&& c.image_link@ == meta.url@
    &&& (match with_segment_of(meta.url@, "rss"@) {
        Some(u) => c.self_link matches Some(v) && v@ == u,
        None => c.self_link is None,
    })
    &&& (match meta.summary {
        Some(s) => c.description matches Some(d) && d@ == s@,
        None => c.description is None,
    })
}

/// The channel-level fields of two channels agree.
pub open spec fn channel_base_eq(a: FeedChannel, b: FeedChannel) -> bool {
    &&& a.title@ == b.title@
    &&& a.link@ == b.link@
    &&& a.language@ == b.language@
    &&& a.last_build_date@ == b.last_build_date@
    &&& a.ttl_minutes == b.ttl_minutes
    &&& a.pub_date@ == b.pub_date@
    &&& (match b.image_url {
        Some(u) => a.image_url matches Some(v) && v@ == u@,
        None => a.image_url is None,
    })
    &&& a.image_title@ == b.image_title@
    &&& a.image_link@ == b.image_link@
    &&& (match b.self_link {
        Some(u) => a.self_link matches Some(v) && v@ == u@,
        None => a.self_link is None,
    })
    &&& (match b.description {
        Some(u) => a.description matches Some(v) && v@ == u@,
        None => a.description is None,
    })
}

/// Clones a channel's channel-level fields, with no items.
fn clone_base(c: &FeedChannel) -> (r: FeedChannel)
    ensures
        channel_base_eq(r, *c),
        r.items@.len() == 0,
{
    FeedChannel {
        title: c.title.clone(),
        link: c.link.clone(),
        language: c.language.clone(),
        last_build_date: c.last_build_date.clone(),
        ttl_minutes: c.ttl_minutes,
        pub_date: c.pub_date.clone(),
        image_url: match &c.image_url {
            Some(u) => Some(u.clone()),
            None => None,
        },
        image_title: c.image_title.clone(),
        image_link: c.image_link.clone(),
        self_link: match &c.self_link {
            Some(u) => Some(u.clone()),
            None => None,
        },
        description: match &c.description {
            Some(u) => Some(u.clone()),
            None => None,
        },
        items: Vec::new(),
    }
}

/// An empty placeholder channel, used before the first index parse.
pub(crate) fn empty_channel() -> (r: FeedChannel)
    ensures
        r.items@.len() == 0,
{
    FeedChannel {
        title: String::new(),
        link: String::new(),
        language: String::new(),
        last_build_date: String::new(),
        ttl_minutes: 0,
        pub_date: String::new(),
        image_url: None,
        image_title: String::new(),
        image_link: String::new(),
        self_link: None,
        description: None,
        items: Vec::new(),
    }
}

/// The identifiers of a sequence of posts, in order.
pub open spec fn ids_of(s: Seq<Post>) -> Seq<Seq<char>> {
    s.map_values(|p: Post| p.id@)
}

/// The posts published at or after `since` (all of them when `since` is
/// absent), keeping their order.
pub open spec fn selected(s: Seq<Post>, since: Option<i64>) -> Seq<Post> {
    match since {
        Some(t) => s.filter(|p: Post| p.entry@.published() >= t),
        None => s,
    }
}

/// The cache's post identifiers whose entries are published at or after
/// `since` (all of them when `since` is absent), in insertion order.
pub open spec fn selected_keys(d: DbV, since: Option<i64>) -> Seq<Seq<char>> {
    match since {
        Some(t) => post_keys(d.order).filter(|k: Seq<char>| d.posts[k]@.published() >= t),
        None => post_keys(d.order),
    }
}

/// Posts in weakly decreasing publication order.
pub open spec fn sorted_desc_posts(s: Seq<Post>) -> bool {
    forall|i: int, j: int|
        0 <= i < j < s.len() ==> s[i].entry@.published() >= s[j].entry@.published()
}

/// A post carries a valid snapshot of the cache: its identifier is a cached
/// non-index key and its entry is that key's entry.
pub open spec fn post_of_db(d: DbV, p: Post) -> bool {
    &&& d.posts.contains_key(p.id@)
    &&& p.entry@ == d.posts[p.id@]@
    &&& !is_index_key(p.id@)
}

/// Keeps only the posts published at or after `since` (all of them when
/// `since` is absent), in their given order.
pub fn filter_posts_since(v: Vec<Post>, since: Option<i64>) -> (r: Vec<Post>)
    ensures
        r@ == selected(v@, since),
{
    let t = match since {
        Some(t) => t,
        None => {
            return v;
        },
    };
    let ghost orig = v@;
    let mut v = v;
    let mut out: Vec<Post> = Vec::new();
    let ghost mut consumed: int = 0;
    while v.len() > 0
        invariant
            0 <= consumed <= orig.len(),
            v@ == orig.subrange(consumed, orig.len() as int),
            out@ == orig.subrange(0, consumed).filter(|p: Post| p.entry@.published() >= t),
        decreases v@.len(),
    {
        proof {
            reveal(Seq::filter);
            assert(orig.subrange(0, consumed + 1).drop_last() =~= orig.subrange(0, consumed));
            assert(orig.subrange(0, consumed + 1).last() == orig[consumed]);
        }
        let p = v.remove(0);
        proof {
            assert(p == orig[consumed]);
            assert(v@ =~= orig.subrange(consumed + 1, orig.len() as int));
        }
        let keep = p.published() >= t;
        if keep {
            out.push(p);
        }
        proof {
            consumed = consumed + 1;
        }
    }
    proof {
        assert(orig.subrange(0, orig.len() as int) =~= orig);
    }
    out
}

/// Sorts posts by publication timestamp, newest first, by repeatedly taking
/// the earliest-listed most recent post.  How posts with equal timestamps
/// fall relative to each other is left open.
pub fn sort_posts_desc(v: Vec<Post>) -> (r: Vec<Post>)
    ensures
        r@.len() == v@.len(),
        sorted_desc_posts(r@),
        r@.to_multiset() == v@.to_multiset(),
        ids_of(r@).to_multiset() == ids_of(v@).to_multiset(),
{
    let ghost orig = v@;
    let mut rest = v;
    let mut out: Vec<Post> = Vec::new();
    proof {
        out@.to_multiset_ensures();
        ids_of(out@).to_multiset_ensures();
        assert(out@.to_multiset() =~= Multiset::<Post>::empty());
        assert(out@.to_multiset().add(rest@.to_multiset()) =~= rest@.to_multiset());
        assert(ids_of(out@) =~= Seq::<Seq<char>>::empty());
        assert(ids_of(out@).to_multiset() =~= Multiset::<Seq<char>>::empty());
        assert(ids_of(out@).to_multiset().add(ids_of(rest@).to_multiset()) =~= ids_of(
            rest@,
        ).to_multiset());
    }
    while rest.len() > 0
        invariant
            out@.len() + rest@.len() == orig.len(),
            out@.to_multiset().add(rest@.to_multiset()) == orig.to_multiset(),
            ids_of(out@).to_multiset().add(ids_of(rest@).to_multiset()) == ids_of(
                orig,
            ).to_multiset(),
            sorted_desc_posts(out@),
            forall|a: int, b: int|
                0 <= a < out@.len() && 0 <= b < rest@.len() ==> out@[a].entry@.published()
                    >= rest@[b].entry@.published(),
        decreases rest@.len(),
    {
        let mut m: usize = 0;
        let mut k: usize = 1;
        while k < rest.len()
            invariant
                0 < rest@.len(),
                m < k <= rest@.len(),
                forall|t: int| 0 <= t < k ==> rest@[m as int].entry@.published()
                    >= rest@[t].entry@.published(),
            decreases rest@.len() - k,
        {
            let a = rest[k].published();
            let b = rest[m].published();
            if a > b {
                m = k;
            }
            k += 1;
        }
        let ghost pre_rest = rest@;
        let ghost pre_out = out@;
        let p = rest.remove(m);
        out.push(p);
        proof {
            pre_rest.to_multiset_ensures();
            pre_out.to_multiset_ensures();
            ids_of(pre_rest).to_multiset_ensures();
            ids_of(pre_out).to_multiset_ensures();
            assert(ids_of(rest@) =~= ids_of(pre_rest).remove(m as int));
            assert(ids_of(out@) =~= ids_of(pre_out).push(p.id@));
            assert(ids_of(pre_rest)[m as int] == p.id@);
            assert(out@.to_multiset().add(rest@.to_multiset()) =~= orig.to_multiset());
            assert(ids_of(out@).to_multiset().add(ids_of(rest@).to_multiset()) =~= ids_of(
                orig,
            ).to_multiset());
        }
    }
    proof {
        out@.to_multiset_ensures();
        orig.to_multiset_ensures();
        rest@.to_multiset_ensures();
        ids_of(rest@).to_multiset_ensures();
        ids_of(out@).to_multiset_ensures();
        ids_of(orig).to_multiset_ensures();
        assert(rest@.to_multiset() =~= Multiset::<Post>::empty());
        assert(ids_of(rest@).to_multiset() =~= Multiset::<Seq<char>>::empty());
        assert(out@.to_multiset() =~= orig.to_multiset());
        assert(ids_of(out@).to_multiset() =~= ids_of(orig).to_multiset());
    }
    out
}

/// Filtering posts by publication time and then taking their identifiers is
/// the same as taking the identifiers and filtering them by their entries'
/// publication times, when every post is a snapshot of the cache.
proof fn lemma_selected_ids(d: DbV, s: Seq<Post>, t: i64)
    requires
        forall|m: int| 0 <= m < s.len() ==> post_of_db(d, #[trigger] s[m]),
    ensures
        ids_of(s.filter(|p: Post| p.entry@.published() >= t)) == ids_of(s).filter(
            |k: Seq<char>| d.posts[k]@.published() >= t,
        ),
    decreases s.len(),
{
    reveal(Seq::filter);
    if s.len() == 0 {
        assert(ids_of(s) =~= Seq::<Seq<char>>::empty());
        assert(ids_of(s.filter(|p: Post| p.entry@.published() >= t)) =~= Seq::<
            Seq<char>,
        >::empty());
        assert(ids_of(s).filter(|k: Seq<char>| d.posts[k]@.published() >= t) =~= Seq::<
            Seq<char>,
        >::empty());
    } else {
        let s0 = s.drop_last();
        let last = s.last();
        assert(forall|m: int| 0 <= m < s0.len() ==> s0[m] == s[m]);
        lemma_selected_ids(d, s0, t);
        assert(ids_of(s).drop_last() =~= ids_of(s0));
        assert(ids_of(s).last() == last.id@);
        assert(post_of_db(d, last)) by {
            assert(s[s.len() - 1] == last);
        }
        assert(last.entry@.published() == d.posts[last.id@]@.published());
        if last.entry@.published() >= t {
            assert(s.filter(|p: Post| p.entry@.published() >= t) == s0.filter(
                |p: Post| p.entry@.published() >= t,
            ).push(last));
            assert(ids_of(s).filter(|k: Seq<char>| d.posts[k]@.published() >= t) == ids_of(
                s0,
            ).filter(|k: Seq<char>| d.posts[k]@.published() >= t).push(last.id@));
            assert(ids_of(
                s0.filter(|p: Post| p.entry@.published() >= t).push(last),
            ) =~= ids_of(s0.filter(|p: Post| p.entry@.published() >= t)).push(last.id@));
        } else {
            assert(s.filter(|p: Post| p.entry@.published() >= t) == s0.filter(
                |p: Post| p.entry@.published() >= t,
            ));
            assert(ids_of(s).filter(|k: Seq<char>| d.posts[k]@.published() >= t) == ids_of(
                s0,
            ).filter(|k: Seq<char>| d.posts[k]@.published() >= t));
        }
    }
}

/// Every element of a filtered sequence is an element of the sequence.
proof fn lemma_filter_subset(s: Seq<Post>, pred: spec_fn(Post) -> bool, x: Post)
    requires
        s.filter(pred).contains(x),
    ensures
        s.contains(x),
    decreases s.len(),
{
    reveal(Seq::filter);
    if s.len() > 0 {
        let s0 = s.drop_last();
        if pred(s.last()) && x == s.last() {
            assert(s[s.len() - 1] == x);
        } else {
            assert(s0.filter(pred).contains(x));
            lemma_filter_subset(s0, pred, x);
            let m = choose|m: int| 0 <= m < s0.len() && s0[m] == x;
            assert(s[m] == x);
        }
    }
}

/// The spec of the feed's item list: some ordering `ks` of the selected
/// identifiers — exactly the cached posts published at or after `since` —
/// sorted by publication time descending, with the feed items rendered from
/// its first `max` entries.
pub open spec fn feed_ok(
    d: DbV,
    since: Option<i64>,
    include_content: bool,
    max: int,
    items: Seq<FeedItem>,
    ks: Seq<Seq<char>>,
) -> bool {
    &&& ks.to_multiset() == selected_keys(d, since).to_multiset()
    &&& (forall|i: int| 0 <= i < ks.len() ==> d.posts.contains_key(#[trigger] ks[i]))
    &&& (forall|i: int, j: int|
        0 <= i < j < ks.len() ==> d.posts[ks[i]]@.published() >= d.posts[ks[j]]@.published())
    &&& items.len() == (if ks.len() < max {
        ks.len() as int
    } else {
        max
    })
    &&& (forall|i: int|
        0 <= i < items.len() ==> item_matches(
            #[trigger] items[i],
            ks[i],
            d.posts[ks[i]]@,
            d.index_metadata.url@,
            include_content,
        ))
}

/// The listing projection `m` presents the entry `e` cached under `k`.
pub open spec fn meta_matches(m: PostMeta, k: Seq<char>, e: PostEntryV) -> bool {
    &&& m.id@ == k
    &&& m.title@ == e.metadata.title
    &&& crate::metadata::opt_view(m.summary) == e.metadata.summary
}

/// The spec of a page listing: some ordering `ks` of all cached post
/// identifiers, sorted by publication time descending, with the listing
/// projections of its first `max` entries.
pub open spec fn listing_ok(d: DbV, max: int, metas: Seq<PostMeta>, ks: Seq<Seq<char>>) -> bool {
    &&& ks.to_multiset() == post_keys(d.order).to_multiset()
    &&& (forall|i: int| 0 <= i < ks.len() ==> d.posts.contains_key(#[trigger] ks[i]))
    &&& (forall|i: int, j: int|
        0 <= i < j < ks.len() ==> d.posts[ks[i]]@.published() >= d.posts[ks[j]]@.published())
    &&& metas.len() == (if ks.len() < max {
        ks.len() as int
    } else {
        max
    })
    &&& (forall|i: int|
        0 <= i < metas.len() ==> meta_matches(#[trigger] metas[i], ks[i], d.posts[ks[i]]@))
}

impl PostDb {
    /// The most recent posts, newest first, truncated to `max`: the listing
    /// shown on the index page (and, untruncated, on the archive page).
    pub fn recent_posts(&self, max: usize) -> (r: Vec<PostMeta>)
        requires
            self.wf(),
        ensures
            exists|ks: Seq<Seq<char>>| #[trigger] listing_ok(self@, max as int, r@, ks),
    {
        let ghost d = self@;
        let all = self.all_posts();
        let ghost all_s = all@;
        proof {
            broadcast use vstd::seq_lib::group_filter_ensures;

            assert forall|m: int| 0 <= m < all_s.len() implies post_of_db(
                d,
                #[trigger] all_s[m],
            ) by {
                assert(all_s[m].id@ == post_keys(d.order)[m]);
                d.order.lemma_filter_pred(|k: Seq<char>| !is_index_key(k), m);
            }
        }
        let sorted = sort_posts_desc(all);
        let ghost sorted_s = sorted@;
        proof {
            sorted_s.to_multiset_ensures();
            all_s.to_multiset_ensures();
            assert forall|m: int| 0 <= m < sorted_s.len() implies post_of_db(
                d,
                #[trigger] sorted_s[m],
            ) by {
                let x = sorted_s[m];
                assert(sorted_s.contains(x));
                assert(sorted_s.to_multiset().count(x) > 0);
                assert(all_s.to_multiset().count(x) > 0);
                assert(all_s.contains(x));
                let mm = choose|mm: int| 0 <= mm < all_s.len() && all_s[mm] == x;
                assert(post_of_db(d, all_s[mm]));
            }
        }
        let n = if sorted.len() < max {
            sorted.len()
        } else {
            max
        };
        let mut metas: Vec<PostMeta> = Vec::new();
        let mut i: usize = 0;
        while i < n
            invariant
                n <= sorted@.len(),
                i <= n,
                sorted@ == sorted_s,
                forall|m: int| 0 <= m < sorted_s.len() ==> post_of_db(d, #[trigger] sorted_s[m]),
                metas@.len() == i,
                forall|t: int|
                    0 <= t < i ==> meta_matches(
                        #[trigger] metas@[t],
                        sorted_s[t].id@,
                        sorted_s[t].entry@,
                    ),
            decreases n - i,
        {
            metas.push(sorted[i].to_post_meta());
            i += 1;
        }
        proof {
            let ks = ids_of(sorted_s);
            assert(listing_ok(d, max as int, metas@, ks)) by {
                assert(ids_of(all_s) =~= post_keys(d.order));
                assert forall|a: int| 0 <= a < ks.len() implies d.posts.contains_key(
                    #[trigger] ks[a],
                ) by {
                    assert(ks[a] == sorted_s[a].id@);
                    assert(post_of_db(d, sorted_s[a]));
                }
                assert forall|a: int, b: int|
                    0 <= a < b < ks.len() implies d.posts[ks[a]]@.published()
                    >= d.posts[ks[b]]@.published() by {
                    assert(post_of_db(d, sorted_s[a]));
                    assert(post_of_db(d, sorted_s[b]));
                    assert(sorted_s[a].entry@.published() >= sorted_s[b].entry@.published());
                }
                assert forall|a: int| 0 <= a < metas@.len() implies meta_matches(
                    #[trigger] metas@[a],
                    ks[a],
                    d.posts[ks[a]]@,
                ) by {
                    assert(post_of_db(d, sorted_s[a]));
                    assert(sorted_s[a].entry@ == d.posts[ks[a]]@);
                }
            }
        }
        metas
    }

    /// Derives the channel-level feed fields from the current site metadata,
    /// index clock and TTL, with `now` as the channel publish date.
    pub fn make_feed_channel(&self, now: i64) -> (r: FeedChannel)
        requires
            self.wf(),
            ts_wf(now),
        ensures
            channel_matches(r, self@.index_metadata, self@.index_updated, self@.ttl, now),
            r.items@.len() == 0,
    {
        let title = partial_escape(self.site_title());
        let link = partial_escape(self.site_url());
        let language = partial_escape(self.lang());
        let last_build_date = format_rfc2822(self.index_updated());
        let ttl_secs = self.ttl();
        let m = (ttl_secs + 59) / 60;
        let ttl_minutes = if m >= 5 {
            m
        } else {
            5
        };
        let pub_date = format_rfc2822(now);
        let image_url = url_with_segments(self.site_url(), "public", "favicon.png");
        let image_title = String::from_str(self.site_title());
        let image_link = String::from_str(self.site_url());
        let self_link = url_with_segment(self.site_url(), "rss");
        let description = match self.site_summary() {
            Some(s) => Some(String::from_str(s)),
            None => None,
        };
        FeedChannel {
            title,
            link,
            language,
            last_build_date,
            ttl_minutes,
            pub_date,
            image_url,
            image_title,
            image_link,
            self_link,
            description,
            items: Vec::new(),
        }
    }

    /// Builds the feed: the cached channel fields, and the cached posts
    /// published at or after `since` (all of them when `since` is absent),
    /// sorted by publication time descending and truncated to `max` items.
    pub fn get_rss(&self, since: Option<i64>, include_content: bool, max: usize) -> (r:
        FeedChannel)
        requires
            self.wf(),
        ensures
            channel_base_eq(r, self@.feed_base),
            exists|ks: Seq<Seq<char>>| #[trigger]
                feed_ok(self@, since, include_content, max as int, r.items@, ks),
    {
        let ghost d = self@;
        let all = self.all_posts();
        let ghost all_s = all@;
        proof {
            broadcast use vstd::seq_lib::group_filter_ensures;

            assert forall|m: int| 0 <= m < all_s.len() implies post_of_db(
                d,
                #[trigger] all_s[m],
            ) by {
                assert(all_s[m].id@ == post_keys(d.order)[m]);
                d.order.lemma_filter_pred(|k: Seq<char>| !is_index_key(k), m);
            }
        }
        let filtered = filter_posts_since(all, since);
        let ghost filtered_s = filtered@;
        let sorted = sort_posts_desc(filtered);
        let ghost sorted_s = sorted@;
        proof {
            sorted_s.to_multiset_ensures();
            filtered_s.to_multiset_ensures();
            assert forall|m: int| 0 <= m < sorted_s.len() implies post_of_db(
                d,
                #[trigger] sorted_s[m],
            ) by {
                let x = sorted_s[m];
                assert(sorted_s.contains(x));
                assert(sorted_s.to_multiset().count(x) > 0);
                assert(filtered_s.to_multiset().count(x) > 0);
                assert(filtered_s.contains(x));
                match since {
                    Some(t) => {
                        lemma_filter_subset(all_s, |p: Post| p.entry@.published() >= t, x);
                    },
                    None => {},
                }
                let mm = choose|mm: int| 0 <= mm < all_s.len() && all_s[mm] == x;
                assert(post_of_db(d, all_s[mm]));
            }
        }
        let n = if sorted.len() < max {
            sorted.len()
        } else {
            max
        };
        let mut items: Vec<FeedItem> = Vec::new();
        let mut i: usize = 0;
        while i < n
            invariant
                self.wf(),
                d == self@,
                n <= sorted@.len(),
                i <= n,
                sorted@ == sorted_s,
                forall|m: int| 0 <= m < sorted_s.len() ==> post_of_db(d, #[trigger] sorted_s[m]),
                items@.len() == i,
                forall|t: int|
                    0 <= t < i ==> item_matches(
                        #[trigger] items@[t],
                        sorted_s[t].id@,
                        sorted_s[t].entry@,
                        d.index_metadata.url@,
                        include_content,
                    ),
            decreases n - i,
        {
            proof {
                assert(post_of_db(d, sorted_s[i as int]));
                assert(d.posts[sorted_s[i as int].id@]@.wf());
            }
            let it = sorted[i].to_rss_item(self.site_url(), include_content);
            items.push(it);
            i += 1;
        }
        proof {
            let ks = ids_of(sorted_s);
            assert(feed_ok(d, since, include_content, max as int, items@, ks)) by {
                assert(ks.to_multiset() == selected_keys(d, since).to_multiset()) by {
                    assert(ids_of(all_s) =~= post_keys(d.order));
                    match since {
                        Some(t) => {
                            lemma_selected_ids(d, all_s, t);
                            assert(filtered_s == all_s.filter(
                                |p: Post| p.entry@.published() >= t,
                            ));
                            assert(ids_of(filtered_s) == selected_keys(d, since));
                        },
                        None => {
                            assert(filtered_s == all_s);
                            assert(ids_of(filtered_s) == selected_keys(d, since));
                        },
                    }
                }
                assert forall|a: int| 0 <= a < ks.len() implies d.posts.contains_key(
                    #[trigger] ks[a],
                ) by {
                    assert(ks[a] == sorted_s[a].id@);
                    assert(post_of_db(d, sorted_s[a]));
                }
                assert forall|a: int, b: int|
                    0 <= a < b < ks.len() implies d.posts[ks[a]]@.published()
                    >= d.posts[ks[b]]@.published() by {
                    assert(post_of_db(d, sorted_s[a]));
                    assert(post_of_db(d, sorted_s[b]));
                    assert(sorted_s[a].entry@.published() >= sorted_s[b].entry@.published());
                }
                assert forall|a: int| 0 <= a < items@.len() implies item_matches(
                    #[trigger] items@[a],
                    ks[a],
                    d.posts[ks[a]]@,
                    d.index_metadata.url@,
                    include_content,
                ) by {
                    assert(post_of_db(d, sorted_s[a]));
                    assert(sorted_s[a].entry@ == d.posts[ks[a]]@);
                }
            }
        }
        let base = clone_base(self.feed_base_ref());
        let r = FeedChannel {
            title: base.title,
            link: base.link,
            language: base.language,
            last_build_date: base.last_build_date,
            ttl_minutes: base.ttl_minutes,
            pub_date: base.pub_date,
            image_url: base.image_url,
            image_title: base.image_title,
            image_link: base.image_link,
            self_link: base.self_link,
            description: base.description,
            items,
        };
        proof {
            let ks = ids_of(sorted_s);
            assert(feed_ok(self@, since, include_content, max as int, r.items@, ks));
        }
        r
    }
}

} // verus!
