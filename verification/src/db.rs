//! The blog "database": the content cache.  It maps identifiers to parsed
//! entries, owns the canonical posts directory and the TTL, and carries the
//! most recently parsed site metadata.  Entries are created or replaced only
//! by the refresh steps below, and removed only when the backing file is
//! discovered missing.
//!
//! The refresh algorithm is a step machine: the caller (who does the
//! filesystem work) asks `is_fresh` whether the cached entry is still inside
//! its TTL window — the fast path, no disk access; otherwise it stats the
//! file and reports the outcome to `note_stat` (which only bumps the
//! validation clock when the file is unchanged) or `note_missing` (which
//! evicts); only when the file really changed does it read and parse it and
//! `install` the new entry.  Each step's contract pins exactly how the map
//! changes.

use vstd::hash_map::StringHashMap;
use vstd::prelude::*;
use vstd::seq_lib::group_seq_properties;

use crate::error::Error;
use crate::markdown::{
    fm_inner, fm_present, html_of, lemma_fm_inner_unique, render_markdown, split_front_matter,
};
use crate::metadata::{
    bool_of, coffee_of, created_of, index_schema_ok, lang_of, opt_str_of, post_schema_ok,
    tags_of, title_of, url_field_of, views_of, IndexMetadata, Metadata, MetadataV,
};
use crate::time::ts_wf;
use crate::yaml::yaml_doc_of;

verus! {

/// One cached, parsed document.  `body` and `metadata` are always parsed
/// together from the same file read: the parse steps build a whole entry
/// from one text, and entries are installed as a unit.
#[derive(Debug)]
pub struct PostEntry {
    /// The last time the database validated this entry against disk.
    pub updated: i64,
    /// The last time the backing file was modified.
    pub last_modified: i64,
    pub metadata: Metadata,
    /// The rendered HTML fragment.
    pub body: String,
}

/// The mathematical view of a `PostEntry`.
#[verifier::ext_equal]
pub ghost struct PostEntryV {
    pub updated: i64,
    pub last_modified: i64,
    pub metadata: MetadataV,
    pub body: Seq<char>,
}

impl View for PostEntry {
    type V = PostEntryV;

    open spec fn view(&self) -> PostEntryV {
        PostEntryV {
            updated: self.updated,
            last_modified: self.last_modified,
            metadata: self.metadata@,
            body: self.body@,
        }
    }
}

impl PostEntryV {
    /// Both clocks lie in the supported band, as does the creation timestamp
    /// when there is one.
    pub open spec fn wf(self) -> bool {
        &&& ts_wf(self.updated)
        &&& ts_wf(self.last_modified)
        &&& (match self.metadata.created {
            Some(t) => ts_wf(t),
            None => true,
        })
    }

    /// The entry's publication timestamp: the front-matter creation date when
    /// present, else the file modification time.
    pub open spec fn published(self) -> i64 {
        match self.metadata.created {
            Some(t) => t,
            None => self.last_modified,
        }
    }
}

impl Clone for PostEntry {
    fn clone(&self) -> (r: Self)
        ensures
            r@ == self@,
    {
        let r = PostEntry {
            updated: self.updated,
            last_modified: self.last_modified,
            metadata: self.metadata.clone(),
            body: self.body.clone(),
        };
        proof {
            assert(r@ =~= self@);
        }
        r
    }
}

impl PostEntry {
    /// Parses one document: splits off its front-matter block, reads the
    /// metadata from it, and renders the body to HTML.  The parse succeeds
    /// exactly when the document has a front-matter block whose YAML
    /// satisfies the post schema; the entry's metadata is then the parsed
    /// front matter, field by field.  A document without a front-matter
    /// block, or with one that fails schema validation, is a data error —
    /// nothing is installed, so a stale cached entry survives.
    pub fn parse(text: &str, last_modified: i64, now: i64) -> (r: Result<PostEntry, Error>)
        requires
            ts_wf(last_modified),
            ts_wf(now),
        ensures
            r is Ok <==> (fm_present(text@) && (exists|inner: Seq<char>| #[trigger]
                fm_inner(text@, inner) && (yaml_doc_of(inner) matches Some(m) && post_schema_ok(
                    m,
                )))),
            r matches Err(e) ==> e is Data,
            r matches Ok(en) ==> {
                &&& en@.wf()
                &&& en@.updated == now
                &&& en@.last_modified == last_modified
                &&& en@.body == html_of(text@)
                &&& fm_present(text@)
                &&& (exists|inner: Seq<char>| #[trigger] fm_inner(text@, inner) && (yaml_doc_of(
                    inner,
                ) matches Some(m) && {
                    &&& en@.metadata.title == title_of(m)
                    &&& en@.metadata.author == opt_str_of(m, "author"@)
                    &&& en@.metadata.summary == opt_str_of(m, "summary"@)
                    &&& en@.metadata.created == created_of(m)
                    &&& en@.metadata.highlight == bool_of(m, "highlight"@, false)
                    &&& en@.metadata.tags == tags_of(m)
                }))
            },
    {
        let inner = match split_front_matter(text) {
            Some(x) => x,
            None => return Err(Error::Data("missing a YAML preamble".to_owned())),
        };
        let metadata = match Metadata::from_yaml(inner.as_str()) {
            Ok(m) => m,
            Err(e) => {
                proof {
                    assert forall|inn: Seq<char>| #[trigger] fm_inner(text@, inn) implies !(
                    yaml_doc_of(inn) matches Some(m) && post_schema_ok(m)) by {
                        lemma_fm_inner_unique(text@, inn, inner@);
                    }
                }
                return Err(e);
            },
        };
        let body = render_markdown(text);
        proof {
            assert(fm_inner(text@, inner@));
        }
        Ok(PostEntry { updated: now, last_modified, metadata, body })
    }

    /// Parses the index document: as `parse`, but the front matter must
    /// satisfy the index schema; it yields the site-level metadata, which is
    /// returned beside the entry, and the entry's own metadata is derived
    /// from it (with no creation timestamp).
    pub fn parse_index(text: &str, last_modified: i64, now: i64) -> (r: Result<
        (PostEntry, IndexMetadata),
        Error,
    >)
        requires
            ts_wf(last_modified),
            ts_wf(now),
        ensures
            r is Ok <==> (fm_present(text@) && (exists|inner: Seq<char>| #[trigger]
                fm_inner(text@, inner) && (yaml_doc_of(inner) matches Some(m) && index_schema_ok(
                    m,
                )))),
            r matches Err(e) ==> e is Data,
            r matches Ok(p) ==> {
                &&& p.0@.wf()
                &&& p.0@.updated == now
                &&& p.0@.last_modified == last_modified
                &&& p.0@.body == html_of(text@)
                &&& p.0@.metadata.created is None
                &&& fm_present(text@)
                &&& (exists|inner: Seq<char>| #[trigger] fm_inner(text@, inner) && (yaml_doc_of(
                    inner,
                ) matches Some(m) && {
                    &&& p.1@.title == title_of(m)
                    &&& p.1@.short_title == opt_str_of(m, "short_title"@)
                    &&& p.1@.author == opt_str_of(m, "author"@)
                    &&& p.1@.summary == opt_str_of(m, "summary"@)
                    &&& p.1@.highlight == bool_of(m, "highlight"@, false)
                    &&& p.1@.tags == tags_of(m)
                    &&& p.1@.url == url_field_of(m, "url"@)
                    &&& p.1@.twitter == bool_of(m, "twitter"@, false)
                    &&& p.1@.lang == lang_of(m)
                    &&& p.1@.coffee == coffee_of(m)
                    &&& p.0@.metadata.title == title_of(m)
                    &&& p.0@.metadata.author == opt_str_of(m, "author"@)
                    &&& p.0@.metadata.summary == opt_str_of(m, "summary"@)
                    &&& p.0@.metadata.highlight == bool_of(m, "highlight"@, false)
                    &&& p.0@.metadata.tags == tags_of(m)
                }))
            },
    {
        let inner = match split_front_matter(text) {
            Some(x) => x,
            None => return Err(Error::Data("missing a YAML preamble".to_owned())),
        };
        let meta = match IndexMetadata::from_yaml(inner.as_str()) {
            Ok(m) => m,
            Err(e) => {
                proof {
                    assert forall|inn: Seq<char>| #[trigger] fm_inner(text@, inn) implies !(
                    yaml_doc_of(inn) matches Some(m) && index_schema_ok(m)) by {
                        lemma_fm_inner_unique(text@, inn, inner@);
                    }
                }
                return Err(e);
            },
        };
        let body = render_markdown(text);
        let entry = PostEntry {
            updated: now,
            last_modified,
            metadata: Metadata::of_index(&meta),
            body,
        };
        proof {
            assert(fm_inner(text@, inner@));
        }
        Ok((entry, meta))
    }
}

/// An identifier reserved for index-like entries: one that begins with the
/// `/` sentinel, which no ordinary post identifier may.
pub open spec fn is_index_key(k: Seq<char>) -> bool {
    k.len() >= 1 && k[0] == '/'
}

/// The mathematical view of the cache.
#[verifier::ext_equal]
pub ghost struct DbV {
    /// The cached entries by identifier.
    pub posts: Map<Seq<char>, PostEntry>,
    /// The identifiers in insertion order; exactly the map's keys.
    pub order: Seq<Seq<char>>,
    /// The canonical posts directory, fixed at construction.
    pub posts_dir: Seq<char>,
    /// The TTL, in seconds.
    pub ttl: u64,
    /// When the last whole-directory discovery scan ran, advanced too by
    /// index parses to the index file's modification time.
    pub index_updated: i64,
    /// The most recently parsed site metadata.
    pub index_metadata: IndexMetadata,
    /// The channel-level feed fields, derived once per index refresh.
    pub feed_base: crate::feed::FeedChannel,
}

/// The cache's invariant: the TTL fits a `u32`'s worth of seconds, the scan
/// clock and every entry's clocks lie in the supported band, and the
/// insertion order lists exactly the map's keys, each once.
pub open spec fn db_wf(d: DbV) -> bool {
    &&& d.ttl <= 0xffff_ffff
    &&& ts_wf(d.index_updated)
    &&& (forall|k: Seq<char>| #[trigger] d.posts.contains_key(k) ==> d.posts[k]@.wf())
    &&& (forall|i: int| 0 <= i < d.order.len() ==> d.posts.contains_key(#[trigger] d.order[i]))
    &&& (forall|k: Seq<char>| #[trigger] d.posts.contains_key(k) ==> d.order.contains(k))
    &&& (forall|i: int, j: int| 0 <= i < j < d.order.len() ==> d.order[i] != d.order[j])
}

/// The content cache.
pub struct PostDb {
    pub(crate) posts: StringHashMap<PostEntry>,
    pub(crate) ids: Vec<String>,
    pub(crate) posts_dir: String,
    pub(crate) ttl: u64,
    pub(crate) index_updated: i64,
    pub(crate) index_metadata: IndexMetadata,
    pub(crate) feed_base: crate::feed::FeedChannel,
}

impl View for PostDb {
    type V = DbV;

    closed spec fn view(&self) -> DbV {
        DbV {
            posts: self.posts@,
            order: views_of(self.ids@),
            posts_dir: self.posts_dir@,
            ttl: self.ttl,
            index_updated: self.index_updated,
            index_metadata: self.index_metadata,
            feed_base: self.feed_base,
        }
    }
}

/// An owned snapshot of one cached post: its identifier and its entry.
#[derive(Debug)]
pub struct Post {
    pub id: String,
    pub entry: PostEntry,
}

/// A read-only projection of a post for listings: identifier, title, and an
/// optional short summary.
#[derive(Debug, PartialEq)]
pub struct PostMeta {
    pub id: String,
    pub title: String,
    pub summary: Option<String>,
}

/// A read-only projection of a post for rendering: identifier, rendered
/// body, file modification time, and the full metadata.
#[derive(Debug)]
pub struct PostContent {
    pub id: String,
    pub body: String,
    pub last_modified: i64,
    pub metadata: Metadata,
}

impl PostContent {
    /// The publication timestamp: the front-matter creation date when
    /// present, else the file modification time.
    pub fn published(&self) -> (r: i64)
        ensures
            r == (match self.metadata@.created {
                Some(t) => t,
                None => self.last_modified,
            }),
    {
        match &self.metadata.created {
            Some(d) => d.secs,
            None => self.last_modified,
        }
    }
}

impl Post {
    pub fn id(&self) -> (r: &str)
        ensures
            r@ == self.id@,
    {
        self.id.as_str()
    }

    pub fn body(&self) -> (r: &str)
        ensures
            r@ == self.entry.body@,
    {
        self.entry.body.as_str()
    }

    pub fn metadata(&self) -> (r: &Metadata)
        ensures
            r@ == self.entry.metadata@,
    {
        &self.entry.metadata
    }

    /// The publication timestamp: the front-matter creation date when
    /// present, else the file modification time.
    pub fn published(&self) -> (r: i64)
        ensures
            r == self.entry@.published(),
    {
        match &self.entry.metadata.created {
            Some(d) => d.secs,
            None => self.entry.last_modified,
        }
    }

    /// Orders two posts by their publication timestamps.
    pub fn cmp_published(&self, other: &Post) -> (r: core::cmp::Ordering)
        ensures
            (r is Less) == (self.entry@.published() < other.entry@.published()),
            (r is Equal) == (self.entry@.published() == other.entry@.published()),
            (r is Greater) == (self.entry@.published() > other.entry@.published()),
    {
        let a = self.published();
        let b = other.published();
        if a < b {
            core::cmp::Ordering::Less
        } else if a == b {
            core::cmp::Ordering::Equal
        } else {
            core::cmp::Ordering::Greater
        }
    }

    /// The listing projection of this post.
    pub fn to_post_meta(&self) -> (r: PostMeta)
        ensures
            r.id@ == self.id@,
            r.title@ == self.entry.metadata.title@,
            crate::metadata::opt_view(r.summary) == self.entry.metadata@.summary,
    {
        PostMeta {
            id: self.id.clone(),
            title: self.entry.metadata.title.clone(),
            summary: match &self.entry.metadata.summary {
                Some(s) => Some(s.clone()),
                None => None,
            },
        }
    }

    /// The rendering projection of this post.
    pub fn to_post_content(&self) -> (r: PostContent)
        ensures
            r.id@ == self.id@,
            r.body@ == self.entry.body@,
            r.last_modified == self.entry.last_modified,
            r.metadata@ == self.entry.metadata@,
    {
        PostContent {
            id: self.id.clone(),
            body: self.entry.body.clone(),
            last_modified: self.entry.last_modified,
            metadata: self.entry.metadata.clone(),
        }
    }
}

/// The cache's post identifiers, in insertion order, without the index-like
/// entries.
pub open spec fn post_keys(order: Seq<Seq<char>>) -> Seq<Seq<char>> {
    order.filter(|k: Seq<char>| !is_index_key(k))
}

/// Relies on `rand::thread_rng` and `rand::Rng::gen_range`: a uniformly
/// chosen index below `n`.  `gen_range` panics on an empty range, so `n`
/// must be positive.
#[verifier::external_body]
fn pick_index(n: usize) -> (r: usize)
    requires
        n >= 1,
    ensures
        r < n,
{
    rand::Rng::gen_range(&mut rand::thread_rng(), 0..n)
}

impl PostDb {
    pub open spec fn wf(&self) -> bool {
        db_wf(self@)
    }

    /// Creates an empty cache over a canonical posts directory, with a TTL
    /// in seconds.  The scan clock starts at the epoch and the site metadata
    /// at its placeholder value, so the first index refresh fills both.
    pub fn new(posts_dir: String, ttl_seconds: u32) -> (r: PostDb)
        ensures
            r.wf(),
            r@.posts == Map::<Seq<char>, PostEntry>::empty(),
            r@.order == Seq::<Seq<char>>::empty(),
            r@.posts_dir == posts_dir@,
            r@.ttl == ttl_seconds as u64,
            r@.index_updated == 0,
            r@.index_metadata.url@ == "https://unspecified.com"@,
            r@.index_metadata.title@.len() == 0,
            !r@.index_metadata.twitter,
            r@.index_metadata.coffee is None,
    {
        let r = PostDb {
            posts: StringHashMap::new(),
            ids: Vec::new(),
            posts_dir,
            ttl: ttl_seconds as u64,
            index_updated: 0,
            index_metadata: IndexMetadata::default(),
            feed_base: crate::feed::empty_channel(),
        };
        proof {
            assert(views_of(r.ids@) =~= Seq::<Seq<char>>::empty());
        }
        r
    }

    /// Whether an entry is cached under this identifier.
    pub fn contains(&self, id: &str) -> (r: bool)
        ensures
            r == self@.posts.contains_key(id@),
    {
        self.posts.contains_key(id)
    }

    /// An owned snapshot of the entry cached under this identifier.
    pub fn get(&self, id: &str) -> (r: Option<Post>)
        ensures
            match r {
                Some(p) => self@.posts.contains_key(id@) && p.id@ == id@ && p.entry@
                    == self@.posts[id@]@,
                None => !self@.posts.contains_key(id@),
            },
    {
        match self.posts.get(id) {
            Some(e) => Some(Post { id: String::from_str(id), entry: e.clone() }),
            None => None,
        }
    }

    /// The refresh fast path: whether the cached entry was validated against
    /// disk recently enough that `last-checked + ttl` still lies in the
    /// future.  When it does, the caller serves the cached entry and touches
    /// no file.
    pub fn is_fresh(&self, id: &str, now: i64) -> (r: bool)
        requires
            self.wf(),
            ts_wf(now),
        ensures
            r == (self@.posts.contains_key(id@) && self@.posts[id@]@.updated + self@.ttl >= now),
    {
        match self.posts.get(id) {
            Some(e) => e.updated + (self.ttl as i64) >= now,
            None => false,
        }
    }

    /// Records that the backing file for this identifier is missing: the
    /// stale cache entry, if any, is evicted.
    pub fn note_missing(&mut self, id: &str)
        requires
            old(self).wf(),
        ensures
            final(self).wf(),
            final(self)@.posts == old(self)@.posts.remove(id@),
            final(self)@.order == old(self)@.order.remove_value(id@),
            final(self)@.posts_dir == old(self)@.posts_dir,
            final(self)@.ttl == old(self)@.ttl,
            final(self)@.index_updated == old(self)@.index_updated,
            final(self)@.index_metadata == old(self)@.index_metadata,
            final(self)@.feed_base == old(self)@.feed_base,
    {
        proof {
            broadcast use group_seq_properties;

            old(self)@.order.index_of_first_ensures(id@);
        }
        self.posts.remove(id);
        let n = self.ids.len();
        let mut i: usize = 0;
        while i < n
            invariant
                old(self).wf(),
                i <= n,
                n == self.ids@.len(),
                forall|k: int| 0 <= k < i ==> self.ids@[k]@ != id@,
                self.posts@ == old(self)@.posts.remove(id@),
                self.posts_dir == old(self).posts_dir,
                self.ttl == old(self).ttl,
                self.index_updated == old(self).index_updated,
                self.index_metadata == old(self).index_metadata,
                self.feed_base == old(self).feed_base,
                self.ids == old(self).ids,
            decreases n - i,
        {
            if crate::text::str_eq(self.ids[i].as_str(), id) {
                proof {
                    assert(views_of(old(self).ids@)[i as int] == id@);
                    assert(views_of(old(self).ids@).index_of_first(id@) == Some(i as int)) by {
                        views_of(old(self).ids@).index_of_first_ensures(id@);
                        match views_of(old(self).ids@).index_of_first(id@) {
                            Some(f) => {
                                assert(views_of(old(self).ids@)[f] == id@);
                                if f < i as int {
                                    assert(old(self).ids@[f]@ != id@);
                                    assert(views_of(old(self).ids@)[f] == old(self).ids@[f]@);
                                }
                            },
                            None => {
                                assert(views_of(old(self).ids@).contains(id@)) by {
                                    assert(views_of(old(self).ids@)[i as int] == id@);
                                }
                            },
                        }
                    }
                }
                self.ids.remove(i);
                proof {
                    assert(views_of(self.ids@) =~= views_of(old(self).ids@).remove(i as int));
                    assert(self@ =~= (DbV {
                        posts: old(self)@.posts.remove(id@),
                        order: old(self)@.order.remove_value(id@),
                        ..old(self)@
                    }));
                    assert_db_wf_after_remove(old(self)@, self@, id@, i as int);
                }
                return ;
            }
            i += 1;
        }
        proof {
            assert(!views_of(old(self).ids@).contains(id@)) by {
                if views_of(old(self).ids@).contains(id@) {
                    let f = choose|f: int|
                        0 <= f < views_of(old(self).ids@).len() && views_of(old(self).ids@)[f]
                            == id@;
                    assert(old(self).ids@[f]@ != id@);
                }
            }
            assert(old(self)@.order.remove_value(id@) == old(self)@.order);
            assert(self@ =~= (DbV {
                posts: old(self)@.posts.remove(id@),
                order: old(self)@.order,
                ..old(self)@
            }));
            assert(db_wf(self@)) by {
                assert forall|k: Seq<char>| #[trigger]
                    self@.posts.contains_key(k) implies self@.order.contains(k) by {
                    assert(old(self)@.posts.contains_key(k));
                }
            }
        }
    }

    /// Records a disk stat for this identifier.  When the file's
    /// modification time is unchanged since the entry was parsed — it equals
    /// the entry's recorded modification time — only the validation clock is
    /// bumped, avoiding a re-parse, and the step reports true.  Otherwise
    /// (the file is newer, or its time moved backwards) the cache is
    /// untouched and the caller must re-read and re-parse the file.
    pub fn note_stat(&mut self, id: &str, file_modified: i64, now: i64) -> (r: bool)
        requires
            old(self).wf(),
            ts_wf(file_modified),
            ts_wf(now),
        ensures
            final(self).wf(),
            r == (old(self)@.posts.contains_key(id@) && old(self)@.posts[id@]@.last_modified
                == file_modified),
            !r ==> final(self)@ == old(self)@,
            r ==> {
                &&& final(self)@.posts.dom() == old(self)@.posts.dom()
                &&& (forall|k: Seq<char>| #[trigger]
                    old(self)@.posts.contains_key(k) && k != id@ ==> final(self)@.posts[k]
                        == old(self)@.posts[k])
                &&& final(self)@.posts[id@]@ == (PostEntryV {
                    updated: now,
                    ..old(self)@.posts[id@]@
                })
                &&& final(self)@.order == old(self)@.order
                &&& final(self)@.posts_dir == old(self)@.posts_dir
                &&& final(self)@.ttl == old(self)@.ttl
                &&& final(self)@.index_updated == old(self)@.index_updated
                &&& final(self)@.index_metadata == old(self)@.index_metadata
                &&& final(self)@.feed_base == old(self)@.feed_base
            },
    {
        let new_entry = match self.posts.get(id) {
            Some(e) => {
                if e.last_modified == file_modified {
                    PostEntry {
                        updated: now,
                        last_modified: e.last_modified,
                        metadata: e.metadata.clone(),
                        body: e.body.clone(),
                    }
                } else {
                    return false;
                }
            },
            None => {
                return false;
            },
        };
        self.posts.insert(String::from_str(id), new_entry);
        proof {
            assert(final(self)@.posts.dom() =~= old(self)@.posts.dom());
            assert(final(self)@.posts[id@]@ =~= (PostEntryV {
                updated: now,
                ..old(self)@.posts[id@]@
            }));
            assert(db_wf(final(self)@)) by {
                assert forall|k: Seq<char>| #[trigger]
                    final(self)@.posts.contains_key(k) implies final(self)@.posts[k]@.wf() by {
                    assert(old(self)@.posts.contains_key(k));
                    if k != id@ {
                        assert(final(self)@.posts[k] == old(self)@.posts[k]);
                    }
                }
                assert forall|k: Seq<char>| #[trigger]
                    final(self)@.posts.contains_key(k) implies final(self)@.order.contains(k) by {
                    assert(old(self)@.posts.contains_key(k));
                }
            }
        }
        true
    }

    /// Installs a freshly parsed entry under an identifier, replacing any
    /// previous entry atomically: readers see the old entry until this step,
    /// the new one after it.
    pub fn install(&mut self, id: &str, entry: PostEntry)
        requires
            old(self).wf(),
            entry@.wf(),
        ensures
            final(self).wf(),
            final(self)@.posts == old(self)@.posts.insert(id@, entry),
            final(self)@.order == (if old(self)@.posts.contains_key(id@) {
                old(self)@.order
            } else {
                old(self)@.order.push(id@)
            }),
            final(self)@.posts_dir == old(self)@.posts_dir,
            final(self)@.ttl == old(self)@.ttl,
            final(self)@.index_updated == old(self)@.index_updated,
            final(self)@.index_metadata == old(self)@.index_metadata,
            final(self)@.feed_base == old(self)@.feed_base,
    {
        if !self.posts.contains_key(id) {
            self.ids.push(String::from_str(id));
            proof {
                assert(views_of(self.ids@) =~= views_of(old(self).ids@).push(id@));
            }
        }
        self.posts.insert(String::from_str(id), entry);
        proof {
            let pre = old(self)@;
            let post = final(self)@;
            assert(db_wf(post)) by {
                assert forall|k: Seq<char>| #[trigger]
                    post.posts.contains_key(k) implies post.posts[k]@.wf() by {
                    if k != id@ {
                        assert(pre.posts.contains_key(k));
                    }
                }
                if pre.posts.contains_key(id@) {
                    assert forall|k: Seq<char>| #[trigger]
                        post.posts.contains_key(k) implies post.order.contains(k) by {
                        assert(pre.posts.contains_key(k));
                    }
                } else {
                    assert(!pre.order.contains(id@)) by {
                        if pre.order.contains(id@) {
                            let f = choose|f: int|
                                0 <= f < pre.order.len() && pre.order[f] == id@;
                            assert(pre.posts.contains_key(pre.order[f]));
                        }
                    }
                    assert forall|k: Seq<char>| #[trigger]
                        post.posts.contains_key(k) implies post.order.contains(k) by {
                        if k == id@ {
                            assert(post.order[post.order.len() - 1] == id@);
                        } else {
                            assert(pre.posts.contains_key(k));
                            let f = choose|f: int|
                                0 <= f < pre.order.len() && pre.order[f] == k;
                            assert(post.order[f] == k);
                        }
                    }
                    assert forall|i: int, j: int|
                        0 <= i < j < post.order.len() implies post.order[i] != post.order[j] by {
                        if j == post.order.len() - 1 {
                            assert(post.order[j] == id@);
                            assert(pre.posts.contains_key(pre.order[i]));
                        }
                    }
                }
            }
        }
    }

    /// Installs a freshly parsed index entry under the reserved identifier,
    /// records the parsed site metadata, and advances the scan clock to the
    /// index file's modification time when that is later.
    pub fn install_index(&mut self, entry: PostEntry, meta: IndexMetadata)
        requires
            old(self).wf(),
            entry@.wf(),
        ensures
            final(self).wf(),
            final(self)@.posts == old(self)@.posts.insert("/index"@, entry),
            final(self)@.order == (if old(self)@.posts.contains_key("/index"@) {
                old(self)@.order
            } else {
                old(self)@.order.push("/index"@)
            }),
            final(self)@.index_metadata == meta,
            final(self)@.index_updated == (if entry@.last_modified > old(self)@.index_updated {
                entry@.last_modified
            } else {
                old(self)@.index_updated
            }),
            final(self)@.posts_dir == old(self)@.posts_dir,
            final(self)@.ttl == old(self)@.ttl,
            crate::feed::channel_matches(
                final(self)@.feed_base,
                meta,
                final(self)@.index_updated,
                final(self)@.ttl,
                entry@.updated,
            ),
            final(self)@.feed_base.items@.len() == 0,
    {
        let last_modified = entry.last_modified;
        let now = entry.updated;
        self.install("/index", entry);
        if last_modified > self.index_updated {
            self.index_updated = last_modified;
        }
        self.index_metadata = meta;
        proof {
            assert(db_wf(self@));
        }
        self.feed_base = self.make_feed_channel(now);
    }

    /// Whether the whole-directory discovery scan is due: the last scan ran
    /// longer than one TTL ago.
    pub fn scan_due(&self, now: i64) -> (r: bool)
        requires
            self.wf(),
            ts_wf(now),
        ensures
            r == (self@.index_updated + self@.ttl <= now),
    {
        self.index_updated + (self.ttl as i64) <= now
    }

    /// Owned snapshots of every cached post, in insertion order, without the
    /// reserved index entry.
    pub fn all_posts(&self) -> (r: Vec<Post>)
        requires
            self.wf(),
        ensures
            r@.len() == post_keys(self@.order).len(),
            forall|m: int|
                0 <= m < r@.len() ==> (#[trigger] r@[m]).id@ == post_keys(self@.order)[m]
                    && self@.posts.contains_key(post_keys(self@.order)[m]) && r@[m].entry@
                    == self@.posts[post_keys(self@.order)[m]]@,
    {
        let n = self.ids.len();
        let mut out: Vec<Post> = Vec::new();
        let mut i: usize = 0;
        while i < n
            invariant
                self.wf(),
                i <= n,
                n == self.ids@.len(),
                out@.len() == post_keys(views_of(self.ids@).subrange(0, i as int)).len(),
                forall|m: int|
                    0 <= m < out@.len() ==> (#[trigger] out@[m]).id@ == post_keys(
                        views_of(self.ids@).subrange(0, i as int),
                    )[m] && self@.posts.contains_key(
                        post_keys(views_of(self.ids@).subrange(0, i as int))[m],
                    ) && out@[m].entry@ == self@.posts[post_keys(
                        views_of(self.ids@).subrange(0, i as int),
                    )[m]]@,
            decreases n - i,
        {
            proof {
                reveal(Seq::filter);
                assert(views_of(self.ids@).subrange(0, i + 1).drop_last() =~= views_of(
                    self.ids@,
                ).subrange(0, i as int));
                assert(views_of(self.ids@).subrange(0, i + 1).last() == self.ids@[i as int]@);
            }
            let id = &self.ids[i];
            let index_like = id.unicode_len() >= 1 && id.as_str().get_char(0) == '/';
            if !index_like {
                proof {
                    assert(self@.posts.contains_key(self@.order[i as int]));
                }
                match self.posts.get(id.as_str()) {
                    Some(e) => {
                        out.push(Post { id: id.clone(), entry: e.clone() });
                    },
                    None => {
                        proof {
                            assert(false);
                        }
                    },
                }
            }
            i += 1;
        }
        proof {
            assert(views_of(self.ids@).subrange(0, n as int) =~= views_of(self.ids@));
        }
        out
    }

    /// The identifier of a uniformly chosen post, or `None` when the cache
    /// holds no posts (index-like entries do not count).
    pub fn get_random_id(&self) -> (r: Option<String>)
        requires
            self.wf(),
        ensures
            match r {
                Some(s) => self@.posts.contains_key(s@) && !is_index_key(s@),
                None => forall|k: int|
                    0 <= k < self@.order.len() ==> is_index_key(#[trigger] self@.order[k]),
            },
    {
        let n = self.ids.len();
        let mut candidates: Vec<usize> = Vec::new();
        let mut i: usize = 0;
        while i < n
            invariant
                self.wf(),
                i <= n,
                n == self.ids@.len(),
                forall|m: int|
                    0 <= m < candidates@.len() ==> (#[trigger] candidates@[m]) < i && !is_index_key(
                        views_of(self.ids@)[candidates@[m] as int],
                    ),
                candidates@.len() == 0 ==> forall|k: int|
                    0 <= k < i ==> is_index_key(#[trigger] views_of(self.ids@)[k]),
            decreases n - i,
        {
            let id = &self.ids[i];
            let index_like = id.unicode_len() >= 1 && id.as_str().get_char(0) == '/';
            if !index_like {
                candidates.push(i);
            }
            i += 1;
        }
        if candidates.len() == 0 {
            return None;
        }
        let j = pick_index(candidates.len());
        let idx = candidates[j];
        let s = self.ids[idx].clone();
        proof {
            assert(self@.posts.contains_key(self@.order[idx as int]));
        }
        Some(s)
    }

    /// The candidate path for a post identifier: `<posts_dir>/<id>.md`.  The
    /// caller canonicalises it and validates the result.
    pub fn candidate_path(&self, id: &str) -> (r: String)
        ensures
            r@ == self@.posts_dir + "/"@ + id@ + ".md"@,
    {
        let mut p = self.posts_dir.clone();
        p.append("/");
        p.append(id);
        p.append(".md");
        p
    }

    /// Validates a canonical path for a post lookup against the cache's posts
    /// directory; see `paths::validate_post_path`.
    pub fn validate_post_path(&self, path: &str, traverses_symlink: bool) -> (r: Result<
        (),
        Error,
    >)
        ensures
            r is Ok <==> (!traverses_symlink && crate::paths::in_dir(path@, self@.posts_dir)
                && crate::paths::valid_md_file(path@)),
            r matches Err(e) ==> e is InvalidInput,
    {
        crate::paths::validate_post_path(path, self.posts_dir.as_str(), traverses_symlink)
    }

    /// Handles a failed path resolution for an identifier: a missing file
    /// evicts the stale cache entry and is a not-found outcome; any other
    /// failure is structurally invalid input and leaves the cache untouched.
    pub fn note_resolve_error(&mut self, id: &str, not_found: bool) -> (r: Error)
        requires
            old(self).wf(),
        ensures
            final(self).wf(),
            not_found ==> {
                &&& r is NotFound
                &&& final(self)@.posts == old(self)@.posts.remove(id@)
                &&& final(self)@.order == old(self)@.order.remove_value(id@)
                &&& final(self)@.posts_dir == old(self)@.posts_dir
                &&& final(self)@.ttl == old(self)@.ttl
                &&& final(self)@.index_updated == old(self)@.index_updated
                &&& final(self)@.index_metadata == old(self)@.index_metadata
                &&& final(self)@.feed_base == old(self)@.feed_base
            },
            !not_found ==> (r is InvalidInput && final(self)@ == old(self)@),
    {
        if not_found {
            self.note_missing(id);
            Error::NotFound
        } else {
            Error::InvalidInput
        }
    }

    /// Handles a failed file open for an identifier: a missing file evicts
    /// the stale cache entry and is a not-found outcome; any other failure is
    /// an internal error and leaves the cache untouched.
    pub fn note_open_error(&mut self, id: &str, not_found: bool, message: String) -> (r: Error)
        requires
            old(self).wf(),
        ensures
            final(self).wf(),
            not_found ==> {
                &&& r is NotFound
                &&& final(self)@.posts == old(self)@.posts.remove(id@)
                &&& final(self)@.order == old(self)@.order.remove_value(id@)
                &&& final(self)@.posts_dir == old(self)@.posts_dir
                &&& final(self)@.ttl == old(self)@.ttl
                &&& final(self)@.index_updated == old(self)@.index_updated
                &&& final(self)@.index_metadata == old(self)@.index_metadata
                &&& final(self)@.feed_base == old(self)@.feed_base
            },
            !not_found ==> ((r matches Error::Internal(m) && m@ == message@) && final(self)@
                == old(self)@),
    {
        if not_found {
            self.note_missing(id);
            Error::NotFound
        } else {
            Error::Internal(message)
        }
    }

    /// The site title from the most recently parsed index metadata.
    pub fn site_title(&self) -> (r: &str)
        ensures
            r@ == self@.index_metadata.title@,
    {
        self.index_metadata.title.as_str()
    }

    /// The short site title, falling back to the full title.
    pub fn site_title_short(&self) -> (r: &str)
        ensures
            r@ == (match self@.index_metadata.short_title {
                Some(s) => s@,
                None => self@.index_metadata.title@,
            }),
    {
        match &self.index_metadata.short_title {
            Some(s) => s.as_str(),
            None => self.index_metadata.title.as_str(),
        }
    }

    /// The site's canonical base URL.
    pub fn site_url(&self) -> (r: &str)
        ensures
            r@ == self@.index_metadata.url@,
    {
        self.index_metadata.url.as_str()
    }

    /// The optional "support" link.
    pub fn coffee_url(&self) -> (r: Option<&str>)
        ensures
            match r {
                Some(u) => self@.index_metadata.coffee matches Some(c) && u@ == c@,
                None => self@.index_metadata.coffee is None,
            },
    {
        match &self.index_metadata.coffee {
            Some(c) => Some(c.as_str()),
            None => None,
        }
    }

    /// The site's language code.
    pub fn lang(&self) -> (r: &str)
        ensures
            r@ == self@.index_metadata.lang@,
    {
        self.index_metadata.lang.as_str()
    }

    /// The site's optional summary.
    pub fn site_summary(&self) -> (r: Option<&str>)
        ensures
            match r {
                Some(s) => self@.index_metadata.summary matches Some(v) && s@ == v@,
                None => self@.index_metadata.summary is None,
            },
    {
        match &self.index_metadata.summary {
            Some(s) => Some(s.as_str()),
            None => None,
        }
    }

    /// The cache's TTL, in seconds.
    pub fn ttl(&self) -> (r: u64)
        ensures
            r == self@.ttl,
    {
        self.ttl
    }

    /// The canonical posts directory.
    pub fn posts_dir(&self) -> (r: &str)
        ensures
            r@ == self@.posts_dir,
    {
        self.posts_dir.as_str()
    }

    /// The cached channel-level feed fields.
    pub(crate) fn feed_base_ref(&self) -> (r: &crate::feed::FeedChannel)
        ensures
            *r == self@.feed_base,
    {
        &self.feed_base
    }

    /// The last time any file in the cache was seen modified (also the scan
    /// clock).
    pub fn index_updated(&self) -> (r: i64)
        ensures
            r == self@.index_updated,
    {
        self.index_updated
    }

    /// The sharing link for a post, built from the site metadata.
    pub fn twitter_link(&self, id: &str) -> (r: Result<Option<String>, Error>)
        ensures
            (match crate::urlutil::with_path_of(self@.index_metadata.url@, "p/"@ + id@) {
                Some(u) => if self@.index_metadata.twitter {
                    r matches Ok(Some(l)) && l@ == u
                } else {
                    r matches Ok(l) && l is None
                },
                None => r matches Err(e) && e is Internal,
            }),
    {
        self.index_metadata.twitter_link(id)
    }

    /// The permalink of a post: the site URL with `p/<id>` appended.
    pub fn post_url(&self, post: &Post) -> (r: Option<String>)
        ensures
            match r {
                Some(u) => crate::urlutil::with_segments_of(
                    self@.index_metadata.url@,
                    "p"@,
                    post.id@,
                ) == Some(u@),
                None => crate::urlutil::with_segments_of(
                    self@.index_metadata.url@,
                    "p"@,
                    post.id@,
                ) is None,
            },
    {
        crate::urlutil::url_with_segments(self.index_metadata.url.as_str(), "p", post.id.as_str())
    }

    /// Records that a complete, successful directory listing just finished.
    pub fn mark_scanned(&mut self, now: i64)
        requires
            old(self).wf(),
            ts_wf(now),
        ensures
            final(self).wf(),
            final(self)@.index_updated == now,
            final(self)@.posts == old(self)@.posts,
            final(self)@.order == old(self)@.order,
            final(self)@.posts_dir == old(self)@.posts_dir,
            final(self)@.ttl == old(self)@.ttl,
            final(self)@.index_metadata == old(self)@.index_metadata,
            final(self)@.feed_base == old(self)@.feed_base,
    {
        self.index_updated = now;
        proof {
            assert(self@ =~= (DbV { index_updated: now, ..old(self)@ }));
            assert(db_wf(self@));
        }
    }
}

/// Whether a directory entry's name belongs to a discoverable post: a
/// markdown file that is not a dotfile.  Yields the post identifier — the
/// filename stem — when it does.
pub fn scan_candidate(name: &str) -> (r: Option<String>)
    ensures
        match r {
            Some(st) => name@.len() >= 1 && name@[0] != '.' && (exists|q: int| #[trigger]
                crate::paths::md_ext_at(name@, 0, q) && st@ == name@.subrange(0, q)),
            None => name@.len() == 0 || name@[0] == '.' || !(exists|q: int|
                crate::paths::md_ext_at(name@, 0, q)),
        },
{
    proof {
        reveal_strlit("md");
    }
    let len = name.unicode_len();
    if len == 0 {
        return None;
    }
    if name.get_char(0) == '.' {
        return None;
    }
    match crate::paths::rfind_char(name, '.') {
        Some(q) => {
            if q > 0 && len - (q + 1) == 2 && crate::text::match_at_exec(name, "md", q + 1, len, 2)
            {
                proof {
                    assert(name@.subrange(q + 1, name@.len() as int) =~= "md"@);
                    assert(crate::paths::md_ext_at(name@, 0, q as int));
                }
                let stem = name.substring_char(0, q);
                Some(String::from_str(stem))
            } else {
                proof {
                    assert forall|qq: int| !crate::paths::md_ext_at(name@, 0, qq) by {
                        if qq < q {
                            assert(name@[q as int] == '.');
                        } else if qq == q {
                            if q > 0 && name@.subrange(q + 1, name@.len() as int) == "md"@ {
                                assert(name@.subrange(q + 1, name@.len() as int).len() == 2);
                                assert(name@[q + 1] == name@.subrange(
                                    q + 1,
                                    name@.len() as int,
                                )[0]);
                                assert(name@[q + 2] == name@.subrange(
                                    q + 1,
                                    name@.len() as int,
                                )[1]);
                                assert(crate::text::matches_at(name@, "md"@, q + 1));
                            }
                        }
                    }
                }
                None
            }
        },
        None => {
            proof {
                assert forall|qq: int| !crate::paths::md_ext_at(name@, 0, qq) by {
                    if 0 < qq < name@.len() {
                        assert(name@[qq] != '.');
                    }
                }
            }
            None
        },
    }
}

/// Refresh-one is idempotent within the TTL window: once a refresh step has
/// validated an entry at time `t` — a stat that bumped the validation clock,
/// or an install — any further refresh attempt at a time within `t + ttl`
/// satisfies the fast-path condition that `is_fresh` decides, so the second
/// call performs no disk stat and no re-parse.
pub proof fn lemma_refresh_idempotent(d: DbV, id: Seq<char>, t: i64, now: i64)
    requires
        db_wf(d),
        d.posts.contains_key(id),
        d.posts[id]@.updated == t,
        now <= t + d.ttl,
    ensures
        d.posts.contains_key(id) && d.posts[id]@.updated + d.ttl >= now,
{
}

/// Removing one identifier keeps the cache invariant.
proof fn assert_db_wf_after_remove(pre: DbV, post: DbV, id: Seq<char>, i: int)
    requires
        db_wf(pre),
        0 <= i < pre.order.len(),
        pre.order[i] == id,
        post.posts == pre.posts.remove(id),
        post.order == pre.order.remove(i),
        post.ttl == pre.ttl,
        post.index_updated == pre.index_updated,
    ensures
        db_wf(post),
{
    assert forall|k: int| 0 <= k < post.order.len() implies post.posts.contains_key(
        #[trigger] post.order[k],
    ) by {
        if k < i {
            assert(post.order[k] == pre.order[k]);
            assert(pre.order[k] != id);
        } else {
            assert(post.order[k] == pre.order[k + 1]);
            assert(pre.order[k + 1] != id);
        }
    }
    assert forall|k: Seq<char>| #[trigger] post.posts.contains_key(k) implies post.order.contains(
        k,
    ) by {
        assert(pre.posts.contains_key(k));
        let f = choose|f: int| 0 <= f < pre.order.len() && pre.order[f] == k;
        if f < i {
            assert(post.order[f] == k);
        } else if f > i {
            assert(post.order[f - 1] == k);
        } else {
            assert(k == id);
        }
    }
    assert forall|a: int, b: int| 0 <= a < b < post.order.len() implies post.order[a]
        != post.order[b] by {
        let pa = if a < i {
            a
        } else {
            a + 1
        };
        let pb = if b < i {
            b
        } else {
            b + 1
        };
        assert(post.order[a] == pre.order[pa]);
        assert(post.order[b] == pre.order[pb]);
    }
}

} // verus!
