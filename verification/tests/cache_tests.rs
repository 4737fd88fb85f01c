//! The content cache: parsing documents, the TTL-driven refresh steps, and
//! eviction.

use mdblog::db::{PostDb, PostEntry};
use mdblog::error::Error;
use mdblog::headers::RequestHeaders;
use mdblog::metadata::Metadata;
use mdblog::time::MyDateTime;

const POST_TEXT: &str = "---\ntitle: Hello\nsummary: Hi there\ncreated: 28 Aug 2023 18:00:00 +0500\ntags:\n  - a\n  - b\n---\n# Heading\n\nBody text\n";

const INDEX_TEXT: &str = "---\ntitle: My Blog\nshort_title: Blog\nsummary: A test blog\nurl: https://example.com\ntwitter: true\nlang: en_US\n---\nWelcome!\n";

fn sample_metadata(created: Option<i64>) -> Metadata {
    Metadata {
        title: "T".to_owned(),
        author: None,
        summary: None,
        created: created.map(|secs| MyDateTime { secs }),
        highlight: false,
        tags: Vec::new(),
    }
}

fn sample_entry(updated: i64, last_modified: i64, created: Option<i64>) -> PostEntry {
    PostEntry {
        updated,
        last_modified,
        metadata: sample_metadata(created),
        body: "<p>b</p>".to_owned(),
    }
}

#[test]
fn parse_extracts_metadata_and_renders_body() {
    let entry = PostEntry::parse(POST_TEXT, 1000, 2000).expect("should parse");
    assert_eq!(entry.metadata.title, "Hello");
    assert_eq!(entry.metadata.summary.as_deref(), Some("Hi there"));
    assert_eq!(entry.metadata.created.unwrap().secs, 1693227600);
    assert_eq!(entry.metadata.tags, vec!["a".to_owned(), "b".to_owned()]);
    assert!(!entry.metadata.highlight);
    assert_eq!(entry.updated, 2000);
    assert_eq!(entry.last_modified, 1000);
    assert!(entry.body.contains("<h1"));
    assert!(entry.body.contains("Body text"));
    // the front matter must not leak into the rendered body
    assert!(!entry.body.contains("title: Hello"));
}

#[test]
fn parse_without_front_matter_is_a_data_error() {
    let r = PostEntry::parse("# Just a heading\n", 0, 0);
    assert!(matches!(r, Err(Error::Data(_))));
}

#[test]
fn parse_with_bad_yaml_is_a_data_error() {
    let r = PostEntry::parse("---\n:\n  - ::\n---\nbody\n", 0, 0);
    assert!(matches!(r, Err(Error::Data(_))));
    // schema failure: title missing
    let r = PostEntry::parse("---\nsummary: x\n---\nbody\n", 0, 0);
    assert!(matches!(r, Err(Error::Data(_))));
    // schema failure: bad created value
    let r = PostEntry::parse("---\ntitle: x\ncreated: tomorrow\n---\nbody\n", 0, 0);
    assert!(matches!(r, Err(Error::Data(_))));
}

#[test]
fn parse_index_extracts_site_metadata() {
    let (entry, meta) = PostEntry::parse_index(INDEX_TEXT, 500, 600).expect("should parse");
    assert_eq!(meta.title, "My Blog");
    assert_eq!(meta.short_title.as_deref(), Some("Blog"));
    // the URL is normalised at parse time
    assert_eq!(meta.url, "https://example.com/");
    assert!(meta.twitter);
    assert_eq!(meta.lang, "en_US");
    assert_eq!(entry.metadata.title, "My Blog");
    assert!(entry.metadata.created.is_none());
    assert!(entry.body.contains("Welcome!"));
}

// Within the TTL window the cached entry is served without touching disk;
// past it, a stat is due.
#[test]
fn ttl_freshness_window() {
    let mut db = PostDb::new("/srv/posts".to_owned(), 300);
    db.install("hello", sample_entry(1000, 900, None));
    assert!(db.is_fresh("hello", 1200));
    assert!(db.is_fresh("hello", 1300));
    assert!(!db.is_fresh("hello", 1301));
    assert!(!db.is_fresh("missing", 1200));
}

// An unchanged file only bumps the validation clock: no re-parse, and the
// next refresh within the TTL takes the fast path again.
#[test]
fn refresh_is_idempotent_within_ttl() {
    let mut db = PostDb::new("/srv/posts".to_owned(), 300);
    db.install("hello", sample_entry(1000, 900, None));
    // past the TTL: a stat is due
    assert!(!db.is_fresh("hello", 1400));
    // the file is unchanged since the entry was parsed
    assert!(db.note_stat("hello", 900, 1400));
    // the entry was revalidated, not replaced
    let p = db.get("hello").expect("still cached");
    assert_eq!(p.entry.updated, 1400);
    assert_eq!(p.entry.last_modified, 900);
    // a second refresh within the TTL performs no stat at all
    assert!(db.is_fresh("hello", 1500));
}

#[test]
fn changed_file_needs_a_reparse() {
    let mut db = PostDb::new("/srv/posts".to_owned(), 300);
    db.install("hello", sample_entry(1000, 900, None));
    // the file is newer than the entry: note_stat refuses the shortcut
    assert!(!db.note_stat("hello", 1100, 1400));
    // a modification time that moved backwards is a change too
    assert!(!db.note_stat("hello", 800, 1400));
    // and the cache is untouched until a new entry is installed
    let p = db.get("hello").expect("still cached");
    assert_eq!(p.entry.updated, 1000);
}

#[test]
fn missing_file_evicts() {
    let mut db = PostDb::new("/srv/posts".to_owned(), 300);
    db.install("hello", sample_entry(1000, 900, None));
    assert!(db.get("hello").is_some());
    db.note_missing("hello");
    assert!(db.get("hello").is_none());
    assert!(db.all_posts().is_empty());
}

#[test]
fn resolve_and_open_errors() {
    let mut db = PostDb::new("/srv/posts".to_owned(), 300);
    db.install("hello", sample_entry(1000, 900, None));
    let e = db.note_resolve_error("hello", false);
    assert_eq!(e, Error::InvalidInput);
    assert!(db.get("hello").is_some());
    let e = db.note_open_error("hello", false, "disk on fire".to_owned());
    assert_eq!(e, Error::Internal("disk on fire".to_owned()));
    assert!(db.get("hello").is_some());
    let e = db.note_resolve_error("hello", true);
    assert_eq!(e, Error::NotFound);
    assert!(db.get("hello").is_none());
}

#[test]
fn directory_scan_clock() {
    let mut db = PostDb::new("/srv/posts".to_owned(), 300);
    assert!(db.scan_due(300));
    db.mark_scanned(1000);
    assert!(!db.scan_due(1200));
    assert!(db.scan_due(1300));
    assert_eq!(db.index_updated(), 1000);
}

#[test]
fn install_index_updates_site_state() {
    let mut db = PostDb::new("/srv/posts".to_owned(), 300);
    let (entry, meta) = PostEntry::parse_index(INDEX_TEXT, 500, 600).expect("should parse");
    db.install_index(entry, meta);
    assert_eq!(db.site_title(), "My Blog");
    assert_eq!(db.site_title_short(), "Blog");
    assert_eq!(db.site_url(), "https://example.com/");
    assert_eq!(db.lang(), "en_US");
    assert_eq!(db.site_summary(), Some("A test blog"));
    assert_eq!(db.index_updated(), 500);
    // the reserved index identifier does not appear among the posts
    assert!(db.all_posts().is_empty());
    assert!(db.get_random_id().is_none());
    // the sharing link goes through the normalised site URL
    let link = db.twitter_link("hello").expect("site url is valid");
    assert_eq!(link.as_deref(), Some("https://example.com/p/hello"));
}

#[test]
fn random_id_is_a_cached_post() {
    let mut db = PostDb::new("/srv/posts".to_owned(), 300);
    assert!(db.get_random_id().is_none());
    db.install("aa", sample_entry(0, 0, None));
    db.install("bb", sample_entry(0, 0, None));
    let id = db.get_random_id().expect("has posts");
    assert!(id == "aa" || id == "bb");
}

#[test]
fn candidate_path_shape() {
    let db = PostDb::new("/srv/posts".to_owned(), 300);
    assert_eq!(db.candidate_path("hello"), "/srv/posts/hello.md");
}

// End-to-end at the library level: a valid document serves, its removal
// yields not-found, and a future If-Modified-Since yields a 304 decision.
#[test]
fn post_lifecycle_scenario() {
    let mut db = PostDb::new("/srv/posts".to_owned(), 300);
    let entry = PostEntry::parse(POST_TEXT, 1693227600, 1693227700).expect("should parse");
    db.install("hello", entry);

    let post = db.get("hello").expect("served");
    let content = post.to_post_content();
    assert!(content.body.contains("Body text"));
    assert_eq!(content.last_modified, 1693227600);

    // a client whose copy is from the future sees 304
    let h = RequestHeaders::from_raw(
        Some("Fri, 01 Jan 2100 00:00:00 +0000".to_owned()),
        None,
        None,
    );
    assert!(h.is_cache_valid(content.last_modified));

    // the file disappears: the entry is evicted and the lookup 404s
    db.note_missing("hello");
    assert!(db.get("hello").is_none());
}

#[test]
fn projections_carry_the_entry() {
    let mut db = PostDb::new("/srv/posts".to_owned(), 300);
    let entry = PostEntry::parse(POST_TEXT, 1000, 2000).expect("should parse");
    db.install("hello", entry);
    let p = db.get("hello").unwrap();
    let meta = p.to_post_meta();
    assert_eq!(meta.id, "hello");
    assert_eq!(meta.title, "Hello");
    assert_eq!(meta.summary.as_deref(), Some("Hi there"));
    // published comes from the front-matter date when present
    assert_eq!(p.published(), 1693227600);
    let no_date = mdblog::db::Post {
        id: "x".to_owned(),
        entry: sample_entry(1, 7777, None),
    };
    assert_eq!(no_date.published(), 7777);
    assert_eq!(
        p.cmp_published(&no_date),
        std::cmp::Ordering::Greater
    );
}
