//! The feed builder: ordering, delta filtering, truncation, escaping, and
//! the channel-level fields.

use mdblog::db::{PostDb, PostEntry};
use mdblog::feed::render_base_part;
use mdblog::metadata::Metadata;
use mdblog::time::MyDateTime;

const INDEX_TEXT: &str = "---\ntitle: My Blog\nsummary: A test blog\nurl: https://example.com\nlang: en_US\n---\nWelcome!\n";

const T1: i64 = 1000;
const T2: i64 = 2000;
const T3: i64 = 3000;

fn entry_with(title: &str, summary: Option<&str>, created: i64) -> PostEntry {
    PostEntry {
        updated: 0,
        last_modified: 0,
        metadata: Metadata {
            title: title.to_owned(),
            author: None,
            summary: summary.map(|s| s.to_owned()),
            created: Some(MyDateTime { secs: created }),
            highlight: false,
            tags: Vec::new(),
        },
        body: "<p>body</p>".to_owned(),
    }
}

fn three_post_db() -> PostDb {
    let mut db = PostDb::new("/srv/posts".to_owned(), 300);
    let (entry, meta) = PostEntry::parse_index(INDEX_TEXT, 500, 600).expect("index parses");
    db.install_index(entry, meta);
    db.install("one", entry_with("One", None, T1));
    db.install("two", entry_with("Two", None, T2));
    db.install("three", entry_with("Three", None, T3));
    db
}

// Feed ordering: three posts with published timestamps T1 < T2 < T3 come
// back newest first.
#[test]
fn feed_is_ordered_newest_first() {
    let db = three_post_db();
    let feed = db.get_rss(None, false, 25);
    let titles: Vec<&str> = feed.items.iter().map(|i| i.title.as_str()).collect();
    assert_eq!(titles, vec!["Three", "Two", "One"]);
}

// Delta filtering: with since = T2, only items published at or after T2
// remain, still newest first.
#[test]
fn feed_since_filters_older_items() {
    let db = three_post_db();
    let feed = db.get_rss(Some(T2), false, 25);
    let titles: Vec<&str> = feed.items.iter().map(|i| i.title.as_str()).collect();
    assert_eq!(titles, vec!["Three", "Two"]);
}

#[test]
fn feed_truncates_to_max() {
    let db = three_post_db();
    let feed = db.get_rss(None, false, 2);
    let titles: Vec<&str> = feed.items.iter().map(|i| i.title.as_str()).collect();
    assert_eq!(titles, vec!["Three", "Two"]);
    let feed = db.get_rss(None, false, 0);
    assert!(feed.items.is_empty());
}

#[test]
fn item_fields() {
    let mut db = PostDb::new("/srv/posts".to_owned(), 300);
    let (entry, meta) = PostEntry::parse_index(INDEX_TEXT, 500, 600).expect("index parses");
    db.install_index(entry, meta);
    db.install("hello", entry_with("A & B", Some("x < y"), T1));
    let feed = db.get_rss(None, true, 25);
    assert_eq!(feed.items.len(), 1);
    let item = &feed.items[0];
    // XML escaping of title and summary
    assert_eq!(item.title, "A &amp; B");
    assert_eq!(item.description.as_deref(), Some("x &lt; y"));
    // permalink-style identifier from the site URL
    assert_eq!(item.link, "https://example.com/p/hello");
    assert_eq!(item.guid, item.link);
    assert!(item.guid_permalink);
    assert_eq!(item.pub_date.as_deref(), Some("Thu, 1 Jan 1970 00:16:40 +0000"));
    // full content carries the base-URL declaration plus the body
    let content = item.content.as_deref().expect("content included");
    assert!(content.starts_with("<base href="));
    assert!(content.ends_with("<p>body</p>"));
}

#[test]
fn content_only_when_asked() {
    let db = three_post_db();
    let feed = db.get_rss(None, false, 25);
    assert!(feed.items.iter().all(|i| i.content.is_none()));
    let feed = db.get_rss(None, true, 25);
    assert!(feed.items.iter().all(|i| i.content.is_some()));
}

#[test]
fn channel_fields() {
    let db = three_post_db();
    let feed = db.get_rss(None, false, 25);
    assert_eq!(feed.title, "My Blog");
    assert_eq!(feed.link, "https://example.com/");
    assert_eq!(feed.language, "en_US");
    assert_eq!(feed.description.as_deref(), Some("A test blog"));
    // index mtime 500 is the last-build clock
    assert_eq!(feed.last_build_date, "Thu, 1 Jan 1970 00:08:20 +0000");
    // ttl 300 s rounds up to 5 minutes (the floor)
    assert_eq!(feed.ttl_minutes, 5);
    assert_eq!(feed.image_url.as_deref(), Some("https://example.com/public/favicon.png"));
    assert_eq!(feed.image_title, "My Blog");
    assert_eq!(feed.image_link, "https://example.com/");
    assert_eq!(feed.self_link.as_deref(), Some("https://example.com/rss"));
}

#[test]
fn ttl_minutes_rounding() {
    let mut db = PostDb::new("/srv/posts".to_owned(), 601);
    let (entry, meta) = PostEntry::parse_index(INDEX_TEXT, 500, 600).expect("index parses");
    db.install_index(entry, meta);
    let feed = db.get_rss(None, false, 25);
    // (601 + 59) / 60 = 11 minutes
    assert_eq!(feed.ttl_minutes, 11);
}

#[test]
fn recent_posts_listing() {
    let db = three_post_db();
    let posts = db.recent_posts(25);
    let titles: Vec<&str> = posts.iter().map(|p| p.title.as_str()).collect();
    assert_eq!(titles, vec!["Three", "Two", "One"]);
    assert_eq!(posts[0].id, "three");
    let posts = db.recent_posts(2);
    assert_eq!(posts.len(), 2);
    assert_eq!(posts[0].title, "Three");
}

#[test]
fn base_part_escapes_the_url() {
    // would fail if the attribute encoder handed its argument back unchanged
    let part = render_base_part("https://example.com/a<b");
    assert!(part.starts_with("<base href="));
    assert!(!part.contains("a<b"));
    assert_eq!(render_base_part("x"), "<base href=\"x\" />");
}

#[test]
fn published_falls_back_to_mtime_in_feed_order() {
    let mut db = PostDb::new("/srv/posts".to_owned(), 300);
    let (entry, meta) = PostEntry::parse_index(INDEX_TEXT, 500, 600).expect("index parses");
    db.install_index(entry, meta);
    // no created date: the file mtime orders the post
    let mut undated = entry_with("Old", None, 0);
    undated.metadata.created = None;
    undated.last_modified = T1;
    db.install("old", undated);
    db.install("new", entry_with("New", None, T2));
    let feed = db.get_rss(None, false, 25);
    let titles: Vec<&str> = feed.items.iter().map(|i| i.title.as_str()).collect();
    assert_eq!(titles, vec!["New", "Old"]);
    // and the since filter sees the fallback timestamp too
    let feed = db.get_rss(Some(T1), false, 25);
    assert_eq!(feed.items.len(), 2);
    let feed = db.get_rss(Some(T1 + 1), false, 25);
    assert_eq!(feed.items.len(), 1);
}
