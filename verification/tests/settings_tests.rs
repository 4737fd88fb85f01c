//! The command-line model and the metadata descriptors.

use mdblog::error::Error;
use mdblog::metadata::{Blog, IndexMetadata, Metadata};
use mdblog::settings::{Action, Generate, Init, LogLevel, RssContent, Serve, What};

#[test]
fn action_log_level() {
    let serve = Action::Serve(Serve {
        directory: None,
        address: "127.0.0.1:4198".to_owned(),
        cache_ttl: 300,
        index_page_len: 10,
        log_level: LogLevel::Warn,
        rss_content: RssContent::SupportsDeltas,
    });
    assert_eq!(serve.log_level(), LogLevel::Warn);
    let init = Action::Init(Init { log_level: LogLevel::Debug });
    assert_eq!(init.log_level(), LogLevel::Debug);
    let generate = Action::Generate(Generate {
        log_level: LogLevel::Info,
        what: What::Post { id: "x".to_owned() },
    });
    assert_eq!(generate.log_level(), LogLevel::Info);
}

#[test]
fn generated_post_path() {
    assert_eq!(
        Generate::generate_post_path("my-first-post"),
        Ok("posts/my-first-post.md".to_owned())
    );
    assert_eq!(Generate::generate_post_path("bad id"), Err(Error::InvalidInput));
    assert_eq!(Generate::generate_post_path("../evil"), Err(Error::InvalidInput));
}

#[test]
fn blog_descriptor() {
    let blog = Blog::from_yaml("url: https://example.com\ntwitter: true\n").expect("parses");
    assert_eq!(blog.url, "https://example.com");
    assert!(blog.twitter);
    let link = blog.twitter_link("hello").expect("url parses");
    assert_eq!(link.as_deref(), Some("https://example.com/p/hello"));

    let quiet = Blog::from_yaml("url: https://example.com\n").expect("parses");
    assert!(!quiet.twitter);
    assert_eq!(quiet.twitter_link("hello").expect("url parses"), None);

    let broken = Blog { url: "not a url".to_owned(), twitter: true };
    assert!(matches!(broken.twitter_link("x"), Err(Error::Internal(_))));

    assert!(matches!(Blog::from_yaml("twitter: true\n"), Err(Error::Data(_))));
}

#[test]
fn index_metadata_schema() {
    let meta = IndexMetadata::from_yaml(
        "title: T\nurl: https://example.com\ncoffee: https://coffee.example\n",
    )
    .expect("parses");
    assert_eq!(meta.url, "https://example.com/");
    assert_eq!(meta.coffee.as_deref(), Some("https://coffee.example/"));
    // lang defaults
    assert_eq!(meta.lang, "en_US");
    assert!(!meta.twitter);

    // url is required
    assert!(matches!(IndexMetadata::from_yaml("title: T\n"), Err(Error::Data(_))));
    // and must be a hierarchical base URL
    assert!(matches!(
        IndexMetadata::from_yaml("title: T\nurl: mailto:a@b\n"),
        Err(Error::Data(_))
    ));
    assert!(matches!(
        IndexMetadata::from_yaml("title: T\nurl: 17\n"),
        Err(Error::Data(_))
    ));
}

#[test]
fn post_metadata_schema() {
    let meta = Metadata::from_yaml("title: T\n").expect("parses");
    assert_eq!(meta.title, "T");
    assert!(meta.author.is_none());
    assert!(meta.summary.is_none());
    assert!(meta.created.is_none());
    assert!(!meta.highlight);
    assert!(meta.tags.is_empty());

    let full = Metadata::from_yaml(
        "title: T\nauthor: A\nsummary: S\nhighlight: true\ntags:\n  - x\n",
    )
    .expect("parses");
    assert_eq!(full.author.as_deref(), Some("A"));
    assert!(full.highlight);
    assert_eq!(full.tags, vec!["x".to_owned()]);

    // explicit nulls count as absent for the optional strings
    let nulled = Metadata::from_yaml("title: T\nauthor:\nsummary: ~\n").expect("parses");
    assert!(nulled.author.is_none());
    assert!(nulled.summary.is_none());

    // wrong field types are data errors
    assert!(matches!(Metadata::from_yaml("title: [1, 2]\n"), Err(Error::Data(_))));
    assert!(matches!(Metadata::from_yaml("title: T\nhighlight: 3\n"), Err(Error::Data(_))));
    assert!(matches!(Metadata::from_yaml("title: T\ntags: 3\n"), Err(Error::Data(_))));
    assert!(matches!(Metadata::from_yaml("title: T\ntags:\n  - {}\n"), Err(Error::Data(_))));
}

#[test]
fn metadata_of_index() {
    let idx = IndexMetadata::from_yaml("title: T\nsummary: S\nurl: https://example.com\n")
        .expect("parses");
    let meta = Metadata::of_index(&idx);
    assert_eq!(meta.title, "T");
    assert_eq!(meta.summary.as_deref(), Some("S"));
    assert!(meta.created.is_none());
}
