//! Request routing, public-path policy, crawler rejection, and feed delta
//! parameters.

use mdblog::routes::{
    feed_params, is_stupid_bot, public_path_is_suspicious, public_request_denied, route, Route,
};
use mdblog::settings::RssContent;

#[test]
fn routing_table() {
    assert!(matches!(route("GET", "/"), Route::Index));
    assert!(matches!(route("GET", "/rss"), Route::Rss));
    assert!(matches!(route("GET", "/archive"), Route::Archive));
    assert!(matches!(route("GET", "/archive/2"), Route::Archive));
    assert!(matches!(route("GET", "/random"), Route::Random));
    assert!(matches!(route("GET", "/robots.txt"), Route::Robots));
    assert!(matches!(route("GET", "/ROBOTS.TXT"), Route::Robots));
    assert!(matches!(route("GET", "/nope"), Route::NotFound));
    assert!(matches!(route("POST", "/"), Route::NotFound));
    assert!(matches!(route("HEAD", "/rss"), Route::NotFound));
}

#[test]
fn post_route_extracts_and_sanitises_the_id() {
    match route("GET", "/p/hello") {
        Route::Post(id) => assert_eq!(id, "hello"),
        _ => panic!("expected a post route"),
    }
    // dots are stripped before lookup
    match route("GET", "/p/he..llo") {
        Route::Post(id) => assert_eq!(id, "hello"),
        _ => panic!("expected a post route"),
    }
    // only the third segment names the post
    match route("GET", "/p/a/b") {
        Route::Post(id) => assert_eq!(id, "a"),
        _ => panic!("expected a post route"),
    }
    match route("GET", "/p/") {
        Route::Post(id) => assert_eq!(id, ""),
        _ => panic!("expected a post route"),
    }
}

#[test]
fn public_route_carries_the_subpath() {
    match route("GET", "/public/styles.css") {
        Route::Public(sub) => assert_eq!(sub, "styles.css"),
        _ => panic!("expected a public route"),
    }
}

// A public request whose path climbs out of the public directory, or names
// a dotfile, is refused — never served.
#[test]
fn traversal_and_dotfiles_are_suspicious() {
    match route("GET", "/public/../../index.md") {
        Route::Public(sub) => {
            assert_eq!(sub, "../../index.md");
            assert!(public_path_is_suspicious(&sub));
        },
        _ => panic!("expected a public route"),
    }
    assert!(public_path_is_suspicious(".hidden/x.css"));
    assert!(public_path_is_suspicious("css/.hidden.css"));
    assert!(public_path_is_suspicious(".."));
}

#[test]
fn symlinked_public_paths_are_denied() {
    // a clean path reached through a symlink is still refused
    assert!(public_request_denied("styles.css", true));
    assert!(!public_request_denied("styles.css", false));
    // a suspicious path is refused whatever the symlink flag says
    assert!(public_request_denied("../../index.md", false));
}

#[test]
fn key_like_names_are_suspicious() {
    assert!(public_path_is_suspicious("keys/server.pem"));
    assert!(public_path_is_suspicious("id_rsa"));
    assert!(public_path_is_suspicious("backup/id_rsa.old"));
}

#[test]
fn ordinary_assets_are_served() {
    assert!(!public_path_is_suspicious("styles.css"));
    assert!(!public_path_is_suspicious("css/site/styles.css"));
    assert!(!public_path_is_suspicious("favicon.png"));
    assert!(!public_path_is_suspicious("pem/x.css"));
}

#[test]
fn crawler_user_agents_are_turned_away() {
    let uas = vec!["Mozilla/5.0 GPTBot/1.0".to_owned()];
    assert!(is_stupid_bot(&uas));
    let uas = vec!["curl/8.0".to_owned(), "ClaudeBot".to_owned()];
    assert!(is_stupid_bot(&uas));
    let uas = vec!["ImageSift/2".to_owned()];
    assert!(is_stupid_bot(&uas));
    let uas = vec!["Mozilla/5.0 (X11; Linux)".to_owned()];
    assert!(!is_stupid_bot(&uas));
    let uas: Vec<String> = Vec::new();
    assert!(!is_stupid_bot(&uas));
}

#[test]
fn feed_delta_parameters() {
    let t = Some(42i64);
    // a client without delta support gets no since-filtering and always
    // receives full content
    assert_eq!(feed_params(RssContent::SupportsDeltas, false, t), (None, true));
    // a delta-capable client gets the since filter and the trimmed form
    assert_eq!(feed_params(RssContent::SupportsDeltas, true, t), (t, false));
    assert_eq!(feed_params(RssContent::Never, true, t), (t, false));
    assert_eq!(feed_params(RssContent::Always, false, t), (None, true));
}
