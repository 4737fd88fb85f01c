//! The path validator: identifier characters, directory containment, symlink
//! rejection, and discovery-scan filename filtering.

use mdblog::db::scan_candidate;
use mdblog::error::Error;
use mdblog::paths::{check_md_file, validate_id, validate_post_path};

#[test]
fn identifier_characters() {
    assert!(validate_id("hello-World9"));
    assert!(validate_id(""));
    assert!(!validate_id("he/llo"));
    assert!(!validate_id("..x"));
    assert!(!validate_id("../../etc/passwd"));
    assert!(!validate_id("a b"));
    assert!(!validate_id("a_b"));
}

#[test]
fn valid_path_inside_posts_dir() {
    assert!(validate_post_path("/srv/blog/posts/hello.md", "/srv/blog/posts", false).is_ok());
    assert!(validate_post_path("/srv/blog/posts/sub/note.md", "/srv/blog/posts", false).is_ok());
}

// A canonical path that resolves outside the posts directory is rejected.
#[test]
fn traversal_outside_dir_is_rejected() {
    assert_eq!(
        validate_post_path("/etc/passwd", "/srv/blog/posts", false),
        Err(Error::InvalidInput)
    );
    // a sibling directory that shares the prefix as plain text
    assert_eq!(
        validate_post_path("/srv/blog/postsx/a.md", "/srv/blog/posts", false),
        Err(Error::InvalidInput)
    );
}

// A path that resolved through a symlink is rejected even when it stays
// inside the posts directory.
#[test]
fn symlink_resolution_is_rejected() {
    assert_eq!(
        validate_post_path("/srv/blog/posts/hello.md", "/srv/blog/posts", true),
        Err(Error::InvalidInput)
    );
}

#[test]
fn filename_shape_is_checked() {
    // wrong extension
    assert_eq!(
        validate_post_path("/srv/blog/posts/hello.txt", "/srv/blog/posts", false),
        Err(Error::InvalidInput)
    );
    // hidden file
    assert_eq!(
        validate_post_path("/srv/blog/posts/.hello.md", "/srv/blog/posts", false),
        Err(Error::InvalidInput)
    );
    // no extension at all
    assert_eq!(
        validate_post_path("/srv/blog/posts/hello", "/srv/blog/posts", false),
        Err(Error::InvalidInput)
    );
}

#[test]
fn md_file_check() {
    assert!(check_md_file("/a/b/c.md"));
    assert!(check_md_file("note.md"));
    assert!(!check_md_file("/a/b/.md"));
    assert!(!check_md_file("/a/b/"));
    assert!(!check_md_file("/a.md/b"));
}

#[test]
fn scan_filters_directory_entries() {
    assert_eq!(scan_candidate("hello.md"), Some("hello".to_owned()));
    assert_eq!(scan_candidate("a.tar.md"), Some("a.tar".to_owned()));
    assert_eq!(scan_candidate(".hidden.md"), None);
    assert_eq!(scan_candidate("notes.txt"), None);
    assert_eq!(scan_candidate("README"), None);
    assert_eq!(scan_candidate(""), None);
}

#[test]
fn error_messages() {
    assert_eq!(Error::NotFound.message(), "not found");
    assert_eq!(Error::InvalidInput.message(), "invalid input");
    assert_eq!(Error::Data("bad yaml".to_owned()).message(), "bad yaml");
    assert_eq!(Error::Internal("io".to_owned()).message(), "io");
    assert!(Error::NotFound.is_not_found());
    assert!(!Error::InvalidInput.is_not_found());
}
