use freebucket::cleanup::cleanup_empty_dirs;
use freebucket::content_type::resolve_content_type;
use freebucket::digest::{compute_etag, quote_digest};
use freebucket::error::AppError;
use freebucket::models::{ObjectMeta, Timestamp};
use freebucket::naming::check_object_key;
use freebucket::objects::{build_object_meta, StoredObjectMeta};
use freebucket::paths::flatten_key;
use freebucket::storage::StorageEngine;

fn moment(secs: i64) -> Timestamp {
    Timestamp { secs, nanos: 0 }
}

fn engine_with(bucket: &str) -> StorageEngine {
    let mut engine = StorageEngine::new("/data");
    engine.create_bucket_at(bucket, "local", moment(1)).unwrap();
    engine
}

const EMPTY_SHA256: &str = "\"e3b0c44298fc1c149afbf4c8996fb92427ae41e4649b934ca495991b7852b855\"";
const HELLO_SHA256: &str = "\"2cf24dba5fb0a30e26e83b2ac5b9e29e1b161e5c1fa7425e73043362938b9824\"";

#[test]
fn etag_is_the_quoted_hex_sha256() {
    assert_eq!(compute_etag(b""), EMPTY_SHA256);
    assert_eq!(compute_etag(b"hello"), HELLO_SHA256);
    assert_eq!(
        compute_etag(b"hello world"),
        "\"b94d27b9934d3e08a52e52d7da7dabfac484efe37a5380ee9088f7ace2efcde9\""
    );
    assert_eq!(compute_etag(b"hello").len(), 66);
}

#[test]
fn quote_digest_adds_the_quotes() {
    assert_eq!(quote_digest("0a1b"), "\"0a1b\"");
    assert_eq!(quote_digest(""), "\"\"");
}

#[test]
fn content_type_is_supplied_or_guessed() {
    assert_eq!(resolve_content_type("photo.jpg", None), "image/jpeg");
    assert_eq!(resolve_content_type("dir/page.html", None), "text/html");
    assert_eq!(resolve_content_type("notes.txt", None), "text/plain");
    assert_eq!(resolve_content_type("PHOTO.JPG", None), "image/jpeg");
    assert_eq!(resolve_content_type("data.unknown-extension", None), "application/octet-stream");
    assert_eq!(resolve_content_type("no-extension", None), "application/octet-stream");
    assert_eq!(resolve_content_type("script.psc1", None), "application/powershell");
    assert_eq!(resolve_content_type("photo.jpg", Some("text/x-mine")), "text/x-mine");
}

#[test]
fn put_then_get_returns_the_bytes_and_the_etag() {
    let engine = engine_with("docs");
    let data = b"hello".to_vec();
    let pairs = vec![("author".to_string(), "me".to_string())];
    let meta = engine
        .put_object_at("docs", "greeting.txt", &data, None, pairs.clone(), moment(50))
        .unwrap();
    assert_eq!(meta.key, "greeting.txt");
    assert_eq!(meta.bucket, "docs");
    assert_eq!(meta.size, 5);
    assert_eq!(meta.content_type, "text/plain");
    assert_eq!(meta.etag, HELLO_SHA256);
    assert_eq!(meta.last_modified, moment(50));
    assert_eq!(meta.metadata, pairs);
    let (got, bytes) = engine
        .get_object_at(
            "docs",
            "greeting.txt",
            Some(data.clone()),
            StoredObjectMeta::Loaded(meta.clone()),
            moment(60),
        )
        .unwrap();
    assert_eq!(bytes, data);
    assert_eq!(got, meta);
    let again = engine
        .put_object_at("docs", "greeting.txt", &data, None, Vec::new(), moment(70))
        .unwrap();
    assert_eq!(again.etag, meta.etag);
}

#[test]
fn put_with_the_clock() {
    let engine = engine_with("docs");
    let meta = engine.put_object("docs", "a.json", b"{}", Some("application/x-own"), Vec::new()).unwrap();
    assert_eq!(meta.content_type, "application/x-own");
    assert_eq!(meta.size, 2);
    assert!(meta.last_modified.secs > 1_600_000_000);
    let (got, bytes) = engine
        .get_object("docs", "a.json", Some(b"{}".to_vec()), StoredObjectMeta::Missing)
        .unwrap();
    assert_eq!(bytes, b"{}");
    assert_eq!(got.etag, meta.etag);
    assert_eq!(got.content_type, "application/json");
    let only_meta = engine
        .get_object_meta("docs", "a.json", StoredObjectMeta::Missing, Some(b"{}"))
        .unwrap();
    assert_eq!(only_meta.etag, meta.etag);
    assert_eq!(only_meta.size, 2);
}

#[test]
fn put_into_unknown_bucket_fails() {
    let engine = engine_with("docs");
    assert_eq!(
        engine.put_object_at("nope", "k", b"x", None, Vec::new(), moment(1)),
        Err(AppError::BucketNotFound("nope".to_string()))
    );
    assert_eq!(
        engine.put_object_at("nope", "", b"x", None, Vec::new(), moment(1)),
        Err(AppError::BucketNotFound("nope".to_string()))
    );
}

#[test]
fn keys_must_have_1_to_1024_bytes() {
    let engine = engine_with("docs");
    let fault = AppError::InvalidObjectKey("Key must be between 1 and 1024 characters".to_string());
    assert_eq!(engine.put_object_at("docs", "", b"x", None, Vec::new(), moment(1)), Err(fault));
    let longest = "k".repeat(1024);
    assert!(engine.put_object_at("docs", &longest, b"x", None, Vec::new(), moment(1)).is_ok());
    let too_long = "k".repeat(1025);
    assert!(matches!(
        engine.put_object_at("docs", &too_long, b"x", None, Vec::new(), moment(1)),
        Err(AppError::InvalidObjectKey(_))
    ));
    let wide = "\u{e9}".repeat(513);
    assert!(matches!(check_object_key(&wide), Err(AppError::InvalidObjectKey(_))));
    assert_eq!(check_object_key(&"\u{e9}".repeat(512)), Ok(()));
}

#[test]
fn get_reports_what_is_missing() {
    let engine = engine_with("docs");
    assert_eq!(
        engine.get_object_at("nope", "k", Some(vec![1]), StoredObjectMeta::Missing, moment(1)),
        Err(AppError::BucketNotFound("nope".to_string()))
    );
    assert_eq!(
        engine.get_object_at("docs", "k", None, StoredObjectMeta::Missing, moment(1)),
        Err(AppError::ObjectNotFound { bucket: "docs".to_string(), key: "k".to_string() })
    );
    assert_eq!(
        engine.get_object_at(
            "docs",
            "k",
            Some(vec![1]),
            StoredObjectMeta::Corrupt("expected value at line 1 column 1".to_string()),
            moment(1)
        ),
        Err(AppError::StorageError(
            "Corrupt metadata: expected value at line 1 column 1".to_string()
        ))
    );
}

#[test]
fn metadata_is_made_up_for_a_file_without_any() {
    let engine = engine_with("docs");
    let (meta, bytes) = engine
        .get_object_at("docs", "dir/pic.png", Some(b"hello".to_vec()), StoredObjectMeta::Missing, moment(77))
        .unwrap();
    assert_eq!(bytes, b"hello");
    assert_eq!(
        meta,
        ObjectMeta {
            key: "dir/pic.png".to_string(),
            bucket: "docs".to_string(),
            size: 5,
            content_type: "image/png".to_string(),
            etag: HELLO_SHA256.to_string(),
            last_modified: moment(77),
            metadata: Vec::new(),
        }
    );
}

#[test]
fn object_meta_alone() {
    let engine = engine_with("docs");
    let kept = build_object_meta(
        "docs",
        "k",
        9,
        "text/plain".to_string(),
        "\"00\"".to_string(),
        moment(3),
        Vec::new(),
    );
    assert_eq!(kept.size, 9);
    assert_eq!(kept.etag, "\"00\"");
    assert_eq!(
        engine.get_object_meta_at("docs", "k", StoredObjectMeta::Loaded(kept.clone()), None, moment(4)),
        Ok(kept)
    );
    assert_eq!(
        engine.get_object_meta_at("docs", "k", StoredObjectMeta::Missing, None, moment(4)),
        Err(AppError::ObjectNotFound { bucket: "docs".to_string(), key: "k".to_string() })
    );
    assert_eq!(
        engine.get_object_meta_at("docs", "k", StoredObjectMeta::Corrupt("bad".to_string()), Some(b"x"), moment(4)),
        Err(AppError::StorageError("Corrupt metadata: bad".to_string()))
    );
    let made = engine
        .get_object_meta_at("docs", "k", StoredObjectMeta::Missing, Some(b""), moment(4))
        .unwrap();
    assert_eq!(made.etag, EMPTY_SHA256);
    assert_eq!(made.size, 0);
    assert_eq!(made.content_type, "application/octet-stream");
}

#[test]
fn delete_reports_what_is_missing() {
    let engine = engine_with("docs");
    assert!(matches!(
        engine.delete_object("nope", "k", true),
        Err(AppError::BucketNotFound(_))
    ));
    let r = engine.delete_object("docs", "k", false);
    assert!(matches!(r, Err(AppError::ObjectNotFound { .. })));
    assert!(engine.delete_object("docs", "k", true).is_ok());
}

fn walked(key: &str, seen: &[Option<u64>]) -> Vec<(String, bool)> {
    let mut walk = cleanup_empty_dirs(key);
    let mut steps = Vec::new();
    let mut i = 0;
    loop {
        let dir = match walk.current() {
            Some(d) => d.to_string(),
            None => break,
        };
        let remove = walk.observe(seen[i]);
        steps.push((dir, remove));
        i += 1;
    }
    steps
}

#[test]
fn lone_object_leaves_no_empty_directory() {
    let steps = walked("a/b/c.txt", &[Some(0), Some(0)]);
    assert_eq!(steps, vec![("a/b".to_string(), true), ("a".to_string(), true)]);
}

#[test]
fn cleanup_stops_at_the_first_directory_in_use() {
    let steps = walked("x/y/z/file", &[Some(0), Some(2), Some(0)]);
    assert_eq!(steps, vec![("x/y/z".to_string(), true), ("x/y".to_string(), false)]);
    let steps = walked("x/y/z/file", &[None, Some(0), Some(0)]);
    assert_eq!(steps, vec![("x/y/z".to_string(), false)]);
}

#[test]
fn cleanup_has_nothing_to_do_at_the_top() {
    assert!(walked("file.txt", &[]).is_empty());
    assert!(walked("", &[]).is_empty());
    assert!(walked("/file.txt", &[]).is_empty());
    let steps = walked("a//b", &[Some(0)]);
    assert_eq!(steps, vec![("a".to_string(), true)]);
}

#[test]
fn observing_after_the_end_removes_nothing() {
    let mut walk = cleanup_empty_dirs("a/b");
    assert_eq!(walk.current(), Some("a"));
    assert!(walk.observe(Some(0)));
    assert_eq!(walk.current(), None);
    assert!(!walk.observe(Some(0)));
    assert_eq!(walk.current(), None);
}

#[test]
fn delete_after_put_of_the_only_object() {
    let mut engine = engine_with("docs");
    let data = b"payload".to_vec();
    engine.put_object_at("docs", "deep/down/file.bin", &data, None, Vec::new(), moment(5)).unwrap();
    engine.update_bucket_stats("docs", 1, data.len() as u64);
    let mut walk = engine.delete_object("docs", "deep/down/file.bin", true).unwrap();
    let mut removed = Vec::new();
    loop {
        let dir = match walk.current() {
            Some(d) => d.to_string(),
            None => break,
        };
        if walk.observe(Some(0)) {
            removed.push(dir);
        }
    }
    assert_eq!(removed, vec!["deep/down", "deep"]);
    let (count, size) = StorageEngine::dir_stats(&Vec::new());
    engine.update_bucket_stats("docs", count, size);
    let stats = engine.get_stats();
    assert_eq!((stats.total_objects, stats.total_size), (0, 0));
    assert_eq!(stats.total_size_human, "0 B");
}

#[test]
fn keys_are_flattened_for_metadata_files() {
    assert_eq!(flatten_key("a/b/c"), "a__SLASH__b__SLASH__c");
    assert_eq!(flatten_key("plain"), "plain");
    assert_eq!(flatten_key("/"), "__SLASH__");
    assert_eq!(flatten_key(""), "");
    assert_eq!(flatten_key("caf\u{e9}/x"), "caf\u{e9}__SLASH__x");
}
