use freebucket::error::AppError;
use freebucket::listing::{assemble_listing, classify_key, select_keys, KeyMatch};
use freebucket::models::{ObjectMeta, Timestamp};
use freebucket::objects::StoredObjectMeta;
use freebucket::sorting::{sort_by_key, sorted_distinct};
use freebucket::storage::StorageEngine;
use freebucket::text::{chars_of, rank_strs, str_eq, string_of, Rank};

fn instant(secs: i64) -> Timestamp {
    Timestamp { secs, nanos: 0 }
}

fn strings(items: &[&str]) -> Vec<String> {
    let mut out = Vec::new();
    for s in items {
        out.push(s.to_string());
    }
    out
}

fn stored_metas(engine: &StorageEngine, bucket: &str, keys: &Vec<String>) -> Vec<ObjectMeta> {
    let mut metas = Vec::new();
    for key in keys {
        let meta = engine
            .get_object_meta_at(bucket, key, StoredObjectMeta::Missing, Some(key.as_bytes()), instant(9))
            .unwrap();
        metas.push(meta);
    }
    metas
}

fn keys_of(objects: &Vec<ObjectMeta>) -> Vec<String> {
    let mut out = Vec::new();
    for o in objects {
        out.push(o.key.clone());
    }
    out
}

#[test]
fn listing_with_prefix_and_delimiter() {
    let mut engine = StorageEngine::new("/data");
    engine.create_bucket_at("media", "local", instant(1)).unwrap();
    let found = strings(&["photos/a.jpg", "photos/b/c.jpg", "docs/d.txt"]);
    let selection = engine.walk_objects("media", &found, "photos/", Some("/")).unwrap();
    assert_eq!(selection.leaf_keys, strings(&["photos/a.jpg"]));
    assert_eq!(selection.common_prefixes, strings(&["photos/b/"]));
    let metas = stored_metas(&engine, "media", &selection.leaf_keys);
    let response = engine
        .list_objects("media", "photos/", 1000, metas, selection.common_prefixes)
        .unwrap();
    assert_eq!(keys_of(&response.objects), strings(&["photos/a.jpg"]));
    assert_eq!(response.common_prefixes, strings(&["photos/b/"]));
    assert!(!response.is_truncated);
    assert_eq!(response.bucket, "media");
    assert_eq!(response.prefix, "photos/");
    assert_eq!(response.max_keys, 1000);
}

#[test]
fn listing_is_cut_off_after_max_keys() {
    let mut engine = StorageEngine::new("/data");
    engine.create_bucket_at("media", "local", instant(1)).unwrap();
    let found = strings(&["c.txt", "a.txt", "b.txt"]);
    let selection = engine.walk_objects("media", &found, "", None).unwrap();
    assert_eq!(selection.leaf_keys, found);
    let metas = stored_metas(&engine, "media", &selection.leaf_keys);
    let response = engine.list_objects("media", "", 1, metas, selection.common_prefixes).unwrap();
    assert_eq!(keys_of(&response.objects), strings(&["a.txt"]));
    assert!(response.is_truncated);
}

#[test]
fn listing_is_not_cut_off_at_exactly_max_keys() {
    let metas = vec![];
    let response = assemble_listing("b", "", 0, metas, Vec::new());
    assert!(!response.is_truncated);
    assert!(response.objects.is_empty());
    let mut engine = StorageEngine::new("/data");
    engine.create_bucket_at("media", "local", instant(1)).unwrap();
    let keys = strings(&["b", "a", "c"]);
    let response = assemble_listing("media", "", 3, stored_metas(&engine, "media", &keys), Vec::new());
    assert!(!response.is_truncated);
    assert_eq!(keys_of(&response.objects), strings(&["a", "b", "c"]));
    let response = assemble_listing("media", "", 0, stored_metas(&engine, "media", &keys), Vec::new());
    assert!(response.is_truncated);
    assert!(response.objects.is_empty());
}

#[test]
fn common_prefixes_are_sorted_once_each_and_never_cut_off() {
    let found = strings(&["z/1", "a/2", "z/3", "m/4", "a/5", "top"]);
    let selection = select_keys(&found, "", Some("/"));
    assert_eq!(selection.leaf_keys, strings(&["top"]));
    assert_eq!(selection.common_prefixes, strings(&["z/", "a/", "z/", "m/", "a/"]));
    let response = assemble_listing("b", "", 0, Vec::new(), selection.common_prefixes);
    assert_eq!(response.common_prefixes, strings(&["a/", "m/", "z/"]));
    assert!(!response.is_truncated);
}

#[test]
fn listing_an_unknown_bucket_fails() {
    let engine = StorageEngine::new("/data");
    assert_eq!(
        engine.walk_objects("nope", &Vec::new(), "", None),
        Err(AppError::BucketNotFound("nope".to_string()))
    );
    assert_eq!(
        engine.list_objects("nope", "", 10, Vec::new(), Vec::new()),
        Err(AppError::BucketNotFound("nope".to_string()))
    );
}

fn classified(key: &str, prefix: &str, delimiter: Option<&str>) -> KeyMatch {
    let d = delimiter.map(chars_of);
    classify_key(&chars_of(key), &chars_of(prefix), d.as_ref())
}

#[test]
fn keys_are_classified() {
    assert_eq!(classified("docs/d.txt", "photos/", Some("/")), KeyMatch::Excluded);
    assert_eq!(classified("photos/a.jpg", "photos/", Some("/")), KeyMatch::Leaf);
    assert_eq!(
        classified("photos/b/c/d.jpg", "photos/", Some("/")),
        KeyMatch::Folded("photos/b/".to_string())
    );
    assert_eq!(classified("photos/b/c.jpg", "photos/", None), KeyMatch::Leaf);
    assert_eq!(classified("photos", "photos/", None), KeyMatch::Excluded);
    assert_eq!(classified("photosynthesis.txt", "photo", Some("/")), KeyMatch::Leaf);
    assert_eq!(
        classified("a--b--c", "", Some("--")),
        KeyMatch::Folded("a--".to_string())
    );
    assert_eq!(classified("a-b", "", Some("--")), KeyMatch::Leaf);
    assert_eq!(classified("abc", "abc", Some("/")), KeyMatch::Leaf);
    assert_eq!(classified("/abc", "", Some("/")), KeyMatch::Folded("/".to_string()));
}

#[test]
fn an_empty_delimiter_folds_every_key_into_the_prefix() {
    assert_eq!(classified("photos/a.jpg", "photos/", Some("")), KeyMatch::Folded("photos/".to_string()));
    assert_eq!(classified("x", "", Some("")), KeyMatch::Folded("".to_string()));
}

#[test]
fn backslashes_count_as_slashes() {
    let found = strings(&["photos\\a.jpg", "photos\\b\\c.jpg"]);
    let selection = select_keys(&found, "photos/", Some("/"));
    assert_eq!(selection.leaf_keys, strings(&["photos/a.jpg"]));
    assert_eq!(selection.common_prefixes, strings(&["photos/b/"]));
}

#[test]
fn keys_with_wide_characters() {
    let found = strings(&["caf\u{e9}/x", "caf\u{e9}s", "cafe/x"]);
    let selection = select_keys(&found, "caf\u{e9}", Some("/"));
    assert_eq!(selection.leaf_keys, strings(&["caf\u{e9}s"]));
    assert_eq!(selection.common_prefixes, strings(&["caf\u{e9}/"]));
}

#[test]
fn sort_is_in_byte_order() {
    let sorted = sort_by_key(strings(&["b", "a", "B", "\u{e9}", "ab", "", "a/", "a."]));
    assert_eq!(sorted, strings(&["", "B", "a", "a.", "a/", "ab", "b", "\u{e9}"]));
    let mut by_std = strings(&["zz", "\u{10000}", "\u{ffff}", "z", "Z", "0", "~"]);
    let sorted = sort_by_key(by_std.clone());
    by_std.sort();
    assert_eq!(sorted, by_std);
}

#[test]
fn sort_keeps_the_order_of_equal_keys() {
    let mut engine = StorageEngine::new("/data");
    engine.create_bucket_at("media", "local", instant(1)).unwrap();
    let mut metas = stored_metas(&engine, "media", &strings(&["k", "a", "k", "k"]));
    metas[0].size = 100;
    metas[2].size = 200;
    metas[3].size = 300;
    let sorted = sort_by_key(metas);
    assert_eq!(keys_of(&sorted), strings(&["a", "k", "k", "k"]));
    assert_eq!((sorted[1].size, sorted[2].size, sorted[3].size), (100, 200, 300));
}

#[test]
fn distinct_strings_in_order() {
    assert_eq!(sorted_distinct(strings(&["b", "a", "b", "c", "a", "a"])), strings(&["a", "b", "c"]));
    assert_eq!(sorted_distinct(Vec::new()), Vec::<String>::new());
    assert_eq!(sorted_distinct(strings(&["x", "x"])), strings(&["x"]));
}

#[test]
fn strings_compare_by_their_bytes() {
    assert_eq!(rank_strs("a", "b"), Rank::Before);
    assert_eq!(rank_strs("b", "a"), Rank::After);
    assert_eq!(rank_strs("abc", "abc"), Rank::Same);
    assert_eq!(rank_strs("ab", "abc"), Rank::Before);
    assert_eq!(rank_strs("abc", "ab"), Rank::After);
    assert_eq!(rank_strs("", ""), Rank::Same);
    assert_eq!(rank_strs("", "a"), Rank::Before);
    assert_eq!(rank_strs("Z", "a"), Rank::Before);
    assert_eq!(rank_strs("z", "\u{e9}"), Rank::Before);
    assert!(str_eq("same", "same"));
    assert!(!str_eq("same", "sane"));
}

#[test]
fn characters_in_and_out() {
    let chars = chars_of("h\u{e9}llo");
    assert_eq!(chars, vec!['h', '\u{e9}', 'l', 'l', 'o']);
    assert_eq!(string_of(&chars, 1, 4), "\u{e9}ll");
    assert_eq!(string_of(&chars, 2, 2), "");
}
