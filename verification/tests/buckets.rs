use freebucket::error::AppError;
use freebucket::models::{Bucket, Timestamp};
use freebucket::scan::{is_bucket_dir, FoundDir, StoredBucket};
use freebucket::storage::StorageEngine;

fn at(secs: i64) -> Timestamp {
    Timestamp { secs, nanos: 0 }
}

fn names(list: &Vec<Bucket>) -> Vec<String> {
    let mut out = Vec::new();
    for b in list {
        out.push(b.name.clone());
    }
    out
}

#[test]
fn create_then_get_returns_fresh_descriptor() {
    let mut engine = StorageEngine::new("/data");
    let made = engine.create_bucket_at("my-bucket", "eu-west", at(1_700_000_000)).unwrap();
    assert_eq!(made.name, "my-bucket");
    assert_eq!(made.region, "eu-west");
    assert_eq!(made.object_count, 0);
    assert_eq!(made.total_size, 0);
    assert_eq!(made.created_at, at(1_700_000_000));
    let got = engine.get_bucket("my-bucket").unwrap();
    assert_eq!(got, made);
}

#[test]
fn create_bucket_stamps_with_the_clock() {
    let mut engine = StorageEngine::new("/data");
    let made = engine.create_bucket("clocked", "local").unwrap();
    assert_eq!(made.name, "clocked");
    assert_eq!(made.region, "local");
    assert_eq!(made.object_count, 0);
    assert!(made.created_at.secs > 1_600_000_000);
    assert!(made.created_at.nanos < 2_000_000_000);
    assert_eq!(engine.get_bucket("clocked").unwrap(), made);
}

#[test]
fn create_existing_bucket_fails_and_keeps_index() {
    let mut engine = StorageEngine::new("/data");
    let first = engine.create_bucket_at("photos", "local", at(10)).unwrap();
    let again = engine.create_bucket_at("photos", "other", at(20));
    assert_eq!(again, Err(AppError::BucketAlreadyExists("photos".to_string())));
    let list = engine.list_buckets();
    assert_eq!(list.len(), 1);
    assert_eq!(list[0], first);
}

#[test]
fn invalid_name_ab_is_refused() {
    let mut engine = StorageEngine::new("/data");
    let r = engine.create_bucket_at("AB", "local", at(1));
    assert!(matches!(r, Err(AppError::InvalidBucketName(_))));
    assert_eq!(engine.list_buckets().len(), 0);
    assert!(!engine.has_bucket("AB"));
    assert!(matches!(
        StorageEngine::validate_bucket_name("AB"),
        Err(AppError::InvalidBucketName(_))
    ));
}

#[test]
fn name_rules_each_have_their_message() {
    assert_eq!(
        StorageEngine::validate_bucket_name("ab"),
        Err(AppError::InvalidBucketName(
            "Bucket name must be between 3 and 63 characters".to_string()
        ))
    );
    let long = "a".repeat(64);
    assert_eq!(
        StorageEngine::validate_bucket_name(&long),
        Err(AppError::InvalidBucketName(
            "Bucket name must be between 3 and 63 characters".to_string()
        ))
    );
    assert_eq!(
        StorageEngine::validate_bucket_name("My_Bucket"),
        Err(AppError::InvalidBucketName(
            "Bucket name can only contain lowercase letters, numbers, hyphens, and periods"
                .to_string()
        ))
    );
    assert_eq!(
        StorageEngine::validate_bucket_name("caf\u{e9}s"),
        Err(AppError::InvalidBucketName(
            "Bucket name can only contain lowercase letters, numbers, hyphens, and periods"
                .to_string()
        ))
    );
    assert_eq!(
        StorageEngine::validate_bucket_name("-abc"),
        Err(AppError::InvalidBucketName(
            "Bucket name cannot start or end with a hyphen".to_string()
        ))
    );
    assert_eq!(
        StorageEngine::validate_bucket_name("abc-"),
        Err(AppError::InvalidBucketName(
            "Bucket name cannot start or end with a hyphen".to_string()
        ))
    );
}

#[test]
fn valid_names_pass() {
    assert_eq!(StorageEngine::validate_bucket_name("abc"), Ok(()));
    assert_eq!(StorageEngine::validate_bucket_name("my-bucket.01"), Ok(()));
    assert_eq!(StorageEngine::validate_bucket_name(".hidden"), Ok(()));
    assert_eq!(StorageEngine::validate_bucket_name(&"z".repeat(63)), Ok(()));
    assert_eq!(StorageEngine::validate_bucket_name("0-9"), Ok(()));
}

#[test]
fn list_buckets_is_sorted_by_name() {
    let mut engine = StorageEngine::new("/data");
    for name in ["zeta", "alpha", "mid", "alpha2", "b.c"] {
        engine.create_bucket_at(name, "local", at(5)).unwrap();
    }
    let list = engine.list_buckets();
    assert_eq!(names(&list), vec!["alpha", "alpha2", "b.c", "mid", "zeta"]);
}

#[test]
fn get_unknown_bucket_fails() {
    let engine = StorageEngine::new("/data");
    assert_eq!(
        engine.get_bucket("nothing"),
        Err(AppError::BucketNotFound("nothing".to_string()))
    );
}

#[test]
fn delete_bucket_with_objects_fails_and_keeps_it() {
    let mut engine = StorageEngine::new("/data");
    let made = engine.create_bucket_at("full", "local", at(1)).unwrap();
    let r = engine.delete_bucket("full", 1);
    assert_eq!(
        r,
        Err(AppError::StorageError(
            "Bucket is not empty. Delete all objects first.".to_string()
        ))
    );
    assert_eq!(engine.get_bucket("full").unwrap(), made);
}

#[test]
fn delete_empty_bucket_removes_it() {
    let mut engine = StorageEngine::new("/data");
    engine.create_bucket_at("one", "local", at(1)).unwrap();
    engine.create_bucket_at("two", "local", at(2)).unwrap();
    engine.create_bucket_at("three", "local", at(3)).unwrap();
    assert_eq!(engine.delete_bucket("two", 0), Ok(()));
    assert!(!engine.has_bucket("two"));
    assert_eq!(names(&engine.list_buckets()), vec!["one", "three"]);
    assert_eq!(engine.get_bucket("three").unwrap().created_at, at(3));
}

#[test]
fn delete_unknown_bucket_fails() {
    let mut engine = StorageEngine::new("/data");
    assert_eq!(
        engine.delete_bucket("ghost", 0),
        Err(AppError::BucketNotFound("ghost".to_string()))
    );
    assert_eq!(
        engine.delete_bucket("ghost", 3),
        Err(AppError::BucketNotFound("ghost".to_string()))
    );
}

#[test]
fn update_stats_and_totals() {
    let mut engine = StorageEngine::new("/data");
    engine.create_bucket_at("a-bucket", "local", at(1)).unwrap();
    engine.create_bucket_at("b-bucket", "local", at(2)).unwrap();
    let updated = engine.update_bucket_stats("a-bucket", 3, 1000).unwrap();
    assert_eq!(updated.object_count, 3);
    assert_eq!(updated.total_size, 1000);
    assert_eq!(updated.name, "a-bucket");
    assert_eq!(updated.created_at, at(1));
    engine.update_bucket_stats("b-bucket", 2, 536);
    assert!(engine.update_bucket_stats("missing", 1, 1).is_none());
    assert_eq!(engine.get_bucket("a-bucket").unwrap(), updated);
    assert!(engine.totals_fit());
    let stats = engine.get_stats();
    assert_eq!(stats.total_buckets, 2);
    assert_eq!(stats.total_objects, 5);
    assert_eq!(stats.total_size, 1536);
    assert_eq!(stats.total_size_human, "1.50 KB");
}

#[test]
fn totals_that_overflow_do_not_fit() {
    let mut engine = StorageEngine::new("/data");
    engine.create_bucket_at("a-bucket", "local", at(1)).unwrap();
    engine.create_bucket_at("b-bucket", "local", at(2)).unwrap();
    engine.update_bucket_stats("a-bucket", 1, u64::MAX);
    assert!(engine.totals_fit());
    engine.update_bucket_stats("b-bucket", 1, 1);
    assert!(!engine.totals_fit());
}

#[test]
fn stats_of_an_empty_store() {
    let engine = StorageEngine::new("/data");
    let stats = engine.get_stats();
    assert_eq!(stats.total_buckets, 0);
    assert_eq!(stats.total_objects, 0);
    assert_eq!(stats.total_size, 0);
    assert_eq!(stats.total_size_human, "0 B");
}

#[test]
fn dir_stats_counts_and_sums() {
    assert_eq!(StorageEngine::dir_stats(&vec![]), (0, 0));
    assert_eq!(StorageEngine::dir_stats(&vec![5, 0, 1024]), (3, 1029));
    assert_eq!(StorageEngine::try_dir_stats(&vec![5, 0, 1024]), Some((3, 1029)));
    assert_eq!(StorageEngine::try_dir_stats(&vec![u64::MAX, 0]), Some((2, u64::MAX)));
    assert_eq!(StorageEngine::try_dir_stats(&vec![u64::MAX, 1]), None);
}

#[test]
fn emptied_bucket_reports_zero() {
    let mut engine = StorageEngine::new("/data");
    engine.create_bucket_at("solo", "local", at(1)).unwrap();
    let (count, size) = StorageEngine::dir_stats(&vec![11]);
    engine.update_bucket_stats("solo", count, size);
    assert_eq!(engine.get_stats().total_objects, 1);
    let (count, size) = StorageEngine::dir_stats(&vec![]);
    engine.update_bucket_stats("solo", count, size);
    let b = engine.get_bucket("solo").unwrap();
    assert_eq!((b.object_count, b.total_size), (0, 0));
    let stats = engine.get_stats();
    assert_eq!((stats.total_objects, stats.total_size), (0, 0));
}

#[test]
fn bucket_dirs_are_directories_without_leading_period() {
    assert!(is_bucket_dir("photos", true));
    assert!(!is_bucket_dir("photos", false));
    assert!(!is_bucket_dir(".git", true));
    assert!(is_bucket_dir("a.b", true));
    assert!(is_bucket_dir("", true));
}

fn stored(name: &str, region: &str, secs: i64, count: u64, size: u64) -> Bucket {
    Bucket {
        name: name.to_string(),
        created_at: at(secs),
        region: region.to_string(),
        object_count: count,
        total_size: size,
    }
}

#[test]
fn scan_takes_in_what_is_on_disk() {
    let found = vec![
        FoundDir {
            name: "loaded".to_string(),
            is_dir: true,
            meta: StoredBucket::Loaded(stored("loaded", "eu", 7, 2, 30)),
        },
        FoundDir { name: "bare".to_string(), is_dir: true, meta: StoredBucket::Missing },
        FoundDir { name: "broken".to_string(), is_dir: true, meta: StoredBucket::Corrupt },
        FoundDir { name: ".hidden".to_string(), is_dir: true, meta: StoredBucket::Missing },
        FoundDir { name: "notes.txt".to_string(), is_dir: false, meta: StoredBucket::Missing },
    ];
    let mut engine = StorageEngine::new("/data");
    let fresh = engine.scan_buckets_at(&found, at(99));
    assert_eq!(fresh.len(), 1);
    assert_eq!(fresh[0], stored("bare", "local", 99, 0, 0));
    assert_eq!(names(&engine.list_buckets()), vec!["bare", "broken", "loaded"]);
    assert_eq!(engine.get_bucket("loaded").unwrap(), stored("loaded", "eu", 7, 2, 30));
    assert_eq!(engine.get_bucket("broken").unwrap(), stored("broken", "local", 99, 0, 0));
    assert!(!engine.has_bucket(".hidden"));
    assert!(!engine.has_bucket("notes.txt"));
}

#[test]
fn scan_with_the_clock_dates_fresh_descriptors() {
    let found = vec![FoundDir { name: "bare".to_string(), is_dir: true, meta: StoredBucket::Missing }];
    let mut engine = StorageEngine::new("/data");
    let fresh = engine.scan_buckets(&found);
    assert_eq!(fresh.len(), 1);
    assert_eq!(fresh[0].name, "bare");
    assert_eq!(fresh[0].region, "local");
    assert!(fresh[0].created_at.secs > 1_600_000_000);
    assert_eq!(engine.get_bucket("bare").unwrap(), fresh[0]);
    let made = StorageEngine::create_bucket_meta("other");
    assert_eq!(made.name, "other");
    assert_eq!(made.region, "local");
    assert_eq!((made.object_count, made.total_size), (0, 0));
}

#[test]
fn scan_keeps_a_descriptor_under_the_directory_name() {
    let found = vec![FoundDir {
        name: "on-disk".to_string(),
        is_dir: true,
        meta: StoredBucket::Loaded(stored("renamed", "eu", 7, 1, 1)),
    }];
    let mut engine = StorageEngine::new("/data");
    engine.scan_buckets_at(&found, at(1));
    assert!(engine.has_bucket("on-disk"));
    assert!(!engine.has_bucket("renamed"));
    assert_eq!(engine.get_bucket("on-disk").unwrap().name, "renamed");
}

#[test]
fn restart_rebuilds_the_same_index() {
    let mut engine = StorageEngine::new("/data");
    engine.create_bucket_at("alpha", "local", at(1)).unwrap();
    engine.create_bucket_at("beta", "eu", at(2)).unwrap();
    engine.create_bucket_at("gamma", "us", at(3)).unwrap();
    engine.update_bucket_stats("beta", 4, 4096);
    let before = engine.list_buckets();
    let mut found = Vec::new();
    for b in before.iter().rev() {
        found.push(FoundDir {
            name: b.name.clone(),
            is_dir: true,
            meta: StoredBucket::Loaded(b.clone()),
        });
    }
    let mut restarted = StorageEngine::new("/data");
    let fresh = restarted.scan_buckets_at(&found, at(1000));
    assert!(fresh.is_empty());
    assert_eq!(restarted.list_buckets(), before);
    assert_eq!(restarted.get_bucket("beta").unwrap().object_count, 4);
}

#[test]
fn restart_passes_over_a_bucket_named_with_a_leading_period() {
    let mut engine = StorageEngine::new("/data");
    let made = engine.create_bucket_at(".dot", "local", at(1)).unwrap();
    let found = vec![FoundDir {
        name: made.name.clone(),
        is_dir: true,
        meta: StoredBucket::Loaded(made),
    }];
    let mut restarted = StorageEngine::new("/data");
    restarted.scan_buckets_at(&found, at(2));
    assert!(!restarted.has_bucket(".dot"));
}

#[test]
fn paths_follow_the_layout() {
    let engine = StorageEngine::new("/var/data");
    assert_eq!(engine.data_dir(), "/var/data");
    assert_eq!(engine.bucket_path("pics"), "/var/data/pics");
    assert_eq!(engine.bucket_meta_path("pics"), "/var/data/pics/.bucket_meta.json");
    assert_eq!(engine.objects_path("pics"), "/var/data/pics/objects");
    assert_eq!(engine.object_path("pics", "a/b/c.jpg"), "/var/data/pics/objects/a/b/c.jpg");
    assert_eq!(
        engine.object_meta_path("pics", "a/b/c.jpg"),
        "/var/data/pics/.meta/a__SLASH__b__SLASH__c.jpg.json"
    );
    assert_eq!(engine.object_meta_path("pics", "plain.txt"), "/var/data/pics/.meta/plain.txt.json");
}
