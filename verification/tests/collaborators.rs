use freebucket::address::{file_name_of, metadata_key, parse_bucket_key, split_bucket_key};
use freebucket::cli::{resolve_upload, Cli, Commands};
use freebucket::config::Config;
use freebucket::error::{format_error, AppError};
use freebucket::models::{
    default_region, CreateBucketRequest, ListBucketsResponse, ListObjectsQuery,
};

fn all_errors() -> Vec<AppError> {
    vec![
        AppError::BucketNotFound("b".to_string()),
        AppError::BucketAlreadyExists("b".to_string()),
        AppError::ObjectNotFound { bucket: "b".to_string(), key: "k/x".to_string() },
        AppError::InvalidBucketName("too short".to_string()),
        AppError::InvalidObjectKey("empty".to_string()),
        AppError::StorageError("disk".to_string()),
        AppError::IoError("denied".to_string()),
    ]
}

#[test]
fn errors_in_one_line() {
    let lines: Vec<String> = all_errors().iter().map(format_error).collect();
    assert_eq!(
        lines,
        vec![
            "Bucket 'b' not found",
            "Bucket 'b' already exists",
            "Object 'b/k/x' not found",
            "Invalid bucket name: too short",
            "Invalid key: empty",
            "Storage error: disk",
            "I/O error: denied",
        ]
    );
}

#[test]
fn errors_over_http() {
    let errors = all_errors();
    let statuses: Vec<u16> = errors.iter().map(|e| e.status_code()).collect();
    assert_eq!(statuses, vec![404, 409, 404, 400, 400, 500, 500]);
    let codes: Vec<String> = errors.iter().map(|e| e.code()).collect();
    assert_eq!(
        codes,
        vec![
            "NoSuchBucket",
            "BucketAlreadyOwnedByYou",
            "NoSuchKey",
            "InvalidBucketName",
            "InvalidObjectKey",
            "InternalError",
            "InternalError",
        ]
    );
    let messages: Vec<String> = errors.iter().map(|e| e.message()).collect();
    assert_eq!(
        messages,
        vec![
            "The specified bucket 'b' does not exist",
            "The bucket 'b' already exists",
            "The specified key 'k/x' does not exist in bucket 'b'",
            "Invalid bucket name: too short",
            "Invalid object key: empty",
            "Storage error: disk",
            "I/O error: denied",
        ]
    );
}

#[test]
fn url_paths_name_bucket_and_key() {
    assert_eq!(
        parse_bucket_key("mybucket/path/to/key.txt"),
        Ok(("mybucket".to_string(), "path/to/key.txt".to_string()))
    );
    assert_eq!(
        parse_bucket_key("/mybucket/key"),
        Ok(("mybucket".to_string(), "key".to_string()))
    );
    assert_eq!(parse_bucket_key("//b/k"), Ok(("".to_string(), "b/k".to_string())));
    assert_eq!(parse_bucket_key("b/"), Ok(("b".to_string(), "".to_string())));
    let fault = AppError::InvalidObjectKey("Path must be in the format: {bucket}/{key}".to_string());
    assert_eq!(parse_bucket_key("just-a-bucket"), Err(fault));
    assert!(parse_bucket_key("/just-a-bucket").is_err());
    assert!(parse_bucket_key("").is_err());
    assert!(parse_bucket_key("/").is_err());
}

#[test]
fn command_line_addresses() {
    assert_eq!(
        split_bucket_key("my-bucket/photos/cat.jpg"),
        Some(("my-bucket".to_string(), "photos/cat.jpg".to_string()))
    );
    assert_eq!(split_bucket_key("/b/k"), Some(("".to_string(), "b/k".to_string())));
    assert_eq!(split_bucket_key("my-bucket"), None);
    assert_eq!(file_name_of("photos/2024/cat.jpg"), "cat.jpg");
    assert_eq!(file_name_of("cat.jpg"), "cat.jpg");
    assert_eq!(file_name_of("dir/"), "");
    assert_eq!(file_name_of(""), "");
}

#[test]
fn metadata_headers() {
    assert_eq!(metadata_key("x-amz-meta-author"), Some("author".to_string()));
    assert_eq!(metadata_key("x-amz-meta-"), Some("".to_string()));
    assert_eq!(metadata_key("content-type"), None);
    assert_eq!(metadata_key("x-amz-meta"), None);
    assert_eq!(metadata_key("X-Amz-Meta-author"), None);
}

#[test]
fn settings_and_their_defaults() {
    let plain = Config::resolve(None, None, None);
    assert_eq!(plain.host, "127.0.0.1");
    assert_eq!(plain.port, 3210);
    assert_eq!(plain.data_dir, "./freebucket_data");
    assert_eq!(plain.max_upload_size, 500 * 1024 * 1024);
    let set = Config::resolve(Some("0.0.0.0".to_string()), Some(8080), Some("/srv".to_string()));
    assert_eq!(set.host, "0.0.0.0");
    assert_eq!(set.port, 8080);
    assert_eq!(set.data_dir, "/srv");
    assert_eq!(set.clone(), set);
}

#[test]
fn requests_and_their_defaults() {
    assert_eq!(default_region(), "local");
    let r = CreateBucketRequest::new("b".to_string(), None);
    assert_eq!((r.name.as_str(), r.region.as_str()), ("b", "local"));
    let r = CreateBucketRequest::new("b".to_string(), Some("eu".to_string()));
    assert_eq!(r.region, "eu");
    let q = ListObjectsQuery { prefix: None, delimiter: None, max_keys: None, continuation_token: None };
    assert_eq!(q.prefix_or_default(), "");
    assert_eq!(q.max_keys_or_default(), 1000);
    let q = ListObjectsQuery {
        prefix: Some("p/".to_string()),
        delimiter: Some("/".to_string()),
        max_keys: Some(5),
        continuation_token: None,
    };
    assert_eq!(q.prefix_or_default(), "p/");
    assert_eq!(q.max_keys_or_default(), 5);
    let listing = ListBucketsResponse::new(Vec::new());
    assert_eq!(listing.owner, "freebucket-local");
    assert!(listing.buckets.is_empty());
}

#[test]
fn the_command_line_asks_for_the_server_or_a_command() {
    let bare = Cli { command: None, data_dir: None };
    assert!(bare.serves());
    let serve = Cli {
        command: Some(Commands::Serve { host: "0.0.0.0".to_string(), port: 9000 }),
        data_dir: Some("/srv/data".to_string()),
    };
    assert!(serve.serves());
    let stats = Cli { command: Some(Commands::Stats), data_dir: None };
    assert!(!stats.serves());
    let make = Cli {
        command: Some(Commands::MakeBucket { name: "b".to_string(), region: "local".to_string() }),
        data_dir: None,
    };
    assert!(!make.serves());
}

#[test]
fn the_command_line_overrides_the_settings() {
    let base = Config::resolve(Some("10.0.0.1".to_string()), Some(1234), Some("/base".to_string()));
    let serve = Cli {
        command: Some(Commands::Serve { host: "0.0.0.0".to_string(), port: 9000 }),
        data_dir: Some("/srv/data".to_string()),
    };
    let config = serve.configure(base.clone());
    assert_eq!(config.host, "0.0.0.0");
    assert_eq!(config.port, 9000);
    assert_eq!(config.data_dir, "/srv/data");
    assert_eq!(config.max_upload_size, base.max_upload_size);
    let bare = Cli { command: None, data_dir: None };
    assert_eq!(bare.configure(base.clone()), base);
    let stats = Cli { command: Some(Commands::Stats), data_dir: Some("/other".to_string()) };
    let config = stats.configure(base.clone());
    assert_eq!((config.host.as_str(), config.port), ("10.0.0.1", 1234));
    assert_eq!(config.data_dir, "/other");
}

#[test]
fn the_data_directory_of_a_command() {
    let given = Cli { command: Some(Commands::Stats), data_dir: Some("/given".to_string()) };
    assert_eq!(given.data_dir_or(Some("/set".to_string())), "/given");
    let bare = Cli { command: Some(Commands::Stats), data_dir: None };
    assert_eq!(bare.data_dir_or(Some("/set".to_string())), "/set");
    assert_eq!(bare.data_dir_or(None), "./freebucket_data");
}

#[test]
fn uploads_go_to_the_destination_or_under_the_file_name() {
    assert_eq!(
        resolve_upload("my-bucket/photos/cat.jpg", Some("local.jpg")),
        ("my-bucket".to_string(), "photos/cat.jpg".to_string())
    );
    assert_eq!(
        resolve_upload("my-bucket", Some("local.jpg")),
        ("my-bucket".to_string(), "local.jpg".to_string())
    );
    assert_eq!(
        resolve_upload("my-bucket", None),
        ("my-bucket".to_string(), "upload".to_string())
    );
    assert_eq!(resolve_upload("b/", Some("x")), ("b".to_string(), "".to_string()));
}
