//! Objects: the metadata of what is put, and the metadata of what is read
//! back, from its stored form or from the object's bytes.

use vstd::prelude::*;
use vstd::string::*;
use crate::clock::current_time;
use crate::content_type::{resolve_content_type, resolved_content_type};
use crate::digest::{compute_etag, etag_of};
use crate::error::{AppError, ErrorView};
use crate::models::{pairs_view, ObjectMeta, ObjectMetaView, Timestamp};
use crate::text::join2;

verus! {

/// What the caller found of an object's stored metadata.
#[derive(Debug)]
pub enum StoredObjectMeta {
    /// There is no metadata file.
    Missing,
    /// The metadata file cannot be read back; the text is the parser's
    /// message.
    Corrupt(String),
    /// The metadata as stored.
    Loaded(ObjectMeta),
}

/// A [`StoredObjectMeta`] with its texts as sequences of characters.
pub enum StoredObjectMetaView {
    Missing,
    Corrupt(Seq<char>),
    Loaded(ObjectMetaView),
}

impl View for StoredObjectMeta {
    type V = StoredObjectMetaView;

    open spec fn view(&self) -> StoredObjectMetaView {
        match self {
            StoredObjectMeta::Missing => StoredObjectMetaView::Missing,
            StoredObjectMeta::Corrupt(message) => StoredObjectMetaView::Corrupt(message@),
            StoredObjectMeta::Loaded(meta) => StoredObjectMetaView::Loaded(meta@),
        }
    }
}

/// The metadata of an object that is put under `key` into `bucket` at the
/// time `now`: its size is that of `data`, its content tag that of `data`,
/// its content type the one supplied or else the guess from the key.
pub open spec fn new_meta(
    bucket: Seq<char>,
    key: Seq<char>,
    data: Seq<u8>,
    content_type: Option<Seq<char>>,
    metadata: Seq<(Seq<char>, Seq<char>)>,
    now: Timestamp,
) -> ObjectMetaView {
    ObjectMetaView {
        key,
        bucket,
        size: data.len() as u64,
        content_type: resolved_content_type(key, content_type),
        etag: etag_of(data),
        last_modified: now,
        metadata,
    }
}

/// The metadata made up at the time `now` for an object that has none
/// stored: as for a new object without a content type or pairs of its own.
pub open spec fn rebuilt_meta(bucket: Seq<char>, key: Seq<char>, data: Seq<u8>, now: Timestamp) -> ObjectMetaView {
    new_meta(bucket, key, data, None, Seq::empty(), now)
}

/// The metadata of an object, from what was found on disk: the stored
/// metadata where it can be read back; an error where it cannot; without
/// stored metadata, the metadata made up from the object's bytes, or an
/// error where the object is missing too.
pub open spec fn object_meta_result(
    bucket: Seq<char>,
    key: Seq<char>,
    stored: StoredObjectMetaView,
    data: Option<Seq<u8>>,
    now: Timestamp,
) -> Result<ObjectMetaView, ErrorView> {
    match stored {
        StoredObjectMetaView::Loaded(meta) => Ok(meta),
        StoredObjectMetaView::Corrupt(message) => Err(
            ErrorView::StorageError("Corrupt metadata: "@ + message),
        ),
        StoredObjectMetaView::Missing => match data {
            Some(bytes) => Ok(rebuilt_meta(bucket, key, bytes, now)),
            None => Err(ErrorView::ObjectNotFound { bucket, key }),
        },
    }
}

/// The view of the outcome of reading an object's metadata.
pub open spec fn meta_outcome(r: Result<ObjectMeta, AppError>) -> Result<ObjectMetaView, ErrorView> {
    match r {
        Ok(meta) => Ok(meta@),
        Err(e) => Err(e@),
    }
}

/// The view of the outcome of reading an object.
pub open spec fn object_outcome(r: Result<(ObjectMeta, Vec<u8>), AppError>) -> Result<
    (ObjectMetaView, Seq<u8>),
    ErrorView,
> {
    match r {
        Ok((meta, bytes)) => Ok((meta@, bytes@)),
        Err(e) => Err(e@),
    }
}

/// The view of the bytes that the caller found, if any.
pub open spec fn found_bytes(data: Option<&[u8]>) -> Option<Seq<u8>> {
    match data {
        Some(bytes) => Some(bytes@),
        None => None,
    }
}

/// The view of an optional text.
pub open spec fn found_text(text: Option<&str>) -> Option<Seq<char>> {
    match text {
        Some(t) => Some(t@),
        None => None,
    }
}

/// Puts the metadata of an object together from its parts.
pub fn build_object_meta(
    bucket: &str,
    key: &str,
    size: u64,
    content_type: String,
    etag: String,
    last_modified: Timestamp,
    metadata: Vec<(String, String)>,
) -> (meta: ObjectMeta)
    ensures
        meta@ == (ObjectMetaView {
            key: key@,
            bucket: bucket@,
            size,
            content_type: content_type@,
            etag: etag@,
            last_modified,
            metadata: pairs_view(metadata@),
        }),
{
    ObjectMeta {
        key: key.to_owned(),
        bucket: bucket.to_owned(),
        size,
        content_type,
        etag,
        last_modified,
        metadata,
    }
}

/// The metadata of an object that is put under `key` into `bucket` at the
/// time `now`.
pub fn describe_object(
    bucket: &str,
    key: &str,
    data: &[u8],
    content_type: Option<&str>,
    metadata: Vec<(String, String)>,
    now: Timestamp,
) -> (meta: ObjectMeta)
    ensures
        meta@ == new_meta(
            bucket@,
            key@,
            data@,
            found_text(content_type),
            pairs_view(metadata@),
            now,
        ),
{
    let content_type = resolve_content_type(key, content_type);
    let etag = compute_etag(data);
    build_object_meta(bucket, key, data.len() as u64, content_type, etag, now, metadata)
}

/// The metadata of an object at the time `now`, from what the caller found
/// on disk: its stored metadata, and, where there is none, its bytes.
pub fn read_object_meta_at(
    bucket: &str,
    key: &str,
    stored: StoredObjectMeta,
    data: Option<&[u8]>,
    now: Timestamp,
) -> (r: Result<ObjectMeta, AppError>)
    ensures
        meta_outcome(r) == object_meta_result(bucket@, key@, stored@, found_bytes(data), now),
{
    match stored {
        StoredObjectMeta::Loaded(meta) => Ok(meta),
        StoredObjectMeta::Corrupt(message) => Err(
            AppError::StorageError(join2("Corrupt metadata: ", message.as_str())),
        ),
        StoredObjectMeta::Missing => match data {
            Some(bytes) => {
                let meta = describe_object(bucket, key, bytes, None, Vec::new(), now);
                assert(meta@.metadata =~= Seq::empty());
                Ok(meta)
            },
            None => Err(AppError::ObjectNotFound { bucket: bucket.to_owned(), key: key.to_owned() }),
        },
    }
}

/// The metadata of an object, from what the caller found on disk; metadata
/// that has to be made up is dated by the system clock.
pub fn read_object_meta(bucket: &str, key: &str, stored: StoredObjectMeta, data: Option<&[u8]>) -> (r:
    Result<ObjectMeta, AppError>)
    ensures
        exists|now: Timestamp|
            meta_outcome(r) == #[trigger] object_meta_result(
                bucket@,
                key@,
                stored@,
                found_bytes(data),
                now,
            ),
{
    let now = current_time();
    read_object_meta_at(bucket, key, stored, data, now)
}

} // verus!
