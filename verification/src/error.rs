//! The failures an operation of the store can report, and how collaborators
//! phrase them.

use vstd::prelude::*;
use vstd::string::*;
use crate::text::{join2, join3};

verus! {

/// Why an operation of the store failed.
#[derive(Debug, PartialEq, Eq)]
pub enum AppError {
    /// No bucket of this name is in the index.
    BucketNotFound(String),
    /// A bucket of this name is in the index already.
    BucketAlreadyExists(String),
    /// The bucket holds no object under this key.
    ObjectNotFound { bucket: String, key: String },
    /// The name breaks a naming rule; the text says which.
    InvalidBucketName(String),
    /// The key is empty or too long; the text says so.
    InvalidObjectKey(String),
    /// The store itself cannot go on: a bucket that still holds objects,
    /// metadata that cannot be read back.
    StorageError(String),
    /// The filesystem refused an operation; the text is its message.
    IoError(String),
}

/// An [`AppError`] with its texts as sequences of characters.
pub enum ErrorView {
    BucketNotFound(Seq<char>),
    BucketAlreadyExists(Seq<char>),
    ObjectNotFound { bucket: Seq<char>, key: Seq<char> },
    InvalidBucketName(Seq<char>),
    InvalidObjectKey(Seq<char>),
    StorageError(Seq<char>),
    IoError(Seq<char>),
}

impl View for AppError {
    type V = ErrorView;

    open spec fn view(&self) -> ErrorView {
        match self {
            AppError::BucketNotFound(name) => ErrorView::BucketNotFound(name@),
            AppError::BucketAlreadyExists(name) => ErrorView::BucketAlreadyExists(name@),
            AppError::ObjectNotFound { bucket, key } => ErrorView::ObjectNotFound {
                bucket: bucket@,
                key: key@,
            },
            AppError::InvalidBucketName(reason) => ErrorView::InvalidBucketName(reason@),
            AppError::InvalidObjectKey(reason) => ErrorView::InvalidObjectKey(reason@),
            AppError::StorageError(message) => ErrorView::StorageError(message@),
            AppError::IoError(message) => ErrorView::IoError(message@),
        }
    }
}

/// The one-line text a command-line front end prints for an error.
pub open spec fn error_line(e: ErrorView) -> Seq<char> {
    match e {
        ErrorView::BucketNotFound(name) => "Bucket '"@ + name + "' not found"@,
        ErrorView::BucketAlreadyExists(name) => "Bucket '"@ + name + "' already exists"@,
        ErrorView::ObjectNotFound { bucket, key } => "Object '"@ + bucket + "/"@ + key
            + "' not found"@,
        ErrorView::InvalidBucketName(reason) => "Invalid bucket name: "@ + reason,
        ErrorView::InvalidObjectKey(reason) => "Invalid key: "@ + reason,
        ErrorView::StorageError(message) => "Storage error: "@ + message,
        ErrorView::IoError(message) => "I/O error: "@ + message,
    }
}

/// The HTTP status an error is answered with.
pub open spec fn error_status(e: ErrorView) -> u16 {
    match e {
        ErrorView::BucketNotFound(_) => 404,
        ErrorView::BucketAlreadyExists(_) => 409,
        ErrorView::ObjectNotFound { .. } => 404,
        ErrorView::InvalidBucketName(_) => 400,
        ErrorView::InvalidObjectKey(_) => 400,
        ErrorView::StorageError(_) => 500,
        ErrorView::IoError(_) => 500,
    }
}

/// The S3 error code an error is answered with.
pub open spec fn error_code(e: ErrorView) -> Seq<char> {
    match e {
        ErrorView::BucketNotFound(_) => "NoSuchBucket"@,
        ErrorView::BucketAlreadyExists(_) => "BucketAlreadyOwnedByYou"@,
        ErrorView::ObjectNotFound { .. } => "NoSuchKey"@,
        ErrorView::InvalidBucketName(_) => "InvalidBucketName"@,
        ErrorView::InvalidObjectKey(_) => "InvalidObjectKey"@,
        ErrorView::StorageError(_) => "InternalError"@,
        ErrorView::IoError(_) => "InternalError"@,
    }
}

/// The sentence an error is answered with over HTTP.
pub open spec fn error_message(e: ErrorView) -> Seq<char> {
    match e {
        ErrorView::BucketNotFound(name) => "The specified bucket '"@ + name + "' does not exist"@,
        ErrorView::BucketAlreadyExists(name) => "The bucket '"@ + name + "' already exists"@,
        ErrorView::ObjectNotFound { bucket, key } => "The specified key '"@ + key
            + "' does not exist in bucket '"@ + bucket + "'"@,
        ErrorView::InvalidBucketName(reason) => "Invalid bucket name: "@ + reason,
        ErrorView::InvalidObjectKey(reason) => "Invalid object key: "@ + reason,
        ErrorView::StorageError(message) => "Storage error: "@ + message,
        ErrorView::IoError(message) => "I/O error: "@ + message,
    }
}

impl AppError {
    /// The HTTP status this error is answered with: 404 for what is missing,
    /// 409 for a bucket that exists, 400 for bad input, 500 otherwise.
    pub fn status_code(&self) -> (status: u16)
        ensures
            status == error_status(self@),
    {
        match self {
            AppError::BucketNotFound(_) => 404,
            AppError::BucketAlreadyExists(_) => 409,
            AppError::ObjectNotFound { .. } => 404,
            AppError::InvalidBucketName(_) => 400,
            AppError::InvalidObjectKey(_) => 400,
            AppError::StorageError(_) => 500,
            AppError::IoError(_) => 500,
        }
    }

    /// The S3 error code this error is answered with.
    pub fn code(&self) -> (code: String)
        ensures
            code@ == error_code(self@),
    {
        match self {
            AppError::BucketNotFound(_) => "NoSuchBucket".to_owned(),
            AppError::BucketAlreadyExists(_) => "BucketAlreadyOwnedByYou".to_owned(),
            AppError::ObjectNotFound { .. } => "NoSuchKey".to_owned(),
            AppError::InvalidBucketName(_) => "InvalidBucketName".to_owned(),
            AppError::InvalidObjectKey(_) => "InvalidObjectKey".to_owned(),
            AppError::StorageError(_) => "InternalError".to_owned(),
            AppError::IoError(_) => "InternalError".to_owned(),
        }
    }

    /// The sentence this error is answered with over HTTP.
    pub fn message(&self) -> (text: String)
        ensures
            text@ == error_message(self@),
    {
        match self {
            AppError::BucketNotFound(name) => join3(
                "The specified bucket '",
                name.as_str(),
                "' does not exist",
            ),
            AppError::BucketAlreadyExists(name) => join3(
                "The bucket '",
                name.as_str(),
                "' already exists",
            ),
            AppError::ObjectNotFound { bucket, key } => {
                let mut s = join3(
                    "The specified key '",
                    key.as_str(),
                    "' does not exist in bucket '",
                );
                s.append(bucket.as_str());
                s.append("'");
                s
            },
            AppError::InvalidBucketName(reason) => join2("Invalid bucket name: ", reason.as_str()),
            AppError::InvalidObjectKey(reason) => join2("Invalid object key: ", reason.as_str()),
            AppError::StorageError(message) => join2("Storage error: ", message.as_str()),
            AppError::IoError(message) => join2("I/O error: ", message.as_str()),
        }
    }
}

/// The one-line text a command-line front end prints for `e`.
pub fn format_error(e: &AppError) -> (line: String)
    ensures
        line@ == error_line(e@),
{
    match e {
        AppError::BucketNotFound(name) => join3("Bucket '", name.as_str(), "' not found"),
        AppError::BucketAlreadyExists(name) => join3("Bucket '", name.as_str(), "' already exists"),
        AppError::ObjectNotFound { bucket, key } => {
            let mut s = join3("Object '", bucket.as_str(), "/");
            s.append(key.as_str());
            s.append("' not found");
            s
        },
        AppError::InvalidBucketName(reason) => join2("Invalid bucket name: ", reason.as_str()),
        AppError::InvalidObjectKey(reason) => join2("Invalid key: ", reason.as_str()),
        AppError::StorageError(message) => join2("Storage error: ", message.as_str()),
        AppError::IoError(message) => join2("I/O error: ", message.as_str()),
    }
}

} // verus!
