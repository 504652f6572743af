//! What a look at the root directory makes of the index.
//!
//! Every subdirectory of the root whose name does not start with a period is
//! a bucket. Its stored descriptor is taken as it is. Where none is stored,
//! a fresh one is made and is to be written; where the stored one cannot be
//! read back, a fresh one is made for the index alone.

use vstd::prelude::*;
use vstd::string::*;
use crate::index::{fresh_bucket, IndexModel};
use crate::models::{Bucket, BucketView, Timestamp};

verus! {

/// What the caller found of a bucket's stored descriptor.
#[derive(Debug)]
pub enum StoredBucket {
    /// There is no descriptor file.
    Missing,
    /// The descriptor file cannot be read back.
    Corrupt,
    /// The descriptor as stored.
    Loaded(Bucket),
}

/// A [`StoredBucket`] with its texts as sequences of characters.
pub enum StoredBucketView {
    Missing,
    Corrupt,
    Loaded(BucketView),
}

impl View for StoredBucket {
    type V = StoredBucketView;

    open spec fn view(&self) -> StoredBucketView {
        match self {
            StoredBucket::Missing => StoredBucketView::Missing,
            StoredBucket::Corrupt => StoredBucketView::Corrupt,
            StoredBucket::Loaded(b) => StoredBucketView::Loaded(b@),
        }
    }
}

/// An entry of the root directory, as the caller found it.
#[derive(Debug)]
pub struct FoundDir {
    /// The entry's name.
    pub name: String,
    /// Whether the entry is a directory.
    pub is_dir: bool,
    /// The descriptor stored in it; looked at for a bucket only.
    pub meta: StoredBucket,
}

/// A [`FoundDir`] with its texts as sequences of characters.
pub struct FoundDirView {
    pub name: Seq<char>,
    pub is_dir: bool,
    pub meta: StoredBucketView,
}

impl View for FoundDir {
    type V = FoundDirView;

    open spec fn view(&self) -> FoundDirView {
        FoundDirView { name: self.name@, is_dir: self.is_dir, meta: self.meta@ }
    }
}

/// The views of a list of entries.
pub open spec fn found_views(found: Seq<FoundDir>) -> Seq<FoundDirView> {
    Seq::new(found.len(), |i: int| found[i]@)
}

/// Whether an entry of the root directory is a bucket: a directory whose
/// name does not start with a period.
pub open spec fn is_bucket_entry(name: Seq<char>, is_dir: bool) -> bool {
    is_dir && !(name.len() > 0 && name[0] == '.')
}

/// The descriptor that the index takes for a bucket found on disk at the
/// time `now`: the stored one, or a fresh one in the region `local`.
pub open spec fn adopted(entry: FoundDirView, now: Timestamp) -> BucketView {
    match entry.meta {
        StoredBucketView::Loaded(b) => b,
        _ => fresh_bucket(entry.name, "local"@, now),
    }
}

/// The index after the entries `found` have been taken in, in their order,
/// at the time `now`.
pub open spec fn scanned(index: IndexModel, found: Seq<FoundDirView>, now: Timestamp) -> IndexModel
    decreases found.len(),
{
    if found.len() == 0 {
        index
    } else {
        let before = scanned(index, found.drop_last(), now);
        let entry = found.last();
        if is_bucket_entry(entry.name, entry.is_dir) {
            before.put(entry.name, adopted(entry, now))
        } else {
            before
        }
    }
}

/// The descriptors that are to be written after the entries `found` have
/// been taken in: a fresh one for each bucket without a stored descriptor.
pub open spec fn unwritten(found: Seq<FoundDirView>, now: Timestamp) -> Seq<BucketView>
    decreases found.len(),
{
    if found.len() == 0 {
        Seq::empty()
    } else {
        let before = unwritten(found.drop_last(), now);
        let entry = found.last();
        if is_bucket_entry(entry.name, entry.is_dir) && entry.meta is Missing {
            before.push(adopted(entry, now))
        } else {
            before
        }
    }
}

/// Whether an entry of the root directory is a bucket.
pub fn is_bucket_dir(name: &str, is_dir: bool) -> (yes: bool)
    ensures
        yes == is_bucket_entry(name@, is_dir),
{
    is_dir && !(!name.is_empty() && name.get_char(0) == '.')
}

/// The descriptor of a bucket found on disk without one: nothing in it, in
/// the region `local`, dated `now`.
pub fn create_bucket_meta_at(name: &str, now: Timestamp) -> (bucket: Bucket)
    ensures
        bucket@ == fresh_bucket(name@, "local"@, now),
{
    Bucket {
        name: name.to_owned(),
        created_at: now,
        region: "local".to_owned(),
        object_count: 0,
        total_size: 0,
    }
}

} // verus!
