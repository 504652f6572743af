//! The storage engine: the bucket index and the operations on buckets and
//! objects.
//!
//! The engine decides and keeps the index; its caller reads and writes the
//! disk. An operation takes what the caller found on disk (whether a file is
//! there, what it holds, how many entries a directory has) and returns what
//! is to be written or removed, or the error that the caller passes on.

use vstd::prelude::*;
use vstd::string::*;
use crate::cleanup::{cleanup_empty_dirs, parent_dirs, DirCleanup};
use crate::clock::current_time;
use crate::error::{AppError, ErrorView};
use crate::index::{bucket_views, fresh_bucket, sum_objects, sum_sizes, with_stats, IndexModel};
use crate::listing::{
    assemble_listing, folded_prefixes, leaf_keys, listed_objects, listed_prefixes, select_keys,
    KeySelection,
};
use crate::models::{
    pairs_view, Bucket, BucketView, ListObjectsResponse, ObjectMeta, ObjectMetaView, StorageStats,
    Timestamp,
};
use crate::naming::{
    bucket_name_fault, check_bucket_name, check_object_key, object_key_fault, valid_bucket_name,
    valid_object_key,
};
use crate::objects::{
    describe_object, found_bytes, found_text, meta_outcome, new_meta, object_meta_result,
    object_outcome, read_object_meta, read_object_meta_at, StoredObjectMeta,
    StoredObjectMetaView,
};
use crate::paths::{
    bucket_dir, bucket_meta_file, bucket_meta_path, bucket_path, object_file, object_meta_file,
    object_meta_path, object_path, objects_dir, objects_path,
};
use crate::scan::{
    adopted, create_bucket_meta_at, found_views, is_bucket_dir, scanned, unwritten, FoundDir,
    StoredBucket,
};
use crate::size::{human_readable_size, human_size};
use crate::sorting::{arranges, goes_before, in_key_order, sort_by_key, stable_sort_of, Keyed};
use crate::text::{str_eq, texts};

verus! {

/// The storage engine: the root directory of the store, and the index of its
/// buckets.
pub struct StorageEngine {
    root: String,
    names: Vec<String>,
    buckets: Vec<Bucket>,
}

impl View for StorageEngine {
    type V = IndexModel;

    closed spec fn view(&self) -> IndexModel {
        IndexModel { names: texts(self.names@), descriptors: bucket_views(self.buckets@) }
    }
}

/// The error with which a bucket cannot be created under `name`: the fault of
/// the name, or else that the bucket exists.
pub open spec fn create_bucket_error(name: Seq<char>) -> ErrorView {
    if valid_bucket_name(name) {
        ErrorView::BucketAlreadyExists(name)
    } else {
        ErrorView::InvalidBucketName(bucket_name_fault(name)->Some_0)
    }
}

/// The error with which a bucket cannot be deleted: that it is unknown, or
/// else that it still holds objects.
pub open spec fn delete_bucket_error(index: IndexModel, name: Seq<char>) -> ErrorView {
    if !index.has(name) {
        ErrorView::BucketNotFound(name)
    } else {
        ErrorView::StorageError("Bucket is not empty. Delete all objects first."@)
    }
}

/// The error with which an object cannot be put: that the bucket is unknown,
/// or else that the key is not valid.
pub open spec fn put_object_error(index: IndexModel, bucket: Seq<char>) -> ErrorView {
    if !index.has(bucket) {
        ErrorView::BucketNotFound(bucket)
    } else {
        ErrorView::InvalidObjectKey(object_key_fault())
    }
}

/// The error with which an object cannot be reached: that the bucket is
/// unknown, or else that the object is.
pub open spec fn missing_error(index: IndexModel, bucket: Seq<char>, key: Seq<char>) -> ErrorView {
    if !index.has(bucket) {
        ErrorView::BucketNotFound(bucket)
    } else {
        ErrorView::ObjectNotFound { bucket, key }
    }
}

/// What reading an object gives, from what was found on disk: `data` is the
/// content of the object's file, `None` where there is no such file. The
/// bucket must be known and the file be there; the bytes are returned as
/// found, with the object's metadata.
pub open spec fn get_object_result(
    index: IndexModel,
    bucket: Seq<char>,
    key: Seq<char>,
    data: Option<Seq<u8>>,
    stored: StoredObjectMetaView,
    now: Timestamp,
) -> Result<(ObjectMetaView, Seq<u8>), ErrorView> {
    if !index.has(bucket) {
        Err(ErrorView::BucketNotFound(bucket))
    } else {
        match data {
            None => Err(ErrorView::ObjectNotFound { bucket, key }),
            Some(bytes) => match object_meta_result(bucket, key, stored, Some(bytes), now) {
                Ok(meta) => Ok((meta, bytes)),
                Err(e) => Err(e),
            },
        }
    }
}

/// What putting an object gives: the bucket must be known and the key valid;
/// the metadata of the new object is returned.
pub open spec fn put_object_result(
    index: IndexModel,
    bucket: Seq<char>,
    key: Seq<char>,
    data: Seq<u8>,
    content_type: Option<Seq<char>>,
    metadata: Seq<(Seq<char>, Seq<char>)>,
    now: Timestamp,
) -> Result<ObjectMetaView, ErrorView> {
    if index.has(bucket) && valid_object_key(key) {
        Ok(new_meta(bucket, key, data, content_type, metadata, now))
    } else {
        Err(put_object_error(index, bucket))
    }
}

/// The view of the bytes that the caller found, if any.
pub open spec fn found_content(data: Option<Vec<u8>>) -> Option<Seq<u8>> {
    match data {
        Some(bytes) => Some(bytes@),
        None => None,
    }
}

/// The sum of a list of file sizes.
pub open spec fn sum_bytes(sizes: Seq<u64>) -> nat
    decreases sizes.len(),
{
    if sizes.len() == 0 {
        0
    } else {
        sum_bytes(sizes.drop_last()) + sizes.last() as nat
    }
}

proof fn lemma_sum_bytes_grows(sizes: Seq<u64>, i: int)
    requires
        0 <= i <= sizes.len(),
    ensures
        sum_bytes(sizes.take(i)) <= sum_bytes(sizes),
    decreases sizes.len() - i,
{
    if i < sizes.len() {
        lemma_sum_bytes_grows(sizes, i + 1);
        assert(sizes.take(i + 1).drop_last() =~= sizes.take(i));
    } else {
        assert(sizes.take(i) =~= sizes);
    }
}

proof fn lemma_sorted_views(input: Seq<Bucket>, out: Seq<Bucket>)
    requires
        stable_sort_of(input, out),
    ensures
        stable_sort_of(bucket_views(input), bucket_views(out)),
{
    let p = choose|p: Seq<int>| #[trigger] arranges(input, out, p) && in_key_order(out, p);
    assert(arranges(bucket_views(input), bucket_views(out), p)) by {
        assert forall|i: int| 0 <= i < p.len() implies #[trigger] bucket_views(out)[i]
            == bucket_views(input)[p[i]] by {
            assert(out[i] == input[p[i]]);
        }
    }
    assert forall|i: int, j: int|
        0 <= i < j < bucket_views(out).len() && j < p.len() implies goes_before(
        #[trigger] bucket_views(out)[i].key(),
        p[i],
        #[trigger] bucket_views(out)[j].key(),
        p[j],
    ) by {
        assert(goes_before(out[i].key(), p[i], out[j].key(), p[j]));
    }
}

impl StorageEngine {
    /// The root directory of the store.
    pub closed spec fn root_dir(&self) -> Seq<char> {
        self.root@
    }

    /// The index is well formed.
    pub open spec fn wf(&self) -> bool {
        self@.wf()
    }

    /// An engine for the store under `root`, with no bucket in its index yet.
    pub fn new(root: &str) -> (engine: Self)
        ensures
            engine.wf(),
            engine@ == IndexModel::empty(),
            engine.root_dir() == root@,
    {
        let engine = StorageEngine { root: root.to_owned(), names: Vec::new(), buckets: Vec::new() };
        assert(engine@.names =~= Seq::<Seq<char>>::empty());
        assert(engine@.descriptors =~= IndexModel::empty().descriptors);
        engine
    }

    /// The root directory of the store.
    pub fn data_dir(&self) -> (root: &str)
        ensures
            root@ == self.root_dir(),
    {
        self.root.as_str()
    }

    fn find(&self, name: &str) -> (found: Option<usize>)
        requires
            self.wf(),
        ensures
            match found {
                Some(i) => i < self.names.len() && self.names@[i as int]@ == name@ && self@.has(
                    name@,
                ) && self@.position(name@) == i,
                None => !self@.has(name@),
            },
    {
        let mut i: usize = 0;
        while i < self.names.len()
            invariant
                self.wf(),
                i <= self.names.len(),
                forall|j: int| 0 <= j < i ==> self@.names[j] != name@,
            decreases self.names.len() - i,
        {
            if str_eq(self.names[i].as_str(), name) {
                proof {
                    assert(self@.names[i as int] == name@);
                    self@.lemma_position(name@, i as int);
                }
                return Some(i);
            }
            i += 1;
        }
        proof {
            if self@.has(name@) {
                let j = self@.names.index_of(name@);
                assert(0 <= j < self@.names.len() && self@.names[j] == name@);
            }
        }
        None
    }

    /// Whether a bucket is known under `name`.
    pub fn has_bucket(&self, name: &str) -> (known: bool)
        requires
            self.wf(),
        ensures
            known == self@.has(name@),
    {
        self.find(name).is_some()
    }

    /// Checks a bucket name: 3 to 63 characters, each a lowercase letter, a
    /// digit, a hyphen or a period, no hyphen at either end.
    pub fn validate_bucket_name(name: &str) -> (r: Result<(), AppError>)
        ensures
            r is Ok <==> valid_bucket_name(name@),
            match r {
                Ok(_) => bucket_name_fault(name@) is None,
                Err(e) => bucket_name_fault(name@) is Some && e@ == ErrorView::InvalidBucketName(
                    bucket_name_fault(name@)->Some_0,
                ),
            },
    {
        check_bucket_name(name)
    }

    /// Creates the bucket `name` in `region` at the time `now`: the name must
    /// be valid and not known yet. The new descriptor, with nothing in it,
    /// goes into the index and is returned for the caller to write to disk
    /// beside the bucket's directories. On an error the index stays as it
    /// was.
    pub fn create_bucket_at(&mut self, name: &str, region: &str, now: Timestamp) -> (r: Result<
        Bucket,
        AppError,
    >)
        requires
            old(self).wf(),
        ensures
            final(self).wf(),
            final(self).root_dir() == old(self).root_dir(),
            r is Ok <==> valid_bucket_name(name@) && !old(self)@.has(name@),
            match r {
                Ok(b) => b@ == fresh_bucket(name@, region@, now) && final(self)@ == old(self)@.put(
                    name@,
                    b@,
                ),
                Err(e) => final(self)@ == old(self)@ && e@ == create_bucket_error(name@),
            },
            r is Ok ==> final(self)@.has(name@) && final(self)@.get(name@) == r->Ok_0@,
    {
        match check_bucket_name(name) {
            Err(e) => {
                return Err(e);
            },
            Ok(_) => {},
        }
        if self.find(name).is_some() {
            return Err(AppError::BucketAlreadyExists(name.to_owned()));
        }
        let bucket = Bucket {
            name: name.to_owned(),
            created_at: now,
            region: region.to_owned(),
            object_count: 0,
            total_size: 0,
        };
        let ghost before = self@;
        self.names.push(name.to_owned());
        self.buckets.push(bucket.clone());
        proof {
            before.lemma_put(name@, bucket@);
            assert(self@.names =~= before.put(name@, bucket@).names);
            assert(self@.descriptors =~= before.put(name@, bucket@).descriptors);
        }
        Ok(bucket)
    }

    /// The descriptors of all buckets, sorted by name in ascending byte
    /// order.
    pub fn list_buckets(&self) -> (list: Vec<Bucket>)
        requires
            self.wf(),
        ensures
            stable_sort_of(self@.descriptors, bucket_views(list@)),
    {
        let mut copies: Vec<Bucket> = Vec::new();
        let mut i: usize = 0;
        while i < self.buckets.len()
            invariant
                i <= self.buckets.len(),
                copies@ == self.buckets@.take(i as int),
            decreases self.buckets.len() - i,
        {
            copies.push(self.buckets[i].clone());
            assert(self.buckets@.take(i + 1) =~= self.buckets@.take(i as int).push(
                self.buckets@[i as int],
            ));
            i += 1;
        }
        assert(self.buckets@.take(self.buckets.len() as int) =~= self.buckets@);
        let list = sort_by_key(copies);
        proof {
            lemma_sorted_views(self.buckets@, list@);
        }
        list
    }

    /// The descriptor of the bucket `name`.
    pub fn get_bucket(&self, name: &str) -> (r: Result<Bucket, AppError>)
        requires
            self.wf(),
        ensures
            match r {
                Ok(b) => self@.has(name@) && b@ == self@.get(name@),
                Err(e) => !self@.has(name@) && e@ == ErrorView::BucketNotFound(name@),
            },
    {
        match self.find(name) {
            Some(i) => Ok(self.buckets[i].clone()),
            None => Err(AppError::BucketNotFound(name.to_owned())),
        }
    }

    /// Deletes the bucket `name`, which must be known and empty:
    /// `object_entries` is the number of entries the caller found in the
    /// bucket's objects directory. On success the bucket leaves the index,
    /// and the caller removes its directory; on an error the index stays as
    /// it was.
    pub fn delete_bucket(&mut self, name: &str, object_entries: u64) -> (r: Result<(), AppError>)
        requires
            old(self).wf(),
        ensures
            final(self).wf(),
            final(self).root_dir() == old(self).root_dir(),
            r is Ok <==> old(self)@.has(name@) && object_entries == 0,
            match r {
                Ok(_) => final(self)@ == old(self)@.without(name@),
                Err(e) => final(self)@ == old(self)@ && e@ == delete_bucket_error(
                    old(self)@,
                    name@,
                ),
            },
            r is Ok ==> !final(self)@.has(name@),
    {
        match self.find(name) {
            None => Err(AppError::BucketNotFound(name.to_owned())),
            Some(i) => {
                if object_entries > 0 {
                    return Err(
                        AppError::StorageError(
                            "Bucket is not empty. Delete all objects first.".to_owned(),
                        ),
                    );
                }
                let ghost before = self@;
                self.names.remove(i);
                self.buckets.remove(i);
                proof {
                    before.lemma_without(name@);
                    assert(self@.names =~= before.without(name@).names);
                    assert(self@.descriptors =~= before.without(name@).descriptors);
                }
                Ok(())
            },
        }
    }

    /// Sets the aggregates of the bucket `bucket_name` to what the caller
    /// counted on disk. Returns the new descriptor for the caller to write
    /// to disk, or `None`, with the index as it was, for an unknown bucket.
    pub fn update_bucket_stats(&mut self, bucket_name: &str, count: u64, size: u64) -> (updated:
        Option<Bucket>)
        requires
            old(self).wf(),
        ensures
            final(self).wf(),
            final(self).root_dir() == old(self).root_dir(),
            match updated {
                Some(b) => old(self)@.has(bucket_name@) && b@ == with_stats(
                    old(self)@.get(bucket_name@),
                    count,
                    size,
                ) && final(self)@ == old(self)@.put(bucket_name@, b@) && final(self)@.get(
                    bucket_name@,
                ) == b@,
                None => !old(self)@.has(bucket_name@) && final(self)@ == old(self)@,
            },
    {
        match self.find(bucket_name) {
            None => None,
            Some(i) => {
                let ghost before = self@;
                let mut bucket = self.buckets[i].clone();
                bucket.object_count = count;
                bucket.total_size = size;
                self.buckets.set(i, bucket.clone());
                proof {
                    before.lemma_put(bucket_name@, bucket@);
                    assert(self@.names =~= before.put(bucket_name@, bucket@).names);
                    assert(self@.descriptors =~= before.put(bucket_name@, bucket@).descriptors);
                }
                Some(bucket)
            },
        }
    }

    /// The number of files and the sum of their sizes, from the sizes of the
    /// files found below a bucket's objects directory; `None` where the sum
    /// does not fit the counter.
    pub fn try_dir_stats(sizes: &Vec<u64>) -> (stats: Option<(u64, u64)>)
        ensures
            match stats {
                Some((count, size)) => count == sizes.len() && size == sum_bytes(sizes@),
                None => sum_bytes(sizes@) > u64::MAX,
            },
    {
        let mut size: u64 = 0;
        let mut i: usize = 0;
        assert(sizes@.take(0) =~= Seq::<u64>::empty());
        while i < sizes.len()
            invariant
                i <= sizes.len(),
                size == sum_bytes(sizes@.take(i as int)),
            decreases sizes.len() - i,
        {
            proof {
                lemma_sum_bytes_grows(sizes@, i + 1);
                assert(sizes@.take(i + 1).drop_last() =~= sizes@.take(i as int));
            }
            if size > u64::MAX - sizes[i] {
                return None;
            }
            size = size + sizes[i];
            i += 1;
        }
        assert(sizes@.take(sizes.len() as int) =~= sizes@);
        Some((sizes.len() as u64, size))
    }

    /// The number of files and the sum of their sizes, from the sizes of the
    /// files found below a bucket's objects directory.
    pub fn dir_stats(sizes: &Vec<u64>) -> (stats: (u64, u64))
        requires
            sum_bytes(sizes@) <= u64::MAX,
        ensures
            stats.0 == sizes.len(),
            stats.1 == sum_bytes(sizes@),
    {
        Self::try_dir_stats(sizes).unwrap()
    }

    fn totals(&self) -> (sums: Option<(u64, u64)>)
        ensures
            match sums {
                Some((objects, size)) => objects == self@.total_objects() && size
                    == self@.total_size(),
                None => self@.total_objects() > u64::MAX || self@.total_size() > u64::MAX,
            },
    {
        let ghost all = self@.descriptors;
        let mut objects: u64 = 0;
        let mut size: u64 = 0;
        let mut i: usize = 0;
        assert(all.take(0) =~= Seq::empty());
        while i < self.buckets.len()
            invariant
                i <= self.buckets.len(),
                all == self@.descriptors,
                all.len() == self.buckets.len(),
                objects == sum_objects(all.take(i as int)),
                size == sum_sizes(all.take(i as int)),
            decreases self.buckets.len() - i,
        {
            let b = &self.buckets[i];
            proof {
                assert(all.take(i + 1).drop_last() =~= all.take(i as int));
                assert(all.take(i + 1).last() == b@);
                lemma_totals_grow(all, i + 1);
            }
            if objects > u64::MAX - b.object_count || size > u64::MAX - b.total_size {
                return None;
            }
            objects = objects + b.object_count;
            size = size + b.total_size;
            i += 1;
        }
        assert(all.take(all.len() as int) =~= all);
        Some((objects, size))
    }

    /// Whether the totals over all buckets fit the counters of the
    /// statistics.
    pub fn totals_fit(&self) -> (fit: bool)
        ensures
            fit == (self@.total_objects() <= u64::MAX && self@.total_size() <= u64::MAX),
    {
        self.totals().is_some()
    }

    /// The statistics of the store: the number of buckets, the objects and
    /// bytes in all of them, and the bytes in words.
    pub fn get_stats(&self) -> (stats: StorageStats)
        requires
            self@.total_objects() <= u64::MAX,
            self@.total_size() <= u64::MAX,
        ensures
            stats.total_buckets == self@.descriptors.len(),
            stats.total_objects == self@.total_objects(),
            stats.total_size == self@.total_size(),
            stats.total_size_human@ == human_size(self@.total_size()),
    {
        let (total_objects, total_size) = self.totals().unwrap();
        StorageStats {
            total_buckets: self.buckets.len() as u64,
            total_objects,
            total_size,
            total_size_human: human_readable_size(total_size),
        }
    }
}

proof fn lemma_totals_grow(all: Seq<BucketView>, i: int)
    requires
        0 <= i <= all.len(),
    ensures
        sum_objects(all.take(i)) <= sum_objects(all),
        sum_sizes(all.take(i)) <= sum_sizes(all),
    decreases all.len() - i,
{
    if i < all.len() {
        lemma_totals_grow(all, i + 1);
        assert(all.take(i + 1).drop_last() =~= all.take(i));
    } else {
        assert(all.take(i) =~= all);
    }
}

impl StorageEngine {
    /// The directory of the bucket `name`.
    pub fn bucket_path(&self, name: &str) -> (path: String)
        ensures
            path@ == bucket_dir(self.root_dir(), name@),
    {
        bucket_path(self.root.as_str(), name)
    }

    /// The file that holds the descriptor of the bucket `name`.
    pub fn bucket_meta_path(&self, name: &str) -> (path: String)
        ensures
            path@ == bucket_meta_file(self.root_dir(), name@),
    {
        bucket_meta_path(self.root.as_str(), name)
    }

    /// The directory that holds the objects of the bucket `name`.
    pub fn objects_path(&self, name: &str) -> (path: String)
        ensures
            path@ == objects_dir(self.root_dir(), name@),
    {
        objects_path(self.root.as_str(), name)
    }

    /// The file that holds the bytes of the object `key` of `bucket`.
    pub fn object_path(&self, bucket: &str, key: &str) -> (path: String)
        ensures
            path@ == object_file(self.root_dir(), bucket@, key@),
    {
        object_path(self.root.as_str(), bucket, key)
    }

    /// The file that holds the metadata of the object `key` of `bucket`.
    pub fn object_meta_path(&self, bucket: &str, key: &str) -> (path: String)
        ensures
            path@ == object_meta_file(self.root_dir(), bucket@, key@),
    {
        object_meta_path(self.root.as_str(), bucket, key)
    }

    /// Makes `bucket` the descriptor known under `name`, in the place of what
    /// was known under that name or else as a new entry: for a bucket found
    /// on disk, and for the caller that puts back what a failed disk
    /// operation left unchanged.
    pub fn adopt_bucket(&mut self, name: &str, bucket: Bucket)
        requires
            old(self).wf(),
        ensures
            final(self).wf(),
            final(self).root_dir() == old(self).root_dir(),
            final(self)@ == old(self)@.put(name@, bucket@),
            final(self)@.has(name@),
            final(self)@.get(name@) == bucket@,
    {
        let ghost before = self@;
        proof {
            before.lemma_put(name@, bucket@);
        }
        match self.find(name) {
            Some(i) => {
                self.buckets.set(i, bucket);
            },
            None => {
                self.names.push(name.to_owned());
                self.buckets.push(bucket);
            },
        }
        proof {
            assert(self@.names =~= before.put(name@, bucket@).names);
            assert(self@.descriptors =~= before.put(name@, bucket@).descriptors);
        }
    }

    /// The descriptor of a bucket found on disk without one; it is dated by
    /// the system clock.
    pub fn create_bucket_meta(name: &str) -> (bucket: Bucket)
        ensures
            bucket@ == fresh_bucket(name@, "local"@, bucket@.created_at),
    {
        create_bucket_meta_at(name, current_time())
    }

    /// Takes the entries `found` in the root directory into the index, at the
    /// time `now`: each directory whose name does not start with a period
    /// becomes a bucket, with its stored descriptor or else a fresh one.
    /// Returns the fresh descriptors of the buckets that had none stored,
    /// for the caller to write to disk.
    pub fn scan_buckets_at(&mut self, found: &Vec<FoundDir>, now: Timestamp) -> (fresh: Vec<Bucket>)
        requires
            old(self).wf(),
        ensures
            final(self).wf(),
            final(self).root_dir() == old(self).root_dir(),
            final(self)@ == scanned(old(self)@, found_views(found@), now),
            bucket_views(fresh@) == unwritten(found_views(found@), now),
    {
        let ghost all = found_views(found@);
        let ghost start = self@;
        let mut fresh: Vec<Bucket> = Vec::new();
        let mut i: usize = 0;
        proof {
            assert(all.take(0) =~= Seq::empty());
            assert(bucket_views(fresh@) =~= unwritten(all.take(0), now));
        }
        while i < found.len()
            invariant
                i <= found.len(),
                all == found_views(found@),
                self.wf(),
                self.root_dir() == old(self).root_dir(),
                self@ == scanned(start, all.take(i as int), now),
                bucket_views(fresh@) == unwritten(all.take(i as int), now),
            decreases found.len() - i,
        {
            let entry = &found[i];
            proof {
                assert(all.take(i + 1).drop_last() =~= all.take(i as int));
                assert(all.take(i + 1).last() == entry@);
            }
            if is_bucket_dir(entry.name.as_str(), entry.is_dir) {
                let ghost listed = fresh@;
                let bucket = match &entry.meta {
                    StoredBucket::Loaded(b) => b.clone(),
                    StoredBucket::Corrupt => create_bucket_meta_at(entry.name.as_str(), now),
                    StoredBucket::Missing => {
                        let b = create_bucket_meta_at(entry.name.as_str(), now);
                        fresh.push(b.clone());
                        b
                    },
                };
                proof {
                    assert(bucket@ == adopted(entry@, now));
                    if entry.meta is Missing {
                        assert(bucket_views(fresh@) =~= bucket_views(listed).push(bucket@));
                    }
                }
                self.adopt_bucket(entry.name.as_str(), bucket);
            }
            i += 1;
        }
        proof {
            assert(all.take(found.len() as int) =~= all);
        }
        fresh
    }

    /// Takes the entries `found` in the root directory into the index; fresh
    /// descriptors are dated by the system clock.
    pub fn scan_buckets(&mut self, found: &Vec<FoundDir>) -> (fresh: Vec<Bucket>)
        requires
            old(self).wf(),
        ensures
            final(self).wf(),
            final(self).root_dir() == old(self).root_dir(),
            exists|now: Timestamp|
                final(self)@ == #[trigger] scanned(old(self)@, found_views(found@), now)
                    && bucket_views(fresh@) == unwritten(found_views(found@), now),
    {
        let now = current_time();
        self.scan_buckets_at(found, now)
    }

    /// Creates the bucket `name` in `region`, dated by the system clock: the
    /// name must be valid and not known yet. The new descriptor goes into
    /// the index and is returned for the caller to write to disk beside the
    /// bucket's directories. On an error the index stays as it was.
    pub fn create_bucket(&mut self, name: &str, region: &str) -> (r: Result<Bucket, AppError>)
        requires
            old(self).wf(),
        ensures
            final(self).wf(),
            final(self).root_dir() == old(self).root_dir(),
            r is Ok <==> valid_bucket_name(name@) && !old(self)@.has(name@),
            match r {
                Ok(b) => b@ == fresh_bucket(name@, region@, b@.created_at) && final(self)@ == old(
                    self,
                )@.put(name@, b@),
                Err(e) => final(self)@ == old(self)@ && e@ == create_bucket_error(name@),
            },
            r is Ok ==> final(self)@.has(name@) && final(self)@.get(name@) == r->Ok_0@,
    {
        let now = current_time();
        self.create_bucket_at(name, region, now)
    }

    /// Describes the object that the caller is about to write under `key`
    /// into `bucket` at the time `now`: the bucket must be known, the key not
    /// empty and at most 1024 bytes long. The caller writes `data` and the
    /// returned metadata to disk and refreshes the bucket's aggregates.
    pub fn put_object_at(
        &self,
        bucket: &str,
        key: &str,
        data: &[u8],
        content_type: Option<&str>,
        metadata: Vec<(String, String)>,
        now: Timestamp,
    ) -> (r: Result<ObjectMeta, AppError>)
        requires
            self.wf(),
        ensures
            meta_outcome(r) == put_object_result(
                self@,
                bucket@,
                key@,
                data@,
                found_text(content_type),
                pairs_view(metadata@),
                now,
            ),
    {
        if self.find(bucket).is_none() {
            return Err(AppError::BucketNotFound(bucket.to_owned()));
        }
        match check_object_key(key) {
            Err(e) => Err(e),
            Ok(_) => Ok(describe_object(bucket, key, data, content_type, metadata, now)),
        }
    }

    /// Describes the object that the caller is about to write under `key`
    /// into `bucket`; it is dated by the system clock.
    pub fn put_object(
        &self,
        bucket: &str,
        key: &str,
        data: &[u8],
        content_type: Option<&str>,
        metadata: Vec<(String, String)>,
    ) -> (r: Result<ObjectMeta, AppError>)
        requires
            self.wf(),
        ensures
            exists|now: Timestamp|
                meta_outcome(r) == #[trigger] put_object_result(
                    self@,
                    bucket@,
                    key@,
                    data@,
                    found_text(content_type),
                    pairs_view(metadata@),
                    now,
                ),
    {
        let now = current_time();
        self.put_object_at(bucket, key, data, content_type, metadata, now)
    }

    /// Hands out the object `key` of `bucket` at the time `now`, from what
    /// the caller found on disk: `data` is the whole content of the object's
    /// file, `None` where there is no such file; `stored` is what was found
    /// of its metadata.
    pub fn get_object_at(
        &self,
        bucket: &str,
        key: &str,
        data: Option<Vec<u8>>,
        stored: StoredObjectMeta,
        now: Timestamp,
    ) -> (r: Result<(ObjectMeta, Vec<u8>), AppError>)
        requires
            self.wf(),
        ensures
            object_outcome(r) == get_object_result(
                self@,
                bucket@,
                key@,
                found_content(data),
                stored@,
                now,
            ),
    {
        if self.find(bucket).is_none() {
            return Err(AppError::BucketNotFound(bucket.to_owned()));
        }
        match data {
            None => Err(AppError::ObjectNotFound { bucket: bucket.to_owned(), key: key.to_owned() }),
            Some(bytes) => {
                match read_object_meta_at(bucket, key, stored, Some(bytes.as_slice()), now) {
                    Ok(meta) => Ok((meta, bytes)),
                    Err(e) => Err(e),
                }
            },
        }
    }

    /// Hands out the object `key` of `bucket`, from what the caller found on
    /// disk; metadata that has to be made up is dated by the system clock.
    pub fn get_object(
        &self,
        bucket: &str,
        key: &str,
        data: Option<Vec<u8>>,
        stored: StoredObjectMeta,
    ) -> (r: Result<(ObjectMeta, Vec<u8>), AppError>)
        requires
            self.wf(),
        ensures
            exists|now: Timestamp|
                object_outcome(r) == #[trigger] get_object_result(
                    self@,
                    bucket@,
                    key@,
                    found_content(data),
                    stored@,
                    now,
                ),
    {
        let now = current_time();
        self.get_object_at(bucket, key, data, stored, now)
    }

    /// The metadata of the object `key` of `bucket` at the time `now`, from
    /// what the caller found on disk: the stored metadata, or, where there is
    /// none, metadata made up from the object's bytes.
    pub fn get_object_meta_at(
        &self,
        bucket: &str,
        key: &str,
        stored: StoredObjectMeta,
        data: Option<&[u8]>,
        now: Timestamp,
    ) -> (r: Result<ObjectMeta, AppError>)
        ensures
            meta_outcome(r) == object_meta_result(bucket@, key@, stored@, found_bytes(data), now),
    {
        read_object_meta_at(bucket, key, stored, data, now)
    }

    /// The metadata of the object `key` of `bucket`, from what the caller
    /// found on disk; metadata that has to be made up is dated by the system
    /// clock.
    pub fn get_object_meta(
        &self,
        bucket: &str,
        key: &str,
        stored: StoredObjectMeta,
        data: Option<&[u8]>,
    ) -> (r: Result<ObjectMeta, AppError>)
        ensures
            exists|now: Timestamp|
                meta_outcome(r) == #[trigger] object_meta_result(
                    bucket@,
                    key@,
                    stored@,
                    found_bytes(data),
                    now,
                ),
    {
        read_object_meta(bucket, key, stored, data)
    }

    /// Clears the object `key` of `bucket` for deletion: the bucket must be
    /// known, and the object's file be there, which `exists` tells. The
    /// caller removes the file and its metadata, follows the returned walk up
    /// the directories that the object leaves empty, and refreshes the
    /// bucket's aggregates.
    pub fn delete_object(&self, bucket: &str, key: &str, exists: bool) -> (r: Result<
        DirCleanup,
        AppError,
    >)
        requires
            self.wf(),
        ensures
            r is Ok <==> self@.has(bucket@) && exists,
            match r {
                Ok(walk) => walk.wf() && walk.candidates() == parent_dirs(key@) && walk.position()
                    == 0,
                Err(e) => e@ == missing_error(self@, bucket@, key@),
            },
    {
        if self.find(bucket).is_none() {
            return Err(AppError::BucketNotFound(bucket.to_owned()));
        }
        if !exists {
            return Err(
                AppError::ObjectNotFound { bucket: bucket.to_owned(), key: key.to_owned() },
            );
        }
        Ok(cleanup_empty_dirs(key))
    }

    /// Sorts the paths `found` below the objects directory of `bucket` into
    /// the keys that a listing under `prefix` shows as objects and the common
    /// prefixes that stand for the keys folded at `delimiter`. The caller
    /// reads the metadata of the keys shown.
    pub fn walk_objects(
        &self,
        bucket: &str,
        found: &Vec<String>,
        prefix: &str,
        delimiter: Option<&str>,
    ) -> (r: Result<KeySelection, AppError>)
        requires
            self.wf(),
        ensures
            r is Ok <==> self@.has(bucket@),
            match r {
                Ok(selection) => texts(selection.leaf_keys@) == leaf_keys(
                    found@,
                    prefix@,
                    found_text(delimiter),
                ) && texts(selection.common_prefixes@) == folded_prefixes(
                    found@,
                    prefix@,
                    found_text(delimiter),
                ),
                Err(e) => e@ == ErrorView::BucketNotFound(bucket@),
            },
    {
        if self.find(bucket).is_none() {
            return Err(AppError::BucketNotFound(bucket.to_owned()));
        }
        Ok(select_keys(found, prefix, delimiter))
    }

    /// The listing of `bucket` under `prefix`, from the metadata of the keys
    /// shown and the common prefixes of the folded ones: objects sorted by
    /// key and cut off after `max_keys`, common prefixes sorted and without
    /// repeats. `is_truncated` tells whether objects were cut off.
    pub fn list_objects(
        &self,
        bucket: &str,
        prefix: &str,
        max_keys: u32,
        objects: Vec<ObjectMeta>,
        common_prefixes: Vec<String>,
    ) -> (r: Result<ListObjectsResponse, AppError>)
        requires
            self.wf(),
        ensures
            r is Ok <==> self@.has(bucket@),
            match r {
                Ok(response) => {
                    &&& response.bucket@ == bucket@
                    &&& response.prefix@ == prefix@
                    &&& response.max_keys == max_keys
                    &&& response.is_truncated == (objects.len() > max_keys)
                    &&& listed_objects(objects@, max_keys, response.objects@)
                    &&& listed_prefixes(common_prefixes@, response.common_prefixes@)
                },
                Err(e) => e@ == ErrorView::BucketNotFound(bucket@),
            },
    {
        if self.find(bucket).is_none() {
            return Err(AppError::BucketNotFound(bucket.to_owned()));
        }
        Ok(assemble_listing(bucket, prefix, max_keys, objects, common_prefixes))
    }
}

} // verus!
