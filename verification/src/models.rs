//! The records the store hands out: bucket and object descriptors, listings,
//! statistics, and the requests that collaborators pass in.

use vstd::prelude::*;
use vstd::string::*;
use crate::sorting::{Keyed, KeyedRecord};

verus! {

/// A moment in time: whole seconds since the Unix epoch, and the nanoseconds
/// into that second.
#[derive(Clone, Copy, Debug, PartialEq, Eq, Structural)]
pub struct Timestamp {
    pub secs: i64,
    pub nanos: u32,
}

/// A bucket: a named container of objects, with the aggregates of what it
/// holds.
#[derive(Debug, PartialEq, Eq)]
pub struct Bucket {
    pub name: String,
    pub created_at: Timestamp,
    pub region: String,
    pub object_count: u64,
    pub total_size: u64,
}

/// A [`Bucket`] with its texts as sequences of characters.
pub struct BucketView {
    pub name: Seq<char>,
    pub created_at: Timestamp,
    pub region: Seq<char>,
    pub object_count: u64,
    pub total_size: u64,
}

impl View for Bucket {
    type V = BucketView;

    open spec fn view(&self) -> BucketView {
        BucketView {
            name: self.name@,
            created_at: self.created_at,
            region: self.region@,
            object_count: self.object_count,
            total_size: self.total_size,
        }
    }
}

impl Clone for Bucket {
    fn clone(&self) -> (copy: Self)
        ensures
            copy == *self,
    {
        Bucket {
            name: self.name.clone(),
            created_at: self.created_at,
            region: self.region.clone(),
            object_count: self.object_count,
            total_size: self.total_size,
        }
    }
}

impl Keyed for Bucket {
    open spec fn key(&self) -> Seq<char> {
        self.name@
    }
}

impl Keyed for BucketView {
    open spec fn key(&self) -> Seq<char> {
        self.name
    }
}

impl KeyedRecord for Bucket {
    fn key_str(&self) -> (k: &str) {
        self.name.as_str()
    }
}

/// The views of a list of name/value pairs.
pub open spec fn pairs_view(pairs: Seq<(String, String)>) -> Seq<(Seq<char>, Seq<char>)> {
    Seq::new(pairs.len(), |i: int| (pairs[i].0@, pairs[i].1@))
}

/// A copy of a list of name/value pairs.
pub fn clone_pairs(pairs: &Vec<(String, String)>) -> (copy: Vec<(String, String)>)
    ensures
        copy@ == pairs@,
{
    let mut copy: Vec<(String, String)> = Vec::new();
    let mut i: usize = 0;
    while i < pairs.len()
        invariant
            i <= pairs.len(),
            copy@ == pairs@.take(i as int),
        decreases pairs.len() - i,
    {
        let name = pairs[i].0.clone();
        let value = pairs[i].1.clone();
        copy.push((name, value));
        assert(pairs@.take(i + 1) =~= pairs@.take(i as int).push(pairs@[i as int]));
        i += 1;
    }
    assert(pairs@.take(pairs.len() as int) =~= pairs@);
    copy
}

/// What the store knows of one object: where it lives, how large it is, what
/// it holds and when it was last written.
#[derive(Debug, PartialEq, Eq)]
pub struct ObjectMeta {
    pub key: String,
    pub bucket: String,
    pub size: u64,
    pub content_type: String,
    pub etag: String,
    pub last_modified: Timestamp,
    /// Free name/value pairs that came with the object.
    pub metadata: Vec<(String, String)>,
}

/// An [`ObjectMeta`] with its texts as sequences of characters.
pub struct ObjectMetaView {
    pub key: Seq<char>,
    pub bucket: Seq<char>,
    pub size: u64,
    pub content_type: Seq<char>,
    pub etag: Seq<char>,
    pub last_modified: Timestamp,
    pub metadata: Seq<(Seq<char>, Seq<char>)>,
}

impl View for ObjectMeta {
    type V = ObjectMetaView;

    open spec fn view(&self) -> ObjectMetaView {
        ObjectMetaView {
            key: self.key@,
            bucket: self.bucket@,
            size: self.size,
            content_type: self.content_type@,
            etag: self.etag@,
            last_modified: self.last_modified,
            metadata: pairs_view(self.metadata@),
        }
    }
}

impl Clone for ObjectMeta {
    fn clone(&self) -> (copy: Self)
        ensures
            copy@ == self@,
    {
        ObjectMeta {
            key: self.key.clone(),
            bucket: self.bucket.clone(),
            size: self.size,
            content_type: self.content_type.clone(),
            etag: self.etag.clone(),
            last_modified: self.last_modified,
            metadata: clone_pairs(&self.metadata),
        }
    }
}

impl Keyed for ObjectMeta {
    open spec fn key(&self) -> Seq<char> {
        self.key@
    }
}

impl Keyed for ObjectMetaView {
    open spec fn key(&self) -> Seq<char> {
        self.key
    }
}

impl KeyedRecord for ObjectMeta {
    fn key_str(&self) -> (k: &str) {
        self.key.as_str()
    }
}

/// The region a bucket gets when none is asked for.
pub fn default_region() -> (region: String)
    ensures
        region@ == "local"@,
{
    "local".to_owned()
}

/// A request to create a bucket.
#[derive(Debug, PartialEq, Eq)]
pub struct CreateBucketRequest {
    pub name: String,
    pub region: String,
}

impl CreateBucketRequest {
    /// The request for `name`, in `region` or, where none is given, in the
    /// default region.
    pub fn new(name: String, region: Option<String>) -> (request: Self)
        ensures
            request.name == name,
            request.region@ == (match region {
                Some(r) => r@,
                None => "local"@,
            }),
    {
        let region = match region {
            Some(r) => r,
            None => default_region(),
        };
        CreateBucketRequest { name, region }
    }
}

/// The answer to a listing: the objects found, the folders that stand for
/// the rest, and whether objects were cut off.
#[derive(Debug, PartialEq, Eq)]
pub struct ListObjectsResponse {
    pub bucket: String,
    pub prefix: String,
    pub objects: Vec<ObjectMeta>,
    pub common_prefixes: Vec<String>,
    pub is_truncated: bool,
    pub max_keys: u32,
}

/// The parameters of a listing as a client sends them, each optional.
#[derive(Debug)]
pub struct ListObjectsQuery {
    pub prefix: Option<String>,
    pub delimiter: Option<String>,
    pub max_keys: Option<u32>,
    pub continuation_token: Option<String>,
}

/// The number of objects a listing returns when the client names none.
pub const DEFAULT_MAX_KEYS: u32 = 1000;

impl ListObjectsQuery {
    /// The prefix to list under: the one sent, or the empty prefix.
    pub fn prefix_or_default(&self) -> (prefix: &str)
        ensures
            prefix@ == (match self.prefix {
                Some(p) => p@,
                None => Seq::<char>::empty(),
            }),
    {
        match &self.prefix {
            Some(p) => p.as_str(),
            None => {
                proof {
                    reveal_strlit("");
                    assert(""@ =~= Seq::<char>::empty());
                }
                ""
            },
        }
    }

    /// The number of objects to return at most: the one sent, or 1000.
    pub fn max_keys_or_default(&self) -> (max_keys: u32)
        ensures
            max_keys == (match self.max_keys {
                Some(n) => n,
                None => DEFAULT_MAX_KEYS,
            }),
    {
        match self.max_keys {
            Some(n) => n,
            None => DEFAULT_MAX_KEYS,
        }
    }
}

/// The answer to a listing of buckets.
#[derive(Debug)]
pub struct ListBucketsResponse {
    pub buckets: Vec<Bucket>,
    pub owner: String,
}

impl ListBucketsResponse {
    /// The listing of `buckets`, owned by the local store.
    pub fn new(buckets: Vec<Bucket>) -> (response: Self)
        ensures
            response.buckets == buckets,
            response.owner@ == "freebucket-local"@,
    {
        ListBucketsResponse { buckets, owner: "freebucket-local".to_owned() }
    }
}

/// Totals over every bucket of the store.
#[derive(Debug, PartialEq, Eq)]
pub struct StorageStats {
    pub total_buckets: u64,
    pub total_objects: u64,
    pub total_size: u64,
    pub total_size_human: String,
}

} // verus!
