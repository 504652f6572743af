//! Where things live on disk: a bucket is a directory under the root, an
//! object a file under the bucket's `objects` directory at the path its key
//! spells, and its metadata a file under `.meta` named by the flattened key.

use vstd::prelude::*;
use vstd::string::*;
use crate::text::{chars_of, join3};

verus! {

/// What stands for one character of a key in the name of its metadata file:
/// the marker `__SLASH__` for a slash, the character itself otherwise.
pub open spec fn flattened_char(c: char) -> Seq<char> {
    if c == '/' {
        "__SLASH__"@
    } else {
        seq![c]
    }
}

/// A key with every slash replaced by the marker `__SLASH__`.
pub open spec fn flattened(key: Seq<char>) -> Seq<char>
    decreases key.len(),
{
    if key.len() == 0 {
        Seq::empty()
    } else {
        flattened(key.drop_last()) + flattened_char(key.last())
    }
}

/// The directory of a bucket: `<root>/<bucket>`.
pub open spec fn bucket_dir(root: Seq<char>, bucket: Seq<char>) -> Seq<char> {
    root + "/"@ + bucket
}

/// The file that holds a bucket's descriptor:
/// `<root>/<bucket>/.bucket_meta.json`.
pub open spec fn bucket_meta_file(root: Seq<char>, bucket: Seq<char>) -> Seq<char> {
    bucket_dir(root, bucket) + "/.bucket_meta.json"@
}

/// The directory that holds a bucket's objects: `<root>/<bucket>/objects`.
pub open spec fn objects_dir(root: Seq<char>, bucket: Seq<char>) -> Seq<char> {
    bucket_dir(root, bucket) + "/objects"@
}

/// The directory that holds the metadata of a bucket's objects:
/// `<root>/<bucket>/.meta`.
pub open spec fn meta_dir(root: Seq<char>, bucket: Seq<char>) -> Seq<char> {
    bucket_dir(root, bucket) + "/.meta"@
}

/// The file that holds an object's bytes: `<root>/<bucket>/objects/<key>`,
/// the key taken as it stands.
pub open spec fn object_file(root: Seq<char>, bucket: Seq<char>, key: Seq<char>) -> Seq<char> {
    objects_dir(root, bucket) + "/"@ + key
}

/// The file that holds an object's metadata:
/// `<root>/<bucket>/.meta/<flattened key>.json`.
pub open spec fn object_meta_file(root: Seq<char>, bucket: Seq<char>, key: Seq<char>) -> Seq<
    char,
> {
    meta_dir(root, bucket) + "/"@ + flattened(key) + ".json"@
}

/// Replaces every slash of `key` by the marker `__SLASH__`.
pub fn flatten_key(key: &str) -> (flat: String)
    ensures
        flat@ == flattened(key@),
{
    let chars = chars_of(key);
    let mut flat = String::new();
    let mut i: usize = 0;
    while i < chars.len()
        invariant
            i <= chars.len(),
            chars@ == key@,
            flat@ == flattened(key@.take(i as int)),
        decreases chars.len() - i,
    {
        let c = chars[i];
        if c == '/' {
            flat.append("__SLASH__");
        } else {
            flat.push(c);
        }
        proof {
            let next = key@.take(i + 1);
            assert(next.drop_last() =~= key@.take(i as int));
            assert(next.last() == c);
            assert(seq![c] =~= Seq::<char>::empty().push(c));
            assert(flat@ =~= flattened(next));
        }
        i += 1;
    }
    assert(key@.take(chars.len() as int) =~= key@);
    flat
}

/// The directory of `bucket` under `root`.
pub fn bucket_path(root: &str, bucket: &str) -> (path: String)
    ensures
        path@ == bucket_dir(root@, bucket@),
{
    join3(root, "/", bucket)
}

/// The file that holds the descriptor of `bucket`.
pub fn bucket_meta_path(root: &str, bucket: &str) -> (path: String)
    ensures
        path@ == bucket_meta_file(root@, bucket@),
{
    let mut path = bucket_path(root, bucket);
    path.append("/.bucket_meta.json");
    path
}

/// The directory that holds the objects of `bucket`.
pub fn objects_path(root: &str, bucket: &str) -> (path: String)
    ensures
        path@ == objects_dir(root@, bucket@),
{
    let mut path = bucket_path(root, bucket);
    path.append("/objects");
    path
}

/// The directory that holds the metadata of the objects of `bucket`.
pub fn meta_path(root: &str, bucket: &str) -> (path: String)
    ensures
        path@ == meta_dir(root@, bucket@),
{
    let mut path = bucket_path(root, bucket);
    path.append("/.meta");
    path
}

/// The file that holds the bytes of the object `key` of `bucket`.
pub fn object_path(root: &str, bucket: &str, key: &str) -> (path: String)
    ensures
        path@ == object_file(root@, bucket@, key@),
{
    let mut path = objects_path(root, bucket);
    path.append("/");
    path.append(key);
    path
}

/// The file that holds the metadata of the object `key` of `bucket`.
pub fn object_meta_path(root: &str, bucket: &str, key: &str) -> (path: String)
    ensures
        path@ == object_meta_file(root@, bucket@, key@),
{
    let mut path = meta_path(root, bucket);
    path.append("/");
    let flat = flatten_key(key);
    path.append(flat.as_str());
    path.append(".json");
    path
}

} // verus!
