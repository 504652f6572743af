//! What holds of the store across operations, proved from the model that the
//! operations' contracts are stated over.

use vstd::prelude::*;
use crate::cleanup::{removed_from, step};
use crate::digest::{etag_of, hex_lower, quoted, sha256};
use crate::index::{fresh_bucket, sum_objects, sum_sizes, with_stats, IndexModel};
use crate::models::{BucketView, ObjectMetaView, Timestamp};
use crate::naming::{valid_bucket_name, valid_object_key};
use crate::objects::{new_meta, StoredObjectMetaView};
use crate::scan::{scanned, unwritten, FoundDirView, StoredBucketView};
use crate::storage::{get_object_result, put_object_result, sum_bytes};

verus! {

/// A bucket that has been created is found: once a valid name that was not
/// known has been given a fresh descriptor, the index is well formed, knows
/// the name, and hands out a descriptor with that name, that region and no
/// objects. Other buckets are as they were.
pub proof fn law_created_bucket_is_found(
    index: IndexModel,
    name: Seq<char>,
    region: Seq<char>,
    now: Timestamp,
)
    requires
        index.wf(),
        valid_bucket_name(name),
        !index.has(name),
    ensures
        ({
            let after = index.put(name, fresh_bucket(name, region, now));
            &&& after.wf()
            &&& after.has(name)
            &&& after.get(name).name == name
            &&& after.get(name).region == region
            &&& after.get(name).object_count == 0
            &&& after.get(name).total_size == 0
            &&& forall|other: Seq<char>|
                other != name && index.has(other) ==> after.has(other) && after.get(other)
                    == index.get(other)
        }),
{
    index.lemma_put(name, fresh_bucket(name, region, now));
}

/// An object that has been put is read back as it was put: where the caller
/// hands back the bytes it wrote and the metadata it was given, reading
/// returns those bytes and that metadata, whose content tag is the quoted
/// hexadecimal SHA-256 digest of the bytes. Where the stored metadata is
/// lost, the bytes still come back, under the same content tag.
pub proof fn law_put_object_is_read_back(
    index: IndexModel,
    bucket: Seq<char>,
    key: Seq<char>,
    data: Seq<u8>,
    content_type: Option<Seq<char>>,
    metadata: Seq<(Seq<char>, Seq<char>)>,
    now: Timestamp,
    later: Timestamp,
)
    requires
        index.has(bucket),
        valid_object_key(key),
    ensures
        ({
            let put = put_object_result(index, bucket, key, data, content_type, metadata, now);
            let kept = get_object_result(
                index,
                bucket,
                key,
                Some(data),
                StoredObjectMetaView::Loaded(put->Ok_0),
                later,
            );
            let lost = get_object_result(
                index,
                bucket,
                key,
                Some(data),
                StoredObjectMetaView::Missing,
                later,
            );
            &&& put is Ok
            &&& put->Ok_0.etag == quoted(hex_lower(sha256(data)))
            &&& kept == Ok::<(ObjectMetaView, Seq<u8>), crate::error::ErrorView>((put->Ok_0, data))
            &&& lost is Ok
            &&& lost->Ok_0.1 == data
            &&& lost->Ok_0.0.etag == put->Ok_0.etag
        }),
{
}

/// The content tag goes by the bytes alone: putting the same bytes again,
/// under any key, into any bucket, at any time, gives the same tag.
pub proof fn law_same_bytes_same_etag(
    data: Seq<u8>,
    bucket1: Seq<char>,
    key1: Seq<char>,
    type1: Option<Seq<char>>,
    pairs1: Seq<(Seq<char>, Seq<char>)>,
    now1: Timestamp,
    bucket2: Seq<char>,
    key2: Seq<char>,
    type2: Option<Seq<char>>,
    pairs2: Seq<(Seq<char>, Seq<char>)>,
    now2: Timestamp,
)
    ensures
        new_meta(bucket1, key1, data, type1, pairs1, now1).etag == new_meta(
            bucket2,
            key2,
            data,
            type2,
            pairs2,
            now2,
        ).etag,
        new_meta(bucket1, key1, data, type1, pairs1, now1).etag == etag_of(data),
{
}

/// A bucket whose last object is gone counts nothing: no files sum up to no
/// bytes, and the bucket refreshed with these aggregates reports no objects
/// and no bytes.
pub proof fn law_emptied_bucket_counts_nothing(index: IndexModel, name: Seq<char>)
    requires
        index.wf(),
        index.has(name),
    ensures
        sum_bytes(Seq::<u64>::empty()) == 0,
        ({
            let after = index.put(name, with_stats(index.get(name), 0, 0));
            &&& after.wf()
            &&& after.has(name)
            &&& after.get(name).object_count == 0
            &&& after.get(name).total_size == 0
            &&& after.get(name).name == index.get(name).name
            &&& index.names.len() == 1 ==> after.total_objects() == 0 && after.total_size() == 0
        }),
{
    let emptied = with_stats(index.get(name), 0, 0);
    let after = index.put(name, emptied);
    index.lemma_put(name, emptied);
    if index.names.len() == 1 {
        assert(after.descriptors =~= seq![emptied]);
        assert(after.descriptors.drop_last() =~= Seq::<BucketView>::empty());
        assert(sum_objects(after.descriptors.drop_last()) == 0);
        assert(sum_sizes(after.descriptors.drop_last()) == 0);
    }
}

/// A walk that finds every directory empty removes every directory: none of
/// the parents of a deleted object stays behind empty.
pub proof fn law_empty_dirs_are_all_removed(position: int, len: int, seen: Seq<Option<u64>>)
    requires
        0 <= position <= len,
        len <= seen.len(),
        forall|i: int| position <= i < len ==> seen[i] == Some(0u64),
    ensures
        removed_from(position, len, seen) == len - position,
    decreases len - position,
{
    if position < len {
        assert(step(position, len, seen[position]).0);
        law_empty_dirs_are_all_removed(position + 1, len, seen);
    }
}

/// A walk removes nothing beyond the first directory that is not empty.
pub proof fn law_walk_ends_at_first_full_dir(position: int, len: int, seen: Seq<Option<u64>>, full: int)
    requires
        0 <= position <= full < len,
        full < seen.len(),
        seen[full] != Some(0u64),
    ensures
        removed_from(position, len, seen) <= full - position,
    decreases full - position,
{
    if position < full {
        law_walk_ends_at_first_full_dir(position + 1, len, seen, full);
    }
}

/// The entries that stand for the buckets of `index` on disk: each is a
/// directory named after a bucket of the index, holding that bucket's
/// descriptor, and each bucket of the index has one.
pub open spec fn stored_form(index: IndexModel, found: Seq<FoundDirView>) -> bool {
    &&& forall|i: int|
        0 <= i < found.len() ==> {
            &&& (#[trigger] found[i]).is_dir
            &&& index.has(found[i].name)
            &&& found[i].meta == StoredBucketView::Loaded(index.get(found[i].name))
        }
    &&& forall|name: Seq<char>|
        index.has(name) ==> exists|i: int| 0 <= i < found.len() && (#[trigger] found[i]).name == name
}

/// The names among `found` do not start with a period.
pub open spec fn no_hidden_names(found: Seq<FoundDirView>) -> bool {
    forall|i: int|
        0 <= i < found.len() ==> !((#[trigger] found[i]).name.len() > 0 && found[i].name[0] == '.')
}

/// A restart rebuilds the index: taking in the stored form of an index, in
/// whatever order the entries are found, gives an index with the same names
/// and the same descriptor under each, and leaves nothing to be written. This
/// holds as long as no bucket name starts with a period: such a directory
/// counts as hidden and is passed over.
pub proof fn law_restart_rebuilds_index(index: IndexModel, found: Seq<FoundDirView>, now: Timestamp)
    requires
        index.wf(),
        stored_form(index, found),
        no_hidden_names(found),
    ensures
        ({
            let after = scanned(IndexModel::empty(), found, now);
            &&& after.wf()
            &&& forall|name: Seq<char>| after.has(name) <==> index.has(name)
            &&& forall|name: Seq<char>| index.has(name) ==> after.get(name) == index.get(name)
            &&& unwritten(found, now).len() == 0
        }),
{
    lemma_rescan(index, found, now, found.len() as int);
    assert(found.take(found.len() as int) =~= found);
    let after = scanned(IndexModel::empty(), found, now);
    assert forall|name: Seq<char>| index.has(name) implies after.has(name) by {
        let i = choose|i: int| 0 <= i < found.len() && (#[trigger] found[i]).name == name;
        assert(found[i].name == name);
    }
}

/// Whether one of the first `k` entries of `found` bears `name`.
pub open spec fn named_among(found: Seq<FoundDirView>, k: int, name: Seq<char>) -> bool {
    exists|i: int| 0 <= i < k && (#[trigger] found[i]).name == name
}

proof fn lemma_rescan(index: IndexModel, found: Seq<FoundDirView>, now: Timestamp, k: int)
    requires
        index.wf(),
        stored_form(index, found),
        no_hidden_names(found),
        0 <= k <= found.len(),
    ensures
        ({
            let after = scanned(IndexModel::empty(), found.take(k), now);
            &&& after.wf()
            &&& forall|name: Seq<char>| after.has(name) <==> named_among(found, k, name)
            &&& forall|name: Seq<char>| after.has(name) ==> after.get(name) == index.get(name)
            &&& unwritten(found.take(k), now).len() == 0
        }),
    decreases k,
{
    let after = scanned(IndexModel::empty(), found.take(k), now);
    if k == 0 {
        assert(found.take(0) =~= Seq::<FoundDirView>::empty());
        assert(after.names =~= Seq::<Seq<char>>::empty());
    } else {
        lemma_rescan(index, found, now, k - 1);
        let before = scanned(IndexModel::empty(), found.take(k - 1), now);
        let entry = found[k - 1];
        assert(found.take(k).drop_last() =~= found.take(k - 1));
        assert(found.take(k).last() == entry);
        assert(entry.is_dir);
        let b = index.get(entry.name);
        assert(after == before.put(entry.name, b));
        before.lemma_put(entry.name, b);
        assert forall|name: Seq<char>| after.has(name) <==> named_among(found, k, name) by {
            if name == entry.name {
                assert(found[k - 1].name == name);
            } else {
                if before.has(name) {
                    let i = choose|i: int| 0 <= i < k - 1 && (#[trigger] found[i]).name == name;
                    assert(found[i].name == name);
                }
                if named_among(found, k, name) {
                    let i = choose|i: int| 0 <= i < k && (#[trigger] found[i]).name == name;
                    assert(i < k - 1);
                    assert(named_among(found, k - 1, name));
                }
            }
        }
    }
}

} // verus!
