//! The bucket index as a mathematical object: the names under which buckets
//! are known, each with its descriptor, and what creating, replacing,
//! removing and refreshing a bucket make of it.

use vstd::prelude::*;
use crate::models::{Bucket, BucketView, Timestamp};

verus! {

/// The bucket index: `descriptors[i]` is the descriptor known under
/// `names[i]`, in the order in which the names came in.
pub struct IndexModel {
    pub names: Seq<Seq<char>>,
    pub descriptors: Seq<BucketView>,
}

/// The descriptor of a bucket that holds nothing yet.
pub open spec fn fresh_bucket(name: Seq<char>, region: Seq<char>, now: Timestamp) -> BucketView {
    BucketView { name, created_at: now, region, object_count: 0, total_size: 0 }
}

/// The descriptor `b` with its aggregates set anew.
pub open spec fn with_stats(b: BucketView, count: u64, size: u64) -> BucketView {
    BucketView { object_count: count, total_size: size, ..b }
}

/// The number of objects in all of `descriptors`.
pub open spec fn sum_objects(descriptors: Seq<BucketView>) -> nat
    decreases descriptors.len(),
{
    if descriptors.len() == 0 {
        0
    } else {
        sum_objects(descriptors.drop_last()) + descriptors.last().object_count as nat
    }
}

/// The number of bytes in all of `descriptors`.
pub open spec fn sum_sizes(descriptors: Seq<BucketView>) -> nat
    decreases descriptors.len(),
{
    if descriptors.len() == 0 {
        0
    } else {
        sum_sizes(descriptors.drop_last()) + descriptors.last().total_size as nat
    }
}

/// The views of a list of descriptors.
pub open spec fn bucket_views(buckets: Seq<Bucket>) -> Seq<BucketView> {
    Seq::new(buckets.len(), |i: int| buckets[i]@)
}

impl IndexModel {
    /// The index without any bucket.
    pub open spec fn empty() -> IndexModel {
        IndexModel { names: Seq::empty(), descriptors: Seq::empty() }
    }

    /// Every name has its descriptor, and no name stands twice.
    pub open spec fn wf(self) -> bool {
        &&& self.names.len() == self.descriptors.len()
        &&& self.names.no_duplicates()
    }

    /// Whether a bucket is known under `name`.
    pub open spec fn has(self, name: Seq<char>) -> bool {
        self.names.contains(name)
    }

    /// Where `name` stands in the index.
    pub open spec fn position(self, name: Seq<char>) -> int {
        self.names.index_of(name)
    }

    /// The descriptor known under `name`.
    pub open spec fn get(self, name: Seq<char>) -> BucketView {
        self.descriptors[self.position(name)]
    }

    /// The index with `b` known under `name`: in the place of what was known
    /// under that name, or else as the last entry.
    pub open spec fn put(self, name: Seq<char>, b: BucketView) -> IndexModel {
        if self.has(name) {
            IndexModel {
                names: self.names,
                descriptors: self.descriptors.update(self.position(name), b),
            }
        } else {
            IndexModel { names: self.names.push(name), descriptors: self.descriptors.push(b) }
        }
    }

    /// The index without the bucket known under `name`.
    pub open spec fn without(self, name: Seq<char>) -> IndexModel {
        if self.has(name) {
            IndexModel {
                names: self.names.remove(self.position(name)),
                descriptors: self.descriptors.remove(self.position(name)),
            }
        } else {
            self
        }
    }

    /// The number of objects in all buckets.
    pub open spec fn total_objects(self) -> nat {
        sum_objects(self.descriptors)
    }

    /// The number of bytes in all buckets.
    pub open spec fn total_size(self) -> nat {
        sum_sizes(self.descriptors)
    }

    /// In an index without repeated names, a name stands where it is found.
    pub proof fn lemma_position(self, name: Seq<char>, i: int)
        requires
            self.wf(),
            0 <= i < self.names.len(),
            self.names[i] == name,
        ensures
            self.has(name),
            self.position(name) == i,
    {
        let j = self.names.index_of(name);
        assert(self.names.contains(name));
        assert(0 <= j < self.names.len() && self.names[j] == name);
    }

    /// Putting a descriptor keeps the index well formed, makes the name
    /// known with that descriptor, and leaves all other names as they were.
    pub proof fn lemma_put(self, name: Seq<char>, b: BucketView)
        requires
            self.wf(),
        ensures
            self.put(name, b).wf(),
            self.put(name, b).has(name),
            self.put(name, b).get(name) == b,
            forall|other: Seq<char>|
                other != name ==> (self.put(name, b).has(other) <==> self.has(other)),
            forall|other: Seq<char>|
                other != name && self.has(other) ==> self.put(name, b).get(other) == self.get(
                    other,
                ),
    {
        let after = self.put(name, b);
        if self.has(name) {
            let i = self.position(name);
            assert(0 <= i < self.names.len() && self.names[i] == name);
            assert forall|other: Seq<char>| other != name && self.has(other) implies after.get(
                other,
            ) == self.get(other) by {
                let j = self.position(other);
                assert(0 <= j < self.names.len() && self.names[j] == other);
            }
        } else {
            let n = self.names.len() as int;
            assert(after.names[n] == name);
            assert forall|x: int, y: int|
                0 <= x < after.names.len() && 0 <= y < after.names.len() && x != y implies after.names[x]
                != after.names[y] by {
                if x < n && y < n {
                    assert(self.names[x] != self.names[y]);
                } else if x < n {
                    assert(self.names.contains(self.names[x]));
                } else {
                    assert(self.names.contains(self.names[y]));
                }
            }
            after.lemma_position(name, n);
            assert forall|other: Seq<char>| other != name implies (after.has(other) <==> self.has(
                other,
            )) by {
                if self.has(other) {
                    let j = self.position(other);
                    assert(0 <= j < n && self.names[j] == other);
                    assert(after.names[j] == other);
                }
                if after.has(other) {
                    let j = after.position(other);
                    assert(0 <= j < after.names.len() && after.names[j] == other);
                    assert(j < n);
                    assert(self.names[j] == other);
                }
            }
            assert forall|other: Seq<char>| other != name && self.has(other) implies after.get(
                other,
            ) == self.get(other) by {
                let j = self.position(other);
                assert(0 <= j < n && self.names[j] == other);
                assert(after.names[j] == other);
                after.lemma_position(other, j);
            }
        }
    }

    /// Removing a bucket keeps the index well formed, makes the name unknown,
    /// and leaves all other names as they were.
    pub proof fn lemma_without(self, name: Seq<char>)
        requires
            self.wf(),
        ensures
            self.without(name).wf(),
            !self.without(name).has(name),
            forall|other: Seq<char>|
                other != name ==> (self.without(name).has(other) <==> self.has(other)),
            forall|other: Seq<char>|
                other != name && self.has(other) ==> self.without(name).get(other) == self.get(
                    other,
                ),
    {
        let after = self.without(name);
        if self.has(name) {
            let i = self.position(name);
            let n = self.names.len() as int;
            assert(0 <= i < n && self.names[i] == name);
            assert forall|x: int| 0 <= x < after.names.len() implies after.names[x] == self.names[if x
                < i {
                x
            } else {
                x + 1
            }] by {}
            assert forall|x: int, y: int|
                0 <= x < after.names.len() && 0 <= y < after.names.len() && x != y implies after.names[x]
                != after.names[y] by {
                let sx = if x < i {
                    x
                } else {
                    x + 1
                };
                let sy = if y < i {
                    y
                } else {
                    y + 1
                };
                assert(self.names[sx] != self.names[sy]);
            }
            if after.has(name) {
                let x = after.position(name);
                assert(0 <= x < after.names.len() && after.names[x] == name);
                let sx = if x < i {
                    x
                } else {
                    x + 1
                };
                assert(self.names[sx] == self.names[i]);
            }
            assert forall|other: Seq<char>| other != name implies (after.has(other) <==> self.has(
                other,
            )) by {
                if self.has(other) {
                    let j = self.position(other);
                    assert(0 <= j < n && self.names[j] == other);
                    let x = if j < i {
                        j
                    } else {
                        j - 1
                    };
                    assert(after.names[x] == other);
                }
                if after.has(other) {
                    let x = after.position(other);
                    assert(0 <= x < after.names.len() && after.names[x] == other);
                    let sx = if x < i {
                        x
                    } else {
                        x + 1
                    };
                    assert(self.names[sx] == other);
                }
            }
            assert forall|other: Seq<char>| other != name && self.has(other) implies after.get(
                other,
            ) == self.get(other) by {
                let j = self.position(other);
                assert(0 <= j < n && self.names[j] == other);
                let x = if j < i {
                    j
                } else {
                    j - 1
                };
                assert(after.names[x] == other);
                after.lemma_position(other, x);
            }
        }
    }
}

} // verus!
