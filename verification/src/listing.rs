//! Listings with a prefix and a delimiter.
//!
//! A key is listed when it starts with the prefix. With a delimiter, a key in
//! which the delimiter occurs after the prefix is not listed itself: it is
//! folded into a common prefix, the key up to and with the first such
//! occurrence. Objects are listed in ascending byte order of their keys and
//! cut off after `max_keys`; common prefixes are listed once each, in
//! ascending byte order, and never cut off.

use vstd::prelude::*;
use vstd::string::*;
use crate::models::{ListObjectsResponse, ObjectMeta};
use crate::sorting::{holds_text, sort_by_key, sorted_distinct, stable_sort_of, strictly_ascending};
use crate::text::{chars_of, string_of, texts};

verus! {

/// A path as found below a bucket's objects: backslashes count as slashes.
pub open spec fn normalized(rel: Seq<char>) -> Seq<char> {
    Seq::new(
        rel.len(),
        |i: int|
            if rel[i] == '\\' {
                '/'
            } else {
                rel[i]
            },
    )
}

/// `needle` stands in `hay` at position `at`.
pub open spec fn occurs_at(hay: Seq<char>, needle: Seq<char>, at: int) -> bool {
    &&& 0 <= at
    &&& at + needle.len() <= hay.len()
    &&& hay.subrange(at, at + needle.len()) == needle
}

/// `needle` stands in `hay` somewhere.
pub open spec fn occurs(hay: Seq<char>, needle: Seq<char>) -> bool {
    exists|at: int| occurs_at(hay, needle, at)
}

/// `needle` stands in `hay` at `at`, and nowhere before.
pub open spec fn first_at(hay: Seq<char>, needle: Seq<char>, at: int) -> bool {
    &&& occurs_at(hay, needle, at)
    &&& forall|before: int| 0 <= before < at ==> !occurs_at(hay, needle, before)
}

/// The first position at which `needle` stands in `hay`, if it does. The
/// empty needle stands at position 0.
pub open spec fn first_occurrence(hay: Seq<char>, needle: Seq<char>) -> Option<int> {
    if occurs(hay, needle) {
        Some(choose|at: int| first_at(hay, needle, at))
    } else {
        None
    }
}

/// What a listing makes of one key.
#[derive(Debug, PartialEq, Eq)]
pub enum KeyMatch {
    /// The key does not start with the prefix.
    Excluded,
    /// The key stands for itself.
    Leaf,
    /// The key goes into this common prefix.
    Folded(String),
}

/// A [`KeyMatch`] with its text as a sequence of characters.
pub enum KeyMatchView {
    Excluded,
    Leaf,
    Folded(Seq<char>),
}

impl View for KeyMatch {
    type V = KeyMatchView;

    open spec fn view(&self) -> KeyMatchView {
        match self {
            KeyMatch::Excluded => KeyMatchView::Excluded,
            KeyMatch::Leaf => KeyMatchView::Leaf,
            KeyMatch::Folded(p) => KeyMatchView::Folded(p@),
        }
    }
}

/// What a listing under `prefix`, with or without a delimiter, makes of `key`.
pub open spec fn classify(key: Seq<char>, prefix: Seq<char>, delimiter: Option<Seq<char>>) -> KeyMatchView {
    if !prefix.is_prefix_of(key) {
        KeyMatchView::Excluded
    } else {
        match delimiter {
            None => KeyMatchView::Leaf,
            Some(d) => {
                let rest = key.skip(prefix.len() as int);
                match first_occurrence(rest, d) {
                    None => KeyMatchView::Leaf,
                    Some(at) => KeyMatchView::Folded(prefix + rest.take(at) + d),
                }
            },
        }
    }
}

/// The keys among `found` that a listing shows as objects, in the order
/// found.
pub open spec fn leaf_keys(found: Seq<String>, prefix: Seq<char>, delimiter: Option<Seq<char>>) -> Seq<
    Seq<char>,
>
    decreases found.len(),
{
    if found.len() == 0 {
        Seq::empty()
    } else {
        let before = leaf_keys(found.drop_last(), prefix, delimiter);
        let key = normalized(found.last()@);
        if classify(key, prefix, delimiter) is Leaf {
            before.push(key)
        } else {
            before
        }
    }
}

/// The common prefixes that the keys among `found` fold into, one for each
/// folded key, in the order found.
pub open spec fn folded_prefixes(
    found: Seq<String>,
    prefix: Seq<char>,
    delimiter: Option<Seq<char>>,
) -> Seq<Seq<char>>
    decreases found.len(),
{
    if found.len() == 0 {
        Seq::empty()
    } else {
        let before = folded_prefixes(found.drop_last(), prefix, delimiter);
        match classify(normalized(found.last()@), prefix, delimiter) {
            KeyMatchView::Folded(p) => before.push(p),
            _ => before,
        }
    }
}

/// The characters of a path found below a bucket's objects, backslashes
/// turned into slashes.
pub fn normalize_key(rel: &str) -> (key: Vec<char>)
    ensures
        key@ == normalized(rel@),
{
    let chars = chars_of(rel);
    let mut key: Vec<char> = Vec::new();
    let mut i: usize = 0;
    while i < chars.len()
        invariant
            i <= chars.len(),
            chars@ == rel@,
            key@ == normalized(rel@).take(i as int),
        decreases chars.len() - i,
    {
        let c = chars[i];
        key.push(if c == '\\' {
            '/'
        } else {
            c
        });
        assert(normalized(rel@).take(i + 1) =~= normalized(rel@).take(i as int).push(
            normalized(rel@)[i as int],
        ));
        i += 1;
    }
    assert(normalized(rel@).take(chars.len() as int) =~= normalized(rel@));
    key
}

/// Whether `needle` stands in `hay` at position `at`.
pub fn stands_at(hay: &Vec<char>, at: usize, needle: &Vec<char>) -> (yes: bool)
    ensures
        yes == occurs_at(hay@, needle@, at as int),
{
    if needle.len() > hay.len() || at > hay.len() - needle.len() {
        return false;
    }
    let mut i: usize = 0;
    while i < needle.len()
        invariant
            i <= needle.len(),
            at + needle.len() <= hay.len(),
            forall|j: int| 0 <= j < i ==> hay@[at + j] == needle@[j],
        decreases needle.len() - i,
    {
        if hay[at + i] != needle[i] {
            proof {
                let part = hay@.subrange(at as int, at + needle.len());
                assert(part[i as int] == hay@[at + i]);
            }
            return false;
        }
        i += 1;
    }
    assert(hay@.subrange(at as int, at + needle.len()) =~= needle@);
    true
}

/// The first position at or after `from` at which `needle` stands in `hay`,
/// counted from `from`.
pub fn find_from(hay: &Vec<char>, from: usize, needle: &Vec<char>) -> (found: Option<usize>)
    requires
        from <= hay.len(),
    ensures
        match found {
            Some(at) => first_occurrence(hay@.skip(from as int), needle@) == Some(at as int)
                && first_at(hay@.skip(from as int), needle@, at as int),
            None => first_occurrence(hay@.skip(from as int), needle@) is None,
        },
{
    let ghost rest = hay@.skip(from as int);
    if needle.len() > hay.len() - from {
        assert forall|at: int| !occurs_at(rest, needle@, at) by {}
        return None;
    }
    let last = hay.len() - from - needle.len();
    let mut at: usize = 0;
    loop
        invariant
            at <= last,
            last == hay.len() - from - needle.len(),
            from <= hay.len(),
            rest == hay@.skip(from as int),
            forall|before: int| 0 <= before < at ==> !occurs_at(rest, needle@, before),
        decreases last - at,
    {
        let here = stands_at(hay, from + at, needle);
        proof {
            assert(rest.subrange(at as int, at + needle.len()) =~= hay@.subrange(
                from + at,
                from + at + needle.len(),
            ));
        }
        if here {
            proof {
                assert(first_at(rest, needle@, at as int));
                assert(occurs_at(rest, needle@, at as int));
                let chosen = choose|p: int| first_at(rest, needle@, p);
                assert(chosen == at);
            }
            return Some(at);
        }
        if at == last {
            assert forall|p: int| !occurs_at(rest, needle@, p) by {}
            return None;
        }
        at += 1;
    }
}

/// Whether `key` starts with `prefix`.
pub fn starts_with(key: &Vec<char>, prefix: &Vec<char>) -> (yes: bool)
    ensures
        yes == prefix@.is_prefix_of(key@),
{
    let yes = stands_at(key, 0, prefix);
    proof {
        if prefix.len() <= key.len() {
            assert(key@.subrange(0, 0 + prefix.len()) =~= key@.subrange(0, prefix.len() as int));
        }
    }
    yes
}

/// What a listing under `prefix`, with or without a delimiter, makes of
/// `key`.
pub fn classify_key(key: &Vec<char>, prefix: &Vec<char>, delimiter: Option<&Vec<char>>) -> (m:
    KeyMatch)
    ensures
        m@ == classify(
            key@,
            prefix@,
            match delimiter {
                Some(d) => Some(d@),
                None => None,
            },
        ),
{
    if !starts_with(key, prefix) {
        return KeyMatch::Excluded;
    }
    match delimiter {
        None => KeyMatch::Leaf,
        Some(d) => {
            match find_from(key, prefix.len(), d) {
                None => KeyMatch::Leaf,
                Some(at) => {
                    assert(prefix@.is_prefix_of(key@));
                    assert(key@.skip(prefix.len() as int).len() == key.len() - prefix.len());
                    assert(occurs_at(key@.skip(prefix.len() as int), d@, at as int));
                    let end = prefix.len() + at + d.len();
                    let folded = string_of(key, 0, end);
                    proof {
                        let rest = key@.skip(prefix.len() as int);
                        assert(occurs_at(rest, d@, at as int));
                        assert(key@.subrange(0, end as int) =~= prefix@ + rest.take(at as int)
                            + d@) by {
                            assert(key@.subrange(0, prefix.len() as int) =~= prefix@);
                            assert(rest.subrange(at as int, at + d.len()) == d@);
                        }
                    }
                    KeyMatch::Folded(folded)
                },
            }
        },
    }
}

/// The keys of a listing before their metadata is read: those that are shown
/// as objects, and the common prefixes of the others.
#[derive(Debug, PartialEq, Eq)]
pub struct KeySelection {
    /// The keys shown as objects, in the order found.
    pub leaf_keys: Vec<String>,
    /// One common prefix for each folded key, in the order found.
    pub common_prefixes: Vec<String>,
}

/// Sorts the paths found below a bucket's objects into those a listing shows
/// as objects and the common prefixes that stand for the folded ones; paths
/// that do not start with `prefix` are left out.
pub fn select_keys(found: &Vec<String>, prefix: &str, delimiter: Option<&str>) -> (selection:
    KeySelection)
    ensures
        texts(selection.leaf_keys@) == leaf_keys(
            found@,
            prefix@,
            match delimiter {
                Some(d) => Some(d@),
                None => None,
            },
        ),
        texts(selection.common_prefixes@) == folded_prefixes(
            found@,
            prefix@,
            match delimiter {
                Some(d) => Some(d@),
                None => None,
            },
        ),
{
    let prefix_chars = chars_of(prefix);
    let delimiter_chars: Option<Vec<char>> = match delimiter {
        Some(d) => Some(chars_of(d)),
        None => None,
    };
    let ghost delim: Option<Seq<char>> = match delimiter {
        Some(d) => Some(d@),
        None => None,
    };
    let mut leaves: Vec<String> = Vec::new();
    let mut folds: Vec<String> = Vec::new();
    let mut i: usize = 0;
    assert(found@.take(0) =~= Seq::<String>::empty());
    assert(texts(leaves@) =~= leaf_keys(found@.take(0), prefix@, delim));
    assert(texts(folds@) =~= folded_prefixes(found@.take(0), prefix@, delim));
    while i < found.len()
        invariant
            i <= found.len(),
            prefix_chars@ == prefix@,
            delim == (match delimiter {
                Some(d) => Some(d@),
                None => None,
            }),
            delim == (match delimiter_chars {
                Some(d) => Some(d@),
                None => None,
            }),
            texts(leaves@) == leaf_keys(found@.take(i as int), prefix@, delim),
            texts(folds@) == folded_prefixes(found@.take(i as int), prefix@, delim),
        decreases found.len() - i,
    {
        let key = normalize_key(found[i].as_str());
        let ghost old_leaves = leaves@;
        let ghost old_folds = folds@;
        let m = classify_key(&key, &prefix_chars, delimiter_chars.as_ref());
        proof {
            let next = found@.take(i + 1);
            assert(next.drop_last() =~= found@.take(i as int));
            assert(next.last() == found@[i as int]);
        }
        match m {
            KeyMatch::Excluded => {},
            KeyMatch::Leaf => {
                leaves.push(string_of(&key, 0, key.len()));
                proof {
                    assert(key@.subrange(0, key.len() as int) =~= key@);
                    assert(texts(leaves@) =~= texts(old_leaves).push(key@));
                }
            },
            KeyMatch::Folded(p) => {
                folds.push(p);
                proof {
                    assert(texts(folds@) =~= texts(old_folds).push(p@));
                }
            },
        }
        i += 1;
    }
    assert(found@.take(found.len() as int) =~= found@);
    KeySelection { leaf_keys: leaves, common_prefixes: folds }
}

/// The objects of a listing: `objects` sorted by key in ascending byte order,
/// objects with equal keys in the order given, cut off after `max_keys`.
pub open spec fn listed_objects(objects: Seq<ObjectMeta>, max_keys: u32, listed: Seq<ObjectMeta>) -> bool {
    exists|sorted: Seq<ObjectMeta>| #[trigger]
        stable_sort_of(objects, sorted) && listed == sorted.take(
            if sorted.len() > max_keys {
                max_keys as int
            } else {
                sorted.len() as int
            },
        )
}

/// The common prefixes of a listing: each text of `folded` once, in strictly
/// ascending byte order.
pub open spec fn listed_prefixes(folded: Seq<String>, listed: Seq<String>) -> bool {
    &&& strictly_ascending(listed)
    &&& forall|t: Seq<char>| holds_text(listed, t) <==> holds_text(folded, t)
}

/// Puts a listing together from the objects to show and the common prefixes
/// of the folded keys: sorts both, drops repeated prefixes, and cuts the
/// objects, and only them, off after `max_keys`.
pub fn assemble_listing(
    bucket: &str,
    prefix: &str,
    max_keys: u32,
    objects: Vec<ObjectMeta>,
    common_prefixes: Vec<String>,
) -> (response: ListObjectsResponse)
    ensures
        response.bucket@ == bucket@,
        response.prefix@ == prefix@,
        response.max_keys == max_keys,
        response.is_truncated == (objects.len() > max_keys),
        listed_objects(objects@, max_keys, response.objects@),
        listed_prefixes(common_prefixes@, response.common_prefixes@),
{
    let mut sorted = sort_by_key(objects);
    let ghost whole = sorted@;
    let prefixes = sorted_distinct(common_prefixes);
    let is_truncated = sorted.len() > max_keys as usize;
    sorted.truncate(max_keys as usize);
    proof {
        if whole.len() <= max_keys {
            assert(sorted@ =~= whole.take(whole.len() as int));
        }
        assert(stable_sort_of(objects@, whole));
    }
    ListObjectsResponse {
        bucket: bucket.to_owned(),
        prefix: prefix.to_owned(),
        objects: sorted,
        common_prefixes: prefixes,
        is_truncated,
        max_keys,
    }
}

} // verus!
