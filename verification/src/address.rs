//! Addresses of objects as collaborators write them: `bucket/key` in a URL
//! path or on the command line, and the request headers that carry an
//! object's own metadata.

use vstd::prelude::*;
use vstd::string::*;
use crate::error::{AppError, ErrorView};
use crate::listing::{find_from, first_occurrence, occurs_at, starts_with};
use crate::text::{chars_of, string_of};

verus! {

/// A path without the one slash it may start with.
pub open spec fn without_leading_slash(path: Seq<char>) -> Seq<char> {
    if path.len() > 0 && path[0] == '/' {
        path.skip(1)
    } else {
        path
    }
}

/// An address split at its first slash into the bucket before it and the key
/// after it; `None` for an address without a slash.
pub open spec fn split_address(address: Seq<char>) -> Option<(Seq<char>, Seq<char>)> {
    match first_occurrence(address, seq!['/']) {
        Some(at) => Some((address.take(at), address.skip(at + 1))),
        None => None,
    }
}

/// The part of a key after its last slash; the whole key where it has none.
pub open spec fn last_segment(key: Seq<char>) -> Seq<char>
    decreases key.len(),
{
    if key.len() == 0 {
        key
    } else if key.last() == '/' {
        Seq::empty()
    } else {
        last_segment(key.drop_last()).push(key.last())
    }
}

/// The name under which a request header carries an object's own metadata:
/// what follows `x-amz-meta-`; `None` for any other header.
pub open spec fn metadata_name(header: Seq<char>) -> Option<Seq<char>> {
    if "x-amz-meta-"@.is_prefix_of(header) {
        Some(header.skip("x-amz-meta-"@.len() as int))
    } else {
        None
    }
}

/// The text with which a path that names no key is turned down.
pub open spec fn address_fault() -> Seq<char> {
    "Path must be in the format: {bucket}/{key}"@
}

fn split_chars(chars: &Vec<char>, from: usize) -> (parts: Option<(String, String)>)
    requires
        from <= chars.len(),
    ensures
        match parts {
            Some((bucket, key)) => split_address(chars@.skip(from as int)) == Some(
                (bucket@, key@),
            ),
            None => split_address(chars@.skip(from as int)) is None,
        },
{
    let mut slash: Vec<char> = Vec::new();
    slash.push('/');
    assert(slash@ =~= seq!['/']);
    match find_from(chars, from, &slash) {
        None => None,
        Some(at) => {
            let ghost rest = chars@.skip(from as int);
            assert(occurs_at(rest, slash@, at as int));
            let bucket = string_of(chars, from, from + at);
            let key = string_of(chars, from + at + 1, chars.len());
            proof {
                assert(chars@.subrange(from as int, from + at) =~= rest.take(at as int));
                assert(chars@.subrange(from + at + 1, chars.len() as int) =~= rest.skip(at + 1));
            }
            Some((bucket, key))
        },
    }
}

/// Splits `bucket/key` at its first slash.
pub fn split_bucket_key(address: &str) -> (parts: Option<(String, String)>)
    ensures
        match parts {
            Some((bucket, key)) => split_address(address@) == Some((bucket@, key@)),
            None => split_address(address@) is None,
        },
{
    let chars = chars_of(address);
    assert(chars@.skip(0) =~= chars@);
    split_chars(&chars, 0)
}

/// Splits a URL path `bucket/key`, with or without a slash in front, into
/// bucket and key; a path without a slash after the bucket names no key and
/// is turned down.
pub fn parse_bucket_key(path: &str) -> (r: Result<(String, String), AppError>)
    ensures
        match r {
            Ok((bucket, key)) => split_address(without_leading_slash(path@)) == Some(
                (bucket@, key@),
            ),
            Err(e) => split_address(without_leading_slash(path@)) is None && e@
                == ErrorView::InvalidObjectKey(address_fault()),
        },
{
    let chars = chars_of(path);
    let from: usize = if chars.len() > 0 && chars[0] == '/' {
        1
    } else {
        0
    };
    assert(chars@.skip(0) =~= chars@);
    match split_chars(&chars, from) {
        Some(parts) => Ok(parts),
        None => Err(
            AppError::InvalidObjectKey("Path must be in the format: {bucket}/{key}".to_owned()),
        ),
    }
}

/// The part of `key` after its last slash: the name a downloaded object is
/// saved under.
pub fn file_name_of(key: &str) -> (name: String)
    ensures
        name@ == last_segment(key@),
{
    let chars = chars_of(key);
    let mut start: usize = 0;
    let mut i: usize = 0;
    assert(chars@.take(0) =~= Seq::<char>::empty());
    assert(chars@.subrange(0, 0) =~= Seq::<char>::empty());
    while i < chars.len()
        invariant
            start <= i <= chars.len(),
            chars@.subrange(start as int, i as int) == last_segment(chars@.take(i as int)),
        decreases chars.len() - i,
    {
        proof {
            assert(chars@.take(i + 1).drop_last() =~= chars@.take(i as int));
            assert(chars@.take(i + 1).last() == chars@[i as int]);
        }
        if chars[i] == '/' {
            start = i + 1;
            assert(chars@.subrange(start as int, i + 1) =~= Seq::<char>::empty());
        } else {
            assert(chars@.subrange(start as int, i + 1) =~= chars@.subrange(
                start as int,
                i as int,
            ).push(chars@[i as int]));
        }
        i += 1;
    }
    assert(chars@.take(chars.len() as int) =~= chars@);
    string_of(&chars, start, chars.len())
}

/// The name under which the request header `header` carries an object's own
/// metadata, if it does.
pub fn metadata_key(header: &str) -> (name: Option<String>)
    ensures
        match name {
            Some(n) => metadata_name(header@) == Some(n@),
            None => metadata_name(header@) is None,
        },
{
    let chars = chars_of(header);
    let marker = chars_of("x-amz-meta-");
    if starts_with(&chars, &marker) {
        Some(string_of(&chars, marker.len(), chars.len()))
    } else {
        None
    }
}

} // verus!
