//! The rules for bucket names and object keys.
//!
//! A bucket name has 3 to 63 characters, each a lowercase letter, a digit, a
//! hyphen or a period, and neither starts nor ends with a hyphen. An object
//! key is not empty and takes at most 1024 bytes.

use vstd::prelude::*;
use vstd::string::*;
use vstd::utf8::*;
use crate::error::{AppError, ErrorView};
use crate::text::utf8;

verus! {

/// The longest key, in bytes.
pub const MAX_KEY_BYTES: usize = 1024;

/// Whether a character may stand in a bucket name.
pub open spec fn allowed_in_name(c: char) -> bool {
    ('a' <= c && c <= 'z') || ('0' <= c && c <= '9') || c == '-' || c == '.'
}

/// Whether every character of `name` may stand in a bucket name.
pub open spec fn all_allowed(name: Seq<char>) -> bool {
    forall|i: int| 0 <= i < name.len() ==> allowed_in_name(#[trigger] name[i])
}

/// Whether `name` is a valid bucket name.
pub open spec fn valid_bucket_name(name: Seq<char>) -> bool {
    &&& 3 <= name.len() <= 63
    &&& all_allowed(name)
    &&& name.first() != '-'
    &&& name.last() != '-'
}

/// What is wrong with a bucket name: the first rule it breaks, the length
/// (taken in bytes) before the characters, the characters before the
/// hyphens; `None` for a name that breaks none.
pub open spec fn bucket_name_fault(name: Seq<char>) -> Option<Seq<char>> {
    if utf8(name).len() < 3 || utf8(name).len() > 63 {
        Some("Bucket name must be between 3 and 63 characters"@)
    } else if !all_allowed(name) {
        Some("Bucket name can only contain lowercase letters, numbers, hyphens, and periods"@)
    } else if name.first() == '-' || name.last() == '-' {
        Some("Bucket name cannot start or end with a hyphen"@)
    } else {
        None
    }
}

/// Whether `key` is a valid object key.
pub open spec fn valid_object_key(key: Seq<char>) -> bool {
    1 <= utf8(key).len() <= 1024
}

/// The text that goes with a key that is not valid.
pub open spec fn object_key_fault() -> Seq<char> {
    "Key must be between 1 and 1024 characters"@
}

/// A name made of allowed characters takes one byte for each.
pub proof fn lemma_allowed_is_ascii(name: Seq<char>)
    requires
        all_allowed(name),
    ensures
        is_ascii_chars(name),
        utf8(name).len() == name.len(),
{
    assert forall|i: int| 0 <= i < name.len() implies '\0' <= #[trigger] name[i] <= '\u{7f}' by {
        assert(allowed_in_name(name[i]));
    }
    is_ascii_chars_encode_utf8(name);
}

/// A name is valid exactly when no rule finds a fault with it.
pub proof fn lemma_fault_iff_invalid(name: Seq<char>)
    ensures
        bucket_name_fault(name) is None <==> valid_bucket_name(name),
{
    if all_allowed(name) {
        lemma_allowed_is_ascii(name);
    }
}

fn allowed_byte(b: u8) -> (ok: bool)
    ensures
        ok == ((97 <= b && b <= 122) || (48 <= b && b <= 57) || b == 45 || b == 46),
{
    (97 <= b && b <= 122) || (48 <= b && b <= 57) || b == 45 || b == 46
}

/// Checks a bucket name against the naming rules.
pub fn check_bucket_name(name: &str) -> (r: Result<(), AppError>)
    ensures
        r is Ok <==> valid_bucket_name(name@),
        match r {
            Ok(_) => bucket_name_fault(name@) is None,
            Err(e) => bucket_name_fault(name@) is Some && e@ == ErrorView::InvalidBucketName(
                bucket_name_fault(name@)->Some_0,
            ),
        },
{
    proof {
        lemma_fault_iff_invalid(name@);
    }
    let n = name.as_bytes().len();
    if n < 3 || n > 63 {
        return Err(
            AppError::InvalidBucketName(
                "Bucket name must be between 3 and 63 characters".to_owned(),
            ),
        );
    }
    if !name.is_ascii() {
        proof {
            let i = choose|i: int| 0 <= i < name@.len() && !('\0' <= #[trigger] name@[i] <= '\u{7f}');
            assert(!allowed_in_name(name@[i]));
        }
        return Err(
            AppError::InvalidBucketName(
                "Bucket name can only contain lowercase letters, numbers, hyphens, and periods".to_owned(),
            ),
        );
    }
    proof {
        is_ascii_chars_encode_utf8(name@);
    }
    let mut i: usize = 0;
    while i < n
        invariant
            i <= n,
            3 <= n <= 63,
            n == name@.len(),
            n == utf8(name@).len(),
            is_ascii_chars(name@),
            forall|j: int| 0 <= j < i ==> allowed_in_name(#[trigger] name@[j]),
        decreases n - i,
    {
        let b = name.get_ascii(i);
        if !allowed_byte(b) {
            proof {
                let c = name@[i as int];
                assert('\0' <= c <= '\u{7f}');
                assert(!allowed_in_name(c));
            }
            return Err(
                AppError::InvalidBucketName(
                    "Bucket name can only contain lowercase letters, numbers, hyphens, and periods".to_owned(),
                ),
            );
        }
        proof {
            let c = name@[i as int];
            assert('\0' <= c <= '\u{7f}');
            assert(allowed_in_name(c));
        }
        i += 1;
    }
    let first = name.get_ascii(0);
    let last = name.get_ascii(n - 1);
    proof {
        assert('\0' <= name@[0] <= '\u{7f}');
        assert('\0' <= name@[n - 1] <= '\u{7f}');
    }
    if first == 45 || last == 45 {
        return Err(
            AppError::InvalidBucketName("Bucket name cannot start or end with a hyphen".to_owned()),
        );
    }
    Ok(())
}

/// Checks an object key: it must not be empty nor take more than 1024 bytes.
pub fn check_object_key(key: &str) -> (r: Result<(), AppError>)
    ensures
        r is Ok <==> valid_object_key(key@),
        r is Err ==> r->Err_0@ == ErrorView::InvalidObjectKey(object_key_fault()),
{
    let n = key.as_bytes().len();
    if n == 0 || n > MAX_KEY_BYTES {
        Err(AppError::InvalidObjectKey("Key must be between 1 and 1024 characters".to_owned()))
    } else {
        Ok(())
    }
}

} // verus!
