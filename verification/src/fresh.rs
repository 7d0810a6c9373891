//! What is new at every call: random keys, and the time.

use vstd::prelude::*;
use vstd::string::StrSliceExecFns;

verus! {

/// `uuid::Uuid::new_v4` in the text form of its `Display`: a random
/// identifier, 36 characters long. Which identifier is not stated: every
/// call may give another.
#[verifier::external_body]
pub(crate) fn random_uuid() -> (id: String)
    ensures
        id@.len() == 36,
{
    uuid::Uuid::new_v4().to_string()
}

/// `chrono::Utc::now` as `timestamp` gives it: the seconds since the epoch
/// at the moment of the call. Nothing is stated of the number.
#[verifier::external_body]
pub(crate) fn epoch_seconds() -> i64 {
    chrono::Utc::now().timestamp()
}

/// The first `count` characters of `id`, or all of it where it has no more.
pub fn shortened(id: &str, count: usize) -> (short: String)
    ensures
        short@ == if count <= id@.len() {
            id@.take(count as int)
        } else {
            id@
        },
{
    let length = id.unicode_len();
    if count <= length {
        let short = id.substring_char(0, count).to_owned();
        assert(id@.subrange(0, count as int) =~= id@.take(count as int));
        short
    } else {
        id.to_owned()
    }
}

/// A fresh random key for a request: the first eight characters of a
/// random identifier.
pub fn generate_request_id() -> (id: String)
    ensures
        id@.len() == 8,
{
    let full = random_uuid();
    shortened(full.as_str(), 8)
}

} // verus!
