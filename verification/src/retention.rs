//! Which message queues have outlived their use.

use crate::numeral::{i64_value, parse_i64};
use crate::text::{contains, occurs_in};
use vstd::prelude::*;

verus! {

/// For how many hours a queue of updates is kept.
pub const MAX_QUEUE_HOURS: i64 = 2;

/// For how many seconds a queue of updates is kept.
pub const MAX_QUEUE_AGE: i64 = 7200;

/// Whether the queue at `queue_url` is one of the queues of updates: those
/// whose address holds `requestUpdates`.
pub fn is_update_queue(queue_url: &str) -> (held: bool)
    ensures
        held == occurs_in(queue_url@, "requestUpdates"@),
{
    contains(queue_url, "requestUpdates")
}

/// The age at the time `now` of a queue whose time of creation the
/// service gives as `created_timestamp`, both in seconds since the epoch.
/// There is none where that text is no number, or where the difference does
/// not fit in an `i64`.
pub open spec fn age_at(now: i64, created_timestamp: Seq<char>) -> Option<i64> {
    match i64_value(created_timestamp) {
        Some(created) => if i64::MIN <= now - created <= i64::MAX {
            Some((now - created) as i64)
        } else {
            None
        },
        None => None,
    }
}

/// The age at the time `now` of a queue whose time of creation the
/// service gives as `created_timestamp`.
pub fn queue_age(now: i64, created_timestamp: &str) -> (age: Option<i64>)
    ensures
        age == age_at(now, created_timestamp@),
{
    match parse_i64(created_timestamp) {
        Some(created) => now.checked_sub(created),
        None => None,
    }
}

/// Whether a queue of the age `queue_age` has been kept for longer than
/// `max_age`.
pub fn is_expired(queue_age: i64, max_age: i64) -> (expired: bool)
    ensures
        expired == (queue_age > max_age),
{
    queue_age > max_age
}

/// Whether the queue at `queue_url`, of the age `queue_age`, is to be
/// deleted: a queue of updates that has been kept for longer than
/// `max_age`.
pub fn should_delete(queue_url: &str, queue_age: i64, max_age: i64) -> (delete: bool)
    ensures
        delete == (occurs_in(queue_url@, "requestUpdates"@) && queue_age > max_age),
{
    is_update_queue(queue_url) && is_expired(queue_age, max_age)
}

} // verus!
