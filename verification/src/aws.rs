//! What is asked of the cloud services: the text of a query, how far a
//! query has come, and the source of a copy.

use crate::text::same_text;
use vstd::prelude::*;
use vstd::string::StringExecFns;

verus! {

/// The query that makes the table `new_table` in `database` from what
/// `base_query` selects, written out as JSON at `external_location`.
pub open spec fn ctas_text(
    database: Seq<char>,
    new_table: Seq<char>,
    external_location: Seq<char>,
    base_query: Seq<char>,
) -> Seq<char> {
    "CREATE TABLE \""@ + database + "\".\""@ + new_table
        + "\"\n           WITH (format = 'JSON',  external_location = '"@ + external_location
        + "')\n           AS "@ + base_query
}

/// The query that makes the table `new_table` in `database` from what
/// `base_query` selects, written out as JSON at `external_location`.
pub fn ctas_query(database: &str, new_table: &str, external_location: &str, base_query: &str) -> (query:
    String)
    ensures
        query@ == ctas_text(database@, new_table@, external_location@, base_query@),
{
    let mut query = "CREATE TABLE \"".to_owned();
    query.append(database);
    query.append("\".\"");
    query.append(new_table);
    query.append("\"\n           WITH (format = 'JSON',  external_location = '");
    query.append(external_location);
    query.append("')\n           AS ");
    query.append(base_query);
    query
}

/// How far a query has come.
#[derive(Clone, Copy, Debug, PartialEq, Eq, Structural)]
pub enum QueryProgress {
    /// The query is done, and its results can be fetched.
    Succeeded,
    /// The query failed or was cancelled: there will be no results.
    Stopped,
    /// Neither: asking again later may tell more.
    Pending,
}

/// How far a query has come whose state the service gives as `state`.
pub open spec fn progress_of(state: Seq<char>) -> QueryProgress {
    if state == "SUCCEEDED"@ {
        QueryProgress::Succeeded
    } else if state == "FAILED"@ || state == "CANCELLED"@ {
        QueryProgress::Stopped
    } else {
        QueryProgress::Pending
    }
}

/// How far a query has come whose state the service gives as `state`.
pub fn query_progress(state: &str) -> (progress: QueryProgress)
    ensures
        progress == progress_of(state@),
{
    if same_text(state, "SUCCEEDED") {
        QueryProgress::Succeeded
    } else if same_text(state, "FAILED") || same_text(state, "CANCELLED") {
        QueryProgress::Stopped
    } else {
        QueryProgress::Pending
    }
}

/// The source of a copy within the bucket `bucket_name`: the bucket, a
/// slash, and the key of the object.
pub fn copy_source(bucket_name: &str, object_key: &str) -> (source: String)
    ensures
        source@ == bucket_name@ + "/"@ + object_key@,
{
    let mut source = bucket_name.to_owned();
    source.append("/");
    source.append(object_key);
    source
}

} // verus!
