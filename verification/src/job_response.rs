//! Responses: what is recorded of the work done for a request.

use crate::error::{ConversionError, Field, Problem};
use crate::fresh::{epoch_seconds, random_uuid};
use crate::job::{Job, JobView};
use crate::job_request::{fault, i64_at, read_i64, read_text, text_at};
use crate::job_type::{deserialize_job_types, job_types_named, JobType};
use crate::record::{AttributeView, Record};
use crate::status::{deserialize_statuses, statuses_named, Status};
use vstd::prelude::*;

verus! {

/// What is recorded of the work done for a request: which analyses, and
/// how far each has come.
#[derive(Debug)]
pub struct JobResponse {
    /// The key of the response in the store.
    pub response_id: String,
    /// The request that the response answers.
    pub request_id: String,
    /// When the work ended, in seconds since the epoch.
    pub end_timestamp: i64,
    pub job_type: Vec<JobType>,
    pub job_status: Vec<Status>,
}

/// What a [`JobResponse`] holds.
pub struct JobResponseView {
    pub response_id: Seq<char>,
    pub request_id: Seq<char>,
    pub end_timestamp: i64,
    pub job_type: Seq<JobType>,
    pub job_status: Seq<Status>,
}

impl View for JobResponse {
    type V = JobResponseView;

    open spec fn view(&self) -> JobResponseView {
        JobResponseView {
            response_id: self.response_id@,
            request_id: self.request_id@,
            end_timestamp: self.end_timestamp,
            job_type: self.job_type@,
            job_status: self.job_status@,
        }
    }
}

/// The response to `job` under the key `response_id`, ended at `now`.
pub open spec fn new_response(
    job: JobView,
    response_id: Seq<char>,
    now: i64,
    job_types: Seq<JobType>,
    job_status: Seq<Status>,
) -> JobResponseView {
    JobResponseView {
        response_id,
        request_id: job.request_id,
        end_timestamp: now,
        job_type: job_types,
        job_status,
    }
}

impl JobResponse {
    /// The response to `job` under the key `response_id`, ended at `now`.
    pub fn for_job(
        job: &Job,
        response_id: String,
        now: i64,
        job_types: Vec<JobType>,
        job_status: Vec<Status>,
    ) -> (response: JobResponse)
        ensures
            response@ == new_response(job@, response_id@, now, job_types@, job_status@),
    {
        JobResponse {
            response_id,
            request_id: job.request_id.clone(),
            end_timestamp: now,
            job_type: job_types,
            job_status,
        }
    }
}

/// A response to `job`, under a fresh random key, ended now.
pub fn create_job_response(job: &Job, job_types: Vec<JobType>, job_status: Vec<Status>) -> (response:
    JobResponse)
    ensures
        response@ == new_response(
            job@,
            response@.response_id,
            response@.end_timestamp,
            job_types@,
            job_status@,
        ),
        response@.response_id.len() == 36,
{
    let response_id = random_uuid();
    let now = epoch_seconds();
    JobResponse::for_job(job, response_id, now, job_types, job_status)
}

/// What `serde_json::from_str` reads from `text` as a list of texts: the
/// texts of a JSON array of strings, or nothing where `text` is no such
/// array.
pub uninterp spec fn json_texts(text: Seq<char>) -> Option<Seq<Seq<char>>>;

/// `serde_json::from_str` at the type of a list of texts, its error
/// dropped. The result is named, not described: it is `json_texts` of the
/// argument.
#[verifier::external_body]
fn read_json_texts(text: &str) -> (texts: Option<Vec<String>>)
    ensures
        match texts {
            Some(found) => json_texts(text@) == Some(found.deep_view()),
            None => json_texts(text@) is None,
        },
{
    serde_json::from_str::<Vec<String>>(text).ok()
}

/// The kinds of analysis that `texts` name, where the attribute `field`
/// holds them.
pub open spec fn kinds_in(texts: Option<Seq<Seq<char>>>, field: Field) -> Result<
    Seq<JobType>,
    ConversionError,
> {
    match texts {
        None => fault(field, Problem::Malformed),
        Some(names) => match job_types_named(names) {
            Some(kinds) => Ok(kinds),
            None => fault(field, Problem::Malformed),
        },
    }
}

/// The statuses that `texts` name, where the attribute `field` holds them.
pub open spec fn statuses_in(texts: Option<Seq<Seq<char>>>, field: Field) -> Result<
    Seq<Status>,
    ConversionError,
> {
    match texts {
        None => fault(field, Problem::Malformed),
        Some(names) => match statuses_named(names) {
            Some(statuses) => Ok(statuses),
            None => fault(field, Problem::Malformed),
        },
    }
}

/// The kinds of analysis that the text attribute `field` of `item` lists,
/// as a JSON array of their names.
pub open spec fn kinds_at(item: Map<Seq<char>, AttributeView>, field: Field) -> Result<
    Seq<JobType>,
    ConversionError,
> {
    match text_at(item, field) {
        Ok(text) => kinds_in(json_texts(text), field),
        Err(e) => Err(e),
    }
}

/// The statuses that the text attribute `field` of `item` lists, as a JSON
/// array of their texts.
pub open spec fn statuses_at(item: Map<Seq<char>, AttributeView>, field: Field) -> Result<
    Seq<Status>,
    ConversionError,
> {
    match text_at(item, field) {
        Ok(text) => statuses_in(json_texts(text), field),
        Err(e) => Err(e),
    }
}

/// The kinds of analysis that `texts` name, where the attribute `field`
/// holds them.
pub fn read_kinds(texts: Option<Vec<String>>, field: Field) -> (kinds: Result<
    Vec<JobType>,
    ConversionError,
>)
    ensures
        match kinds {
            Ok(found) => kinds_in(
                match texts {
                    Some(names) => Some(names.deep_view()),
                    None => None,
                },
                field,
            ) == Ok::<Seq<JobType>, ConversionError>(found@),
            Err(e) => kinds_in(
                match texts {
                    Some(names) => Some(names.deep_view()),
                    None => None,
                },
                field,
            ) == Err::<Seq<JobType>, ConversionError>(e),
        },
{
    match texts {
        None => Err(ConversionError { field, problem: Problem::Malformed }),
        Some(names) => match deserialize_job_types(&names) {
            Ok(kinds) => Ok(kinds),
            Err(_) => Err(ConversionError { field, problem: Problem::Malformed }),
        },
    }
}

/// The statuses that `texts` name, where the attribute `field` holds them.
pub fn read_statuses(texts: Option<Vec<String>>, field: Field) -> (statuses: Result<
    Vec<Status>,
    ConversionError,
>)
    ensures
        match statuses {
            Ok(found) => statuses_in(
                match texts {
                    Some(names) => Some(names.deep_view()),
                    None => None,
                },
                field,
            ) == Ok::<Seq<Status>, ConversionError>(found@),
            Err(e) => statuses_in(
                match texts {
                    Some(names) => Some(names.deep_view()),
                    None => None,
                },
                field,
            ) == Err::<Seq<Status>, ConversionError>(e),
        },
{
    match texts {
        None => Err(ConversionError { field, problem: Problem::Malformed }),
        Some(names) => match deserialize_statuses(&names) {
            Ok(statuses) => Ok(statuses),
            Err(_) => Err(ConversionError { field, problem: Problem::Malformed }),
        },
    }
}

/// The response that `item` holds: its attributes read in the order
/// `jobType`, `jobStatus`, `responseID`, `requestID`, `endTimestamp`; the
/// first that is missing, of the wrong kind or unreadable makes the error.
pub open spec fn response_of(item: Map<Seq<char>, AttributeView>) -> Result<
    JobResponseView,
    ConversionError,
> {
    let job_type = kinds_at(item, Field::JobType);
    let job_status = statuses_at(item, Field::JobStatus);
    let response_id = text_at(item, Field::ResponseId);
    let request_id = text_at(item, Field::RequestId);
    let end_timestamp = i64_at(item, Field::EndTimestamp);
    if job_type is Err {
        Err(job_type->Err_0)
    } else if job_status is Err {
        Err(job_status->Err_0)
    } else if response_id is Err {
        Err(response_id->Err_0)
    } else if request_id is Err {
        Err(request_id->Err_0)
    } else if end_timestamp is Err {
        Err(end_timestamp->Err_0)
    } else {
        Ok(
            JobResponseView {
                response_id: response_id->Ok_0,
                request_id: request_id->Ok_0,
                end_timestamp: end_timestamp->Ok_0,
                job_type: job_type->Ok_0,
                job_status: job_status->Ok_0,
            },
        )
    }
}

/// Reads a stored record as a response.
pub fn convert_item_to_job_response(item: &Record) -> (response: Result<
    JobResponse,
    ConversionError,
>)
    ensures
        match response {
            Ok(found) => response_of(item@) == Ok::<JobResponseView, ConversionError>(found@),
            Err(e) => response_of(item@) == Err::<JobResponseView, ConversionError>(e),
        },
{
    let job_type_str = read_text(item, Field::JobType)?;
    let job_type = read_kinds(read_json_texts(job_type_str.as_str()), Field::JobType)?;
    let job_status_str = read_text(item, Field::JobStatus)?;
    let job_status = read_statuses(read_json_texts(job_status_str.as_str()), Field::JobStatus)?;
    let response_id = read_text(item, Field::ResponseId)?;
    let request_id = read_text(item, Field::RequestId)?;
    let end_timestamp = read_i64(item, Field::EndTimestamp)?;
    Ok(JobResponse { response_id, request_id, end_timestamp, job_type, job_status })
}

} // verus!
