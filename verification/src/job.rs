//! Jobs: one unit of work for one analysis of a request.

use crate::error::{ConversionError, Field};
use crate::fresh::{epoch_seconds, random_uuid};
use crate::job_request::{
    i64_at, read_i64, read_status, read_text, status_at, text_at, JobRequest, JobRequestView,
};
use crate::record::{AttributeView, Record};
use crate::status::Status;
use vstd::prelude::*;
use vstd::string::StringExecFns;

verus! {

/// One unit of work that a request gave rise to.
#[derive(Debug)]
pub struct Job {
    /// The key of the job in the store.
    pub job_id: String,
    /// The request that the job belongs to.
    pub request_id: String,
    /// The latest response to the job; empty until there is one.
    pub current_response_id: String,
    pub status: Status,
    /// When the job was last touched, in seconds since the epoch.
    pub last_updated: i64,
    /// Where the job's input and output lie.
    pub s3_path: String,
}

/// What a [`Job`] holds.
pub struct JobView {
    pub job_id: Seq<char>,
    pub request_id: Seq<char>,
    pub current_response_id: Seq<char>,
    pub status: Status,
    pub last_updated: i64,
    pub s3_path: Seq<char>,
}

impl View for Job {
    type V = JobView;

    open spec fn view(&self) -> JobView {
        JobView {
            job_id: self.job_id@,
            request_id: self.request_id@,
            current_response_id: self.current_response_id@,
            status: self.status,
            last_updated: self.last_updated,
            s3_path: self.s3_path@,
        }
    }
}

impl JobView {
    /// `self` with another status.
    pub open spec fn with_status(self, status: Status) -> JobView {
        JobView { status, ..self }
    }
}

/// Where the artifacts of the request called `id` lie.
pub open spec fn storage_path(id: Seq<char>) -> Seq<char> {
    "s3://metadata/"@ + id + "/"@
}

/// The job that `request` gives rise to under the key `job_id` at the time
/// `now`: pending, without a response, its artifacts under the request's
/// `id`.
pub open spec fn new_job(request: JobRequestView, job_id: Seq<char>, now: i64) -> JobView {
    JobView {
        job_id,
        request_id: request.request_id,
        current_response_id: Seq::empty(),
        status: Status::Pending,
        last_updated: now,
        s3_path: storage_path(request.id),
    }
}

impl Job {
    /// The job that `job_request` gives rise to under the key `job_id` at
    /// the time `now`.
    pub fn for_request(job_request: &JobRequest, job_id: String, now: i64) -> (job: Job)
        ensures
            job@ == new_job(job_request@, job_id@, now),
    {
        let mut s3_path = "s3://metadata/".to_owned();
        s3_path.append(job_request.id.as_str());
        s3_path.append("/");
        Job {
            job_id,
            request_id: job_request.request_id.clone(),
            current_response_id: String::new(),
            status: Status::Pending,
            last_updated: now,
            s3_path,
        }
    }

    /// A copy of `self`.
    pub fn duplicate(&self) -> (copy: Job)
        ensures
            copy@ == self@,
    {
        Job {
            job_id: self.job_id.clone(),
            request_id: self.request_id.clone(),
            current_response_id: self.current_response_id.clone(),
            status: self.status,
            last_updated: self.last_updated,
            s3_path: self.s3_path.clone(),
        }
    }

    /// Moves the status one step forward, where something follows it.
    pub fn advance(&mut self)
        ensures
            final(self)@ == old(self)@.with_status(old(self).status.advanced()),
    {
        if let Some(following) = self.status.next() {
            self.status = following;
        }
    }
}

/// A new job for `job_request`: pending, under a fresh random key, stamped
/// with the present time.
pub fn create_job_from_request(job_request: &JobRequest) -> (job: Job)
    ensures
        job@ == new_job(job_request@, job@.job_id, job@.last_updated),
        job@.job_id.len() == 36,
{
    let job_id = random_uuid();
    let now = epoch_seconds();
    Job::for_request(job_request, job_id, now)
}

/// The job that `item` holds: its attributes read in the order `jobID`,
/// `requestID`, `responseID`, `jobStatus`, `lastUpdated`, `inputPath`; the
/// first that is missing, of the wrong kind or unreadable makes the error.
pub open spec fn job_of(item: Map<Seq<char>, AttributeView>) -> Result<JobView, ConversionError> {
    let job_id = text_at(item, Field::JobId);
    let request_id = text_at(item, Field::RequestId);
    let response_id = text_at(item, Field::ResponseId);
    let status = status_at(item, Field::JobStatus);
    let last_updated = i64_at(item, Field::LastUpdated);
    let s3_path = text_at(item, Field::InputPath);
    if job_id is Err {
        Err(job_id->Err_0)
    } else if request_id is Err {
        Err(request_id->Err_0)
    } else if response_id is Err {
        Err(response_id->Err_0)
    } else if status is Err {
        Err(status->Err_0)
    } else if last_updated is Err {
        Err(last_updated->Err_0)
    } else if s3_path is Err {
        Err(s3_path->Err_0)
    } else {
        Ok(
            JobView {
                job_id: job_id->Ok_0,
                request_id: request_id->Ok_0,
                current_response_id: response_id->Ok_0,
                status: status->Ok_0,
                last_updated: last_updated->Ok_0,
                s3_path: s3_path->Ok_0,
            },
        )
    }
}

/// Reads a stored record as a job.
pub fn convert_item_to_job(item: &Record) -> (job: Result<Job, ConversionError>)
    ensures
        match job {
            Ok(found) => job_of(item@) == Ok::<JobView, ConversionError>(found@),
            Err(e) => job_of(item@) == Err::<JobView, ConversionError>(e),
        },
{
    let job_id = read_text(item, Field::JobId)?;
    let request_id = read_text(item, Field::RequestId)?;
    let current_response_id = read_text(item, Field::ResponseId)?;
    let status = read_status(item, Field::JobStatus)?;
    let last_updated = read_i64(item, Field::LastUpdated)?;
    let s3_path = read_text(item, Field::InputPath)?;
    Ok(Job { job_id, request_id, current_response_id, status, last_updated, s3_path })
}

} // verus!
