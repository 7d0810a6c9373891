//! From the request store to the queue and back: which jobs a request
//! gives rise to, and how a stored request moves on as its jobs do.
//!
//! Nothing here reaches the store. A [`StatusUpdate`] says what is to be
//! written there; the records come from whoever has read them.

use crate::analysis::create_job_instance;
use crate::error::{ConversionError, Error, Field, TransitionError};
use crate::job::{create_job_from_request, new_job};
use crate::job_queue::{Entry, JobQueue};
use crate::job_request::{
    convert_item_to_job_request, i32_at, i64_at, numeral_at, request_of, status_at, text_at,
    texts_at, JobRequest, JobRequestView,
};
use crate::job_type::JobType;
use crate::record::{Attribute, AttributeView, Record};
use crate::status::Status;
use vstd::prelude::*;

verus! {

/// The table of the store that holds the requests.
pub open spec fn requests_table() -> Seq<char> {
    "mockRequests"@
}

/// The jobs that `request` gives rise to, one for each kind of analysis it
/// asks for: whether `added` holds such jobs, all queued, in the order of
/// the request. Of each job's key and time nothing is asked.
pub open spec fn jobs_of_request(request: JobRequestView, added: Seq<Entry>) -> bool {
    let kinds = JobType::selected(request.analysis_types);
    &&& added.len() == kinds.len()
    &&& forall|i: int|
        0 <= i < added.len() ==> (#[trigger] added[i]).kind == kinds[i] && added[i].job == new_job(
            request,
            added[i].job.job_id,
            added[i].job.last_updated,
        ).with_status(Status::Queued)
}

/// Adds to `job_queue` one job for each kind of analysis that `job_request`
/// asks for, in the order in which it names them: each a job of its own,
/// under a fresh key, and queued. Names that stand for no kind of analysis
/// are passed over. This cannot fail.
pub fn queue_jobs_from_request(job_request: &JobRequest, job_queue: &mut JobQueue) -> (done: Result<
    (),
    Error,
>)
    ensures
        done is Ok,
        old(job_queue)@.len() <= final(job_queue)@.len(),
        final(job_queue)@.take(old(job_queue)@.len() as int) == old(job_queue)@,
        jobs_of_request(job_request@, final(job_queue)@.skip(old(job_queue)@.len() as int)),
{
    let analysis_types = JobType::from_request(job_request);
    let ghost before = job_queue@;
    let ghost kinds = JobType::selected(job_request@.analysis_types);
    let mut i: usize = 0;
    assert(job_queue@.skip(before.len() as int) =~= Seq::<Entry>::empty());
    assert(job_queue@.take(before.len() as int) =~= before);
    while i < analysis_types.len()
        invariant
            i <= analysis_types.len(),
            analysis_types@ == kinds,
            kinds == JobType::selected(job_request@.analysis_types),
            forall|j: int| 0 <= j < kinds.len() ==> kinds[j] != JobType::Nothing,
            job_queue@.len() == before.len() + i,
            job_queue@.take(before.len() as int) == before,
            forall|j: int|
                0 <= j < i ==> (#[trigger] job_queue@[before.len() + j]).kind == kinds[j]
                    && job_queue@[before.len() + j].job == new_job(
                    job_request@,
                    job_queue@[before.len() + j].job.job_id,
                    job_queue@[before.len() + j].job.last_updated,
                ).with_status(Status::Queued),
        decreases analysis_types.len() - i,
    {
        let mut job = create_job_from_request(job_request);
        job.advance();
        let job_impl = create_job_instance(analysis_types[i]);
        let ghost earlier = job_queue@;
        job_queue.add_job(job_impl, job);
        proof {
            assert(job_queue@.take(before.len() as int) =~= earlier.take(before.len() as int));
            assert forall|j: int| 0 <= j < i + 1 implies (#[trigger] job_queue@[before.len() + j]).kind
                == kinds[j] && job_queue@[before.len() + j].job == new_job(
                job_request@,
                job_queue@[before.len() + j].job.job_id,
                job_queue@[before.len() + j].job.last_updated,
            ).with_status(Status::Queued) by {
                if j < i {
                    assert(job_queue@[before.len() + j] == earlier[before.len() + j]);
                }
            }
        }
        i += 1;
    }
    proof {
        let added = job_queue@.skip(before.len() as int);
        assert forall|j: int| 0 <= j < added.len() implies (#[trigger] added[j]).kind == kinds[j]
            && added[j].job == new_job(
            job_request@,
            added[j].job.job_id,
            added[j].job.last_updated,
        ).with_status(Status::Queued) by {
            assert(added[j] == job_queue@[before.len() + j]);
        }
    }
    Ok(())
}

/// What is to be written to the store to move a request on.
#[derive(Debug)]
pub struct StatusUpdate {
    /// The table that holds the request.
    pub table: String,
    /// The first part of the request's key: its attribute `requestID`.
    pub request_id: Attribute,
    /// The second part of the request's key: its attribute `creationDate`.
    pub creation_date: Attribute,
    /// The status to store; its text goes under `jobStatus`.
    pub status: Status,
    /// The request's record as it will be once the status is stored.
    pub updated_item: Record,
}

/// What a [`StatusUpdate`] holds.
pub struct StatusUpdateView {
    pub table: Seq<char>,
    pub request_id: AttributeView,
    pub creation_date: AttributeView,
    pub status: Status,
    pub updated_item: Map<Seq<char>, AttributeView>,
}

impl View for StatusUpdate {
    type V = StatusUpdateView;

    open spec fn view(&self) -> StatusUpdateView {
        StatusUpdateView {
            table: self.table@,
            request_id: self.request_id@,
            creation_date: self.creation_date@,
            status: self.status,
            updated_item: self.updated_item@,
        }
    }
}

/// `item` with `status` as its stored status.
pub open spec fn with_status(item: Map<Seq<char>, AttributeView>, status: Status) -> Map<
    Seq<char>,
    AttributeView,
> {
    item.insert(Field::JobStatus.attribute(), AttributeView::S(status.text()))
}

/// Whether `item` has the two attributes that make a request's key.
pub open spec fn has_key(item: Map<Seq<char>, AttributeView>) -> bool {
    item.dom().contains(Field::RequestId.attribute()) && item.dom().contains(
        Field::CreationDate.attribute(),
    )
}

/// The update that moves the request `item` in `table` on from `current`:
/// the status that follows `current` is stored for the request of that key.
/// Where nothing follows `current` there is no update.
pub open spec fn update_of(
    item: Map<Seq<char>, AttributeView>,
    current: Status,
    table: Seq<char>,
) -> Result<StatusUpdateView, TransitionError> {
    match current.successor() {
        Some(following) => Ok(
            StatusUpdateView {
                table,
                request_id: item[Field::RequestId.attribute()],
                creation_date: item[Field::CreationDate.attribute()],
                status: following,
                updated_item: with_status(item, following),
            },
        ),
        None => Err(TransitionError),
    }
}

/// What is to be written to `table` to move the request `item` on from
/// `current_status`, and the record as it will then be.
pub fn update_request_status(item: &Record, current_status: &Status, table: &str) -> (update: Result<
    StatusUpdate,
    TransitionError,
>)
    requires
        has_key(item@),
    ensures
        match update {
            Ok(planned) => update_of(item@, *current_status, table@) == Ok::<
                StatusUpdateView,
                TransitionError,
            >(planned@),
            Err(e) => update_of(item@, *current_status, table@) == Err::<
                StatusUpdateView,
                TransitionError,
            >(e),
        },
{
    match current_status.next() {
        Some(new_status) => {
            let request_id = item.value(Field::RequestId.attribute_name()).duplicate();
            let creation_date = item.value(Field::CreationDate.attribute_name()).duplicate();
            let mut updated_item = item.duplicate();
            updated_item.insert(
                Field::JobStatus.attribute_name(),
                Attribute::S(new_status.to_text()),
            );
            Ok(
                StatusUpdate {
                    table: table.to_owned(),
                    request_id,
                    creation_date,
                    status: new_status,
                    updated_item,
                },
            )
        },
        None => Err(TransitionError),
    }
}

/// The name under which the status is stored is the name of no other
/// attribute.
pub proof fn lemma_status_attribute_apart(field: Field)
    ensures
        field != Field::JobStatus ==> field.attribute() != Field::JobStatus.attribute(),
{
    reveal_strlit("id");
    reveal_strlit("requestID");
    reveal_strlit("jobName");
    reveal_strlit("author");
    reveal_strlit("jobDescription");
    reveal_strlit("analysisTypes");
    reveal_strlit("creationDate");
    reveal_strlit("jobStatus");
    reveal_strlit("sources");
    reveal_strlit("dateRangeStart");
    reveal_strlit("dateRangeEnd");
    reveal_strlit("granularity");
    reveal_strlit("jobID");
    reveal_strlit("responseID");
    reveal_strlit("lastUpdated");
    reveal_strlit("inputPath");
    reveal_strlit("jobType");
    reveal_strlit("startTimestamp");
    reveal_strlit("endTimestamp");
    let status = Field::JobStatus.attribute();
    assert(status.len() == 9 && status[0] == 'j');
    match field {
        Field::Id => assert(field.attribute().len() == 2),
        Field::RequestId => assert(field.attribute()[0] == 'r'),
        Field::JobName => assert(field.attribute().len() == 7),
        Field::Author => assert(field.attribute().len() == 6),
        Field::JobDescription => assert(field.attribute().len() == 14),
        Field::AnalysisTypes => assert(field.attribute().len() == 13),
        Field::CreationDate => assert(field.attribute().len() == 12),
        Field::JobStatus => {},
        Field::Sources => assert(field.attribute().len() == 7),
        Field::DateRangeStart => assert(field.attribute().len() == 14),
        Field::DateRangeEnd => assert(field.attribute().len() == 12),
        Field::Granularity => assert(field.attribute().len() == 11),
        Field::JobId => assert(field.attribute().len() == 5),
        Field::ResponseId => assert(field.attribute().len() == 10),
        Field::LastUpdated => assert(field.attribute().len() == 11),
        Field::InputPath => assert(field.attribute()[0] == 'i'),
        Field::JobType => assert(field.attribute().len() == 7),
        Field::StartTimestamp => assert(field.attribute().len() == 14),
        Field::EndTimestamp => assert(field.attribute().len() == 12),
    }
}

/// `request` with `status` as its status.
pub open spec fn request_with_status(request: JobRequestView, status: Status) -> JobRequestView {
    JobRequestView { status, ..request }
}

/// A record that reads as a request still reads as that request once
/// another status is stored in it, but for the status, which is the one
/// stored.
pub proof fn lemma_stored_status_is_read(item: Map<Seq<char>, AttributeView>, status: Status)
    requires
        request_of(item) is Ok,
    ensures
        request_of(with_status(item, status)) == Ok::<JobRequestView, ConversionError>(
            request_with_status(request_of(item)->Ok_0, status),
        ),
{
    let changed = with_status(item, status);
    status.lemma_text_round_trip();
    lemma_status_attribute_apart(Field::Id);
    lemma_status_attribute_apart(Field::RequestId);
    lemma_status_attribute_apart(Field::JobName);
    lemma_status_attribute_apart(Field::Author);
    lemma_status_attribute_apart(Field::JobDescription);
    lemma_status_attribute_apart(Field::AnalysisTypes);
    lemma_status_attribute_apart(Field::CreationDate);
    lemma_status_attribute_apart(Field::Sources);
    lemma_status_attribute_apart(Field::DateRangeStart);
    lemma_status_attribute_apart(Field::DateRangeEnd);
    lemma_status_attribute_apart(Field::Granularity);
    assert(text_at(changed, Field::Id) == text_at(item, Field::Id));
    assert(text_at(changed, Field::RequestId) == text_at(item, Field::RequestId));
    assert(text_at(changed, Field::JobName) == text_at(item, Field::JobName));
    assert(text_at(changed, Field::Author) == text_at(item, Field::Author));
    assert(text_at(changed, Field::JobDescription) == text_at(item, Field::JobDescription));
    assert(texts_at(changed, Field::AnalysisTypes) == texts_at(item, Field::AnalysisTypes));
    assert(numeral_at(changed, Field::CreationDate) == numeral_at(item, Field::CreationDate));
    assert(i64_at(changed, Field::CreationDate) == i64_at(item, Field::CreationDate));
    assert(status_at(changed, Field::JobStatus) == Ok::<Status, ConversionError>(status));
    assert(texts_at(changed, Field::Sources) == texts_at(item, Field::Sources));
    assert(numeral_at(changed, Field::DateRangeStart) == numeral_at(item, Field::DateRangeStart));
    assert(i64_at(changed, Field::DateRangeStart) == i64_at(item, Field::DateRangeStart));
    assert(numeral_at(changed, Field::DateRangeEnd) == numeral_at(item, Field::DateRangeEnd));
    assert(i64_at(changed, Field::DateRangeEnd) == i64_at(item, Field::DateRangeEnd));
    assert(numeral_at(changed, Field::Granularity) == numeral_at(item, Field::Granularity));
    assert(i32_at(changed, Field::Granularity) == i32_at(item, Field::Granularity));
}

/// A record that reads as a request has the two attributes of its key.
pub proof fn lemma_request_has_key(item: Map<Seq<char>, AttributeView>)
    requires
        request_of(item) is Ok,
    ensures
        has_key(item),
{
}

/// A stored request that moves on: what is to be written to the store, and
/// after that the request as the record then reads, which is what is to be
/// published, or why the record does not read as one.
#[derive(Debug)]
pub struct MovedRequest {
    pub update: StatusUpdate,
    pub request: Result<JobRequest, ConversionError>,
}

/// Whether `request` stands for `model`.
pub open spec fn request_matches(
    request: Result<JobRequest, ConversionError>,
    model: Result<JobRequestView, ConversionError>,
) -> bool {
    match request {
        Ok(read) => model == Ok::<JobRequestView, ConversionError>(read@),
        Err(e) => model == Err::<JobRequestView, ConversionError>(e),
    }
}

/// Whether `moved` is what moving `item` on from `current` in the table of
/// requests comes to: the update is the one for that step, and the request
/// is what the updated record reads as.
pub open spec fn moves_on(
    moved: MovedRequest,
    item: Map<Seq<char>, AttributeView>,
    current: Status,
) -> bool {
    &&& update_of(item, current, requests_table()) == Ok::<StatusUpdateView, TransitionError>(
        moved.update@,
    )
    &&& request_matches(moved.request, request_of(moved.update@.updated_item))
}

/// Moves the stored request `item` on from `current_status`: what is to be
/// written to the store, and the request to publish once that is done.
/// Where nothing follows `current_status`, nothing is to be written.
pub fn move_request_on(item: &Record, current_status: &Status) -> (moved: Result<
    MovedRequest,
    TransitionError,
>)
    requires
        has_key(item@),
    ensures
        match moved {
            Ok(planned) => moves_on(planned, item@, *current_status),
            Err(_) => current_status.successor() is None,
        },
{
    let update = update_request_status(item, current_status, "mockRequests")?;
    let request = convert_item_to_job_request(&update.updated_item);
    Ok(MovedRequest { update, request })
}

/// Takes in one newly scanned record: reads it as a request, adds the
/// request's jobs to `job_queue`, and moves the request on from the status
/// it has. The result says what is to be written to the store and, after
/// that, published.
///
/// A record that does not read as a request is refused, and leaves the
/// queue as it is. A request whose status nothing follows is refused too,
/// but has its jobs queued all the same. Any other request moves on, and
/// reads afterwards as before but for its status.
pub fn queue_new_request(item: &Record, job_queue: &mut JobQueue) -> (taken: Result<
    MovedRequest,
    Error,
>)
    ensures
        old(job_queue)@.len() <= final(job_queue)@.len(),
        final(job_queue)@.take(old(job_queue)@.len() as int) == old(job_queue)@,
        match request_of(item@) {
            Err(e) => taken matches Err(Error::Conversion(refused)) && refused == e
                && final(job_queue)@ == old(job_queue)@,
            Ok(request) => jobs_of_request(
                request,
                final(job_queue)@.skip(old(job_queue)@.len() as int),
            ) && match request.status.successor() {
                None => taken matches Err(Error::Transition),
                Some(following) => taken matches Ok(moved) && moves_on(moved, item@, request.status)
                    && moved.update.status == following && request_matches(
                    moved.request,
                    Ok(request_with_status(request, following)),
                ),
            },
        },
{
    let job_request = match convert_item_to_job_request(item) {
        Ok(request) => request,
        Err(e) => {
            assert(job_queue@.take(job_queue@.len() as int) =~= job_queue@);
            return Err(Error::Conversion(e));
        },
    };
    let _ = queue_jobs_from_request(&job_request, job_queue);
    proof {
        lemma_request_has_key(item@);
        if job_request.status.successor() is Some {
            lemma_stored_status_is_read(item@, job_request.status.successor()->Some_0);
        }
    }
    match move_request_on(item, &job_request.status) {
        Ok(moved) => Ok(moved),
        Err(_) => Err(Error::Transition),
    }
}

/// The requests of the completed jobs of `jobs`, job by job in their
/// order.
pub open spec fn completed_requests(jobs: Seq<Entry>) -> Seq<Seq<char>>
    decreases jobs.len(),
{
    if jobs.len() == 0 {
        Seq::empty()
    } else if jobs.last().job.status == Status::Completed {
        completed_requests(jobs.drop_last()).push(jobs.last().job.request_id)
    } else {
        completed_requests(jobs.drop_last())
    }
}

/// The keys of the requests whose jobs in `job_queue` are completed, one
/// for each such job, in the order of the queue. Jobs that are not
/// completed are passed over.
pub fn completed_request_ids(job_queue: &JobQueue) -> (ids: Vec<String>)
    ensures
        ids.deep_view() == completed_requests(job_queue@),
{
    let mut ids: Vec<String> = Vec::new();
    let mut i: usize = 0;
    assert(job_queue@.take(0) =~= Seq::<Entry>::empty());
    assert(ids.deep_view() =~= Seq::<Seq<char>>::empty());
    while i < job_queue.len()
        invariant
            i <= job_queue@.len(),
            ids.deep_view() == completed_requests(job_queue@.take(i as int)),
        decreases job_queue@.len() - i,
    {
        let ghost earlier = ids.deep_view();
        let ghost longer = job_queue@.take(i + 1);
        assert(longer.drop_last() =~= job_queue@.take(i as int));
        assert(longer.last() == job_queue@[i as int]);
        let job = job_queue.job(i);
        if job.status == Status::Completed {
            ids.push(job.request_id.clone());
            assert(ids.deep_view() =~= earlier.push(job@.request_id));
        }
        i += 1;
    }
    assert(job_queue@.take(i as int) =~= job_queue@);
    ids
}

} // verus!
