//! The queue of jobs, and a pass over it: one job after the other, each
//! advanced, analysed, its results copied, and advanced again. The first
//! failure ends the pass.
//!
//! The queue decides; it runs nothing. [`JobQueue::start`] and
//! [`JobQueue::resume`] hand out the process to run next and take back how
//! it ended.

use crate::analysis::{
    analysis_command, artifact_result, display_name_of, part_at, upload_result, uploads_of,
    AnalysisJob, Command, CommandView, JobInstance, ProcessOutput, ProcessOutputView,
};
use crate::error::{Error, ErrorView, UploadPart};
use crate::job::{Job, JobView};
use crate::job_type::JobType;
use crate::status::Status;
use crate::numeral::{decimal, decimal_text};
use vstd::prelude::*;
use vstd::string::StringExecFns;

verus! {

/// One place in the queue: an analysis and the job it is to be done for.
pub struct Entry {
    pub kind: JobType,
    pub job: JobView,
}

impl Entry {
    /// `self` with the job's status moved one step forward.
    pub open spec fn advanced(self) -> Entry {
        Entry { job: self.job.with_status(self.job.status.advanced()), ..self }
    }
}

/// Jobs in the order in which they were added, which is the order in which
/// they are run.
#[derive(Debug)]
pub struct JobQueue {
    jobs: Vec<(JobInstance, Job)>,
}

impl View for JobQueue {
    type V = Seq<Entry>;

    closed spec fn view(&self) -> Seq<Entry> {
        Seq::new(
            self.jobs@.len(),
            |i: int| Entry { kind: self.jobs@[i].0.kind(), job: self.jobs@[i].1@ },
        )
    }
}

/// Where a pass stands with the job it has reached.
pub enum StageView {
    /// The analysis of the job is running.
    Analysis,
    /// The analysis is done, and the copy at place `part` of `uploads` is
    /// running.
    Upload { part: int, uploads: Seq<CommandView> },
    /// The pass is over.
    Done(Result<(), ErrorView>),
}

/// What a [`QueueRun`] holds.
pub struct RunView {
    /// The place in the queue of the job that the pass has reached.
    pub position: int,
    /// How many analyses the pass has started.
    pub started: int,
    pub stage: StageView,
}

/// A pass over a queue at one moment: the queue and where the pass stands.
pub struct Pass {
    pub entries: Seq<Entry>,
    pub run: RunView,
}

/// The pass that stands at `run` in a queue that holds `entries`.
pub open spec fn moment(entries: Seq<Entry>, run: RunView) -> Pass {
    Pass { entries, run }
}

/// The place in a queue of `job` with an analysis of the given kind.
pub open spec fn entry(kind: JobType, job: JobView) -> Entry {
    Entry { kind, job }
}

/// `entries` with the job at `at` moved one step forward.
pub open spec fn advance_at(entries: Seq<Entry>, at: int) -> Seq<Entry> {
    entries.update(at, entries[at].advanced())
}

/// The pass turns to the job at `position`: the job moves one step forward
/// and its analysis starts. Past the last job the pass is over, and went
/// well.
pub open spec fn begin(entries: Seq<Entry>, position: int, started: int) -> Pass {
    if 0 <= position < entries.len() {
        Pass {
            entries: advance_at(entries, position),
            run: RunView { position, started: started + 1, stage: StageView::Analysis },
        }
    } else {
        Pass { entries, run: RunView { position, started, stage: StageView::Done(Ok(())) } }
    }
}

/// The first moment of a pass over `entries`.
pub open spec fn opened(entries: Seq<Entry>) -> Pass {
    begin(entries, 0, 0)
}

/// The job that the pass has reached is done: it moves one more step
/// forward, and the pass turns to the next.
pub open spec fn completed(pass: Pass) -> Pass {
    begin(advance_at(pass.entries, pass.run.position), pass.run.position + 1, pass.run.started)
}

/// The pass ends with `error`. No job is touched.
pub open spec fn failed(pass: Pass, error: ErrorView) -> Pass {
    Pass { run: RunView { stage: StageView::Done(Err(error)), ..pass.run }, ..pass }
}

/// The pass goes on to the copy at place `part` of `uploads`.
pub open spec fn copying(pass: Pass, part: int, uploads: Seq<CommandView>) -> Pass {
    Pass { run: RunView { stage: StageView::Upload { part, uploads }, ..pass.run }, ..pass }
}

/// The moment after `pass` at which the process that was running has ended
/// as `output` says.
///
/// After an analysis that went well come its copies, one after the other,
/// and after the last of them, or at once where there are none, the job is
/// done. An analysis or a copy that failed ends the pass. A pass that is
/// over stays as it is.
pub open spec fn after(pass: Pass, output: ProcessOutputView) -> Pass {
    match pass.run.stage {
        StageView::Done(_) => pass,
        StageView::Analysis => match artifact_result(output) {
            Err(error) => failed(pass, error),
            Ok(artifact) => {
                let entry = pass.entries[pass.run.position];
                let uploads = uploads_of(entry.kind, entry.job.job_id, artifact);
                if uploads.len() == 0 {
                    completed(pass)
                } else {
                    copying(pass, 0, uploads)
                }
            },
        },
        StageView::Upload { part, uploads } => match upload_result(part_at(part), output) {
            Err(error) => failed(pass, error),
            Ok(()) => if part + 1 < uploads.len() {
                copying(pass, part + 1, uploads)
            } else {
                completed(pass)
            },
        },
    }
}

/// What the caller of a pass is told at the moment `pass`: the process to
/// run next, or that the pass is over, and how it ended.
pub open spec fn told(pass: Pass) -> Result<Option<CommandView>, ErrorView> {
    match pass.run.stage {
        StageView::Analysis => {
            let entry = pass.entries[pass.run.position];
            Ok(Some(analysis_command(entry.kind, entry.job)))
        },
        StageView::Upload { part, uploads } => Ok(Some(uploads[part])),
        StageView::Done(Ok(())) => Ok(None),
        StageView::Done(Err(error)) => Err(error),
    }
}

/// Whether `pass` is a moment that a pass can be at: while it runs it
/// stands at a job of the queue, and at one of that job's copies while it
/// copies.
pub open spec fn coherent(pass: Pass) -> bool {
    &&& 0 <= pass.run.started <= pass.run.position + 1
    &&& 0 <= pass.run.position
    &&& match pass.run.stage {
        StageView::Analysis => pass.run.position < pass.entries.len(),
        StageView::Upload { part, uploads } => pass.run.position < pass.entries.len() && 0 <= part
            < uploads.len(),
        StageView::Done(_) => pass.run.started <= pass.entries.len(),
    }
}

/// The moment that a pass is at after `outputs`, in their order, have been
/// handed to it, starting from `pass`.
pub open spec fn fed(pass: Pass, outputs: Seq<ProcessOutputView>) -> Pass
    decreases outputs.len(),
{
    if outputs.len() == 0 {
        pass
    } else {
        after(fed(pass, outputs.drop_last()), outputs.last())
    }
}

/// What `outputs` hold, each in its place.
pub open spec fn outputs_of(outputs: Seq<ProcessOutput>) -> Seq<ProcessOutputView> {
    Seq::new(outputs.len(), |i: int| outputs[i]@)
}

/// A pass that is over stays as it is, whatever is handed to it.
pub proof fn lemma_over_stays_over(pass: Pass, outputs: Seq<ProcessOutputView>)
    requires
        pass.run.stage is Done,
    ensures
        fed(pass, outputs) == pass,
    decreases outputs.len(),
{
    if outputs.len() > 0 {
        lemma_over_stays_over(pass, outputs.drop_last());
    }
}

/// Handing a pass some outputs and then some more is handing it all of
/// them in their order.
pub proof fn lemma_fed_in_two(pass: Pass, first: Seq<ProcessOutputView>, second: Seq<ProcessOutputView>)
    ensures
        fed(fed(pass, first), second) == fed(pass, first + second),
    decreases second.len(),
{
    if second.len() == 0 {
        assert(first + second =~= first);
    } else {
        lemma_fed_in_two(pass, first, second.drop_last());
        assert((first + second).drop_last() =~= first + second.drop_last());
        assert((first + second).last() == second.last());
    }
}

/// What holds at every moment of a pass over the queue `initial`.
///
/// No job comes or goes, and but for its status no job changes. The jobs
/// before the one that the pass has reached have moved two steps forward,
/// those after it have not moved. While the pass runs, and where it ended
/// in failure, the job that it has reached has moved one step, and one
/// analysis was started for it and for each job before it. A pass that went
/// well has left no job out.
pub open spec fn on_course(initial: Seq<Entry>, pass: Pass) -> bool {
    &&& coherent(pass)
    &&& pass.entries.len() == initial.len()
    &&& pass.run.position <= initial.len()
    &&& forall|i: int|
        0 <= i < initial.len() ==> (#[trigger] pass.entries[i]).kind == initial[i].kind
            && pass.entries[i].job == initial[i].job.with_status(pass.entries[i].job.status)
    &&& forall|i: int|
        0 <= i < pass.run.position ==> (#[trigger] pass.entries[i]).job.status
            == initial[i].job.status.advanced().advanced()
    &&& forall|i: int|
        pass.run.position < i < initial.len() ==> (#[trigger] pass.entries[i]).job.status
            == initial[i].job.status
    &&& if pass.run.stage == StageView::Done(Ok(())) {
        pass.run.position == initial.len() && pass.run.started == initial.len()
    } else {
        &&& pass.run.position < initial.len()
        &&& pass.entries[pass.run.position].job.status
            == initial[pass.run.position].job.status.advanced()
        &&& pass.run.started == pass.run.position + 1
    }
}

/// A pass starts on course.
pub proof fn lemma_opened_on_course(initial: Seq<Entry>)
    ensures
        on_course(initial, opened(initial)),
{
}

/// A pass that is on course stays on course, however the process that was
/// running has ended.
pub proof fn lemma_after_on_course(initial: Seq<Entry>, pass: Pass, output: ProcessOutputView)
    requires
        on_course(initial, pass),
    ensures
        on_course(initial, after(pass, output)),
{
    let next = after(pass, output);
    if next == completed(pass) && !(pass.run.stage is Done) {
        let k = pass.run.position;
        let moved = advance_at(pass.entries, k);
        assert(moved[k].job.status == initial[k].job.status.advanced().advanced());
        assert forall|i: int| 0 <= i < initial.len() implies (#[trigger] next.entries[i]).kind
            == initial[i].kind && next.entries[i].job == initial[i].job.with_status(
            next.entries[i].job.status,
        ) by {
            assert(pass.entries[i].kind == initial[i].kind);
        }
        assert forall|i: int| 0 <= i < next.run.position implies (#[trigger] next.entries[i]).job.status
            == initial[i].job.status.advanced().advanced() by {
            if i < k {
                assert(pass.entries[i].job.status == initial[i].job.status.advanced().advanced());
            }
        }
        assert forall|i: int| next.run.position < i < initial.len() implies (
        #[trigger] next.entries[i]).job.status == initial[i].job.status by {
            assert(pass.entries[i].job.status == initial[i].job.status);
        }
        if k + 1 < initial.len() {
            assert(pass.entries[k + 1].job.status == initial[k + 1].job.status);
        }
    }
}

/// Every moment of a pass is on course: the first, and the one after any
/// outputs handed to it.
pub proof fn lemma_pass_on_course(initial: Seq<Entry>, outputs: Seq<ProcessOutputView>)
    ensures
        on_course(initial, fed(opened(initial), outputs)),
    decreases outputs.len(),
{
    if outputs.len() == 0 {
        lemma_opened_on_course(initial);
    } else {
        lemma_pass_on_course(initial, outputs.drop_last());
        lemma_after_on_course(initial, fed(opened(initial), outputs.drop_last()), outputs.last());
    }
}

/// A pass over an empty queue is over at once. It went well, and started
/// no analysis.
pub proof fn lemma_empty_queue_runs_nothing()
    ensures
        told(opened(Seq::<Entry>::empty())) == Ok::<Option<CommandView>, ErrorView>(None),
        opened(Seq::<Entry>::empty()).run.started == 0,
        opened(Seq::<Entry>::empty()).entries == Seq::<Entry>::empty(),
{
}

/// Where a pass over queued jobs ends in failure, it ends at some job: the
/// jobs before it are completed, that job is left in processing, the jobs
/// after it are still queued, and as many analyses were started as there
/// are jobs up to and with that one.
pub proof fn lemma_first_failure_ends_pass(initial: Seq<Entry>, outputs: Seq<ProcessOutputView>)
    requires
        forall|i: int| 0 <= i < initial.len() ==> (#[trigger] initial[i]).job.status == Status::Queued,
        told(fed(opened(initial), outputs)) is Err,
    ensures
        ({
            let last = fed(opened(initial), outputs);
            let k = last.run.position;
            &&& 0 <= k < initial.len()
            &&& last.entries.len() == initial.len()
            &&& forall|i: int| 0 <= i < k ==> (#[trigger] last.entries[i]).job.status == Status::Completed
            &&& last.entries[k].job.status == Status::Processing
            &&& forall|i: int|
                k < i < initial.len() ==> (#[trigger] last.entries[i]).job.status == Status::Queued
            &&& last.run.started == k + 1
        }),
{
    lemma_pass_on_course(initial, outputs);
}

/// Where a pass over queued jobs went well, every job is completed, and
/// one analysis was started for each.
pub proof fn lemma_success_completes_all(initial: Seq<Entry>, outputs: Seq<ProcessOutputView>)
    requires
        forall|i: int| 0 <= i < initial.len() ==> (#[trigger] initial[i]).job.status == Status::Queued,
        told(fed(opened(initial), outputs)) == Ok::<Option<CommandView>, ErrorView>(None),
    ensures
        ({
            let last = fed(opened(initial), outputs);
            &&& last.entries.len() == initial.len()
            &&& forall|i: int|
                0 <= i < initial.len() ==> (#[trigger] last.entries[i]).job.status == Status::Completed
            &&& last.run.started == initial.len()
        }),
{
    lemma_pass_on_course(initial, outputs);
    let last = fed(opened(initial), outputs);
    assert(last.run.stage == StageView::Done(Ok(()))) by {
        match last.run.stage {
            StageView::Done(Ok(done)) => {
                assert(done == ());
            },
            _ => {},
        }
    }
}

/// The jobs of `entries`, in their order.
pub open spec fn jobs_of(entries: Seq<Entry>) -> Seq<JobView> {
    Seq::new(entries.len(), |i: int| entries[i].job)
}

/// The first line of a listing of `count` jobs.
pub open spec fn listing_head(count: nat) -> Seq<char> {
    "JobQueue contains "@ + decimal(count) + " jobs:\n"@
}

/// One line of a listing: a label, and what goes by it.
pub open spec fn listing_line(label: Seq<char>, value: Seq<char>) -> Seq<char> {
    label + value + "\n"@
}

/// The lines of a listing that show the job `shown`, the `number`th of the
/// queue.
pub open spec fn listing_item(number: nat, shown: Entry) -> Seq<char> {
    listing_line("  Job "@, decimal(number) + ":"@) + listing_line(
        "    Type: "@,
        display_name_of(shown.kind),
    ) + listing_line("    ID: "@, shown.job.job_id) + listing_line(
        "    Status: "@,
        shown.job.status.text(),
    ) + listing_line("    Request ID: "@, shown.job.request_id) + listing_line(
        "    s3 Path: "@,
        shown.job.s3_path,
    )
}

/// The lines of a listing that show `entries`, numbered from one.
pub open spec fn listing_items(entries: Seq<Entry>) -> Seq<char>
    decreases entries.len(),
{
    if entries.len() == 0 {
        Seq::empty()
    } else {
        listing_items(entries.drop_last()) + listing_item(entries.len(), entries.last())
    }
}

/// A listing of `entries` for a reader: how many jobs there are, then each
/// job's number, analysis, key, status, request and place of storage.
pub open spec fn listing(entries: Seq<Entry>) -> Seq<char> {
    listing_head(entries.len()) + listing_items(entries)
}

/// The jobs of a queue as they were at one moment, handed out one by one.
#[derive(Debug)]
pub struct JobQueueIterator {
    jobs: Vec<Job>,
    next: usize,
}

impl View for JobQueueIterator {
    type V = Seq<JobView>;

    /// The jobs that are still to come.
    closed spec fn view(&self) -> Seq<JobView> {
        Seq::new(
            if self.next <= self.jobs@.len() {
                (self.jobs@.len() - self.next) as nat
            } else {
                0
            },
            |i: int| self.jobs@[self.next + i]@,
        )
    }
}

impl JobQueueIterator {
    /// The next job, if one is left.
    pub fn next(&mut self) -> (job: Option<Job>)
        ensures
            match job {
                Some(handed) => old(self)@.len() > 0 && handed@ == old(self)@[0] && final(self)@
                    == old(self)@.drop_first(),
                None => old(self)@.len() == 0 && final(self)@ == old(self)@,
            },
    {
        if self.next < self.jobs.len() {
            let job = self.jobs[self.next].duplicate();
            self.next = self.next + 1;
            assert(self@ =~= old(self)@.drop_first());
            Some(job)
        } else {
            assert(self@.len() == 0);
            None
        }
    }
}

/// Where a pass stands with the job it has reached.
#[derive(Debug)]
enum Stage {
    Analysis,
    Upload { part: usize, uploads: Vec<Command> },
    Done(Result<(), Error>),
}

impl View for Stage {
    type V = StageView;

    closed spec fn view(&self) -> StageView {
        match self {
            Stage::Analysis => StageView::Analysis,
            Stage::Upload { part, uploads } => StageView::Upload {
                part: *part as int,
                uploads: uploads.deep_view(),
            },
            Stage::Done(Ok(())) => StageView::Done(Ok(())),
            Stage::Done(Err(error)) => StageView::Done(Err(error@)),
        }
    }
}

/// One pass over a queue, as far as it has come.
#[derive(Debug)]
pub struct QueueRun {
    position: usize,
    started: usize,
    stage: Stage,
}

impl View for QueueRun {
    type V = RunView;

    closed spec fn view(&self) -> RunView {
        RunView { position: self.position as int, started: self.started as int, stage: self.stage@ }
    }
}

/// Whether `result` stands for `model`.
pub open spec fn step_matches(
    result: Result<Option<Command>, Error>,
    model: Result<Option<CommandView>, ErrorView>,
) -> bool {
    match result {
        Ok(Some(command)) => model == Ok::<Option<CommandView>, ErrorView>(Some(command@)),
        Ok(None) => model == Ok::<Option<CommandView>, ErrorView>(None),
        Err(error) => model == Err::<Option<CommandView>, ErrorView>(error@),
    }
}

impl QueueRun {
    /// The place in the queue of the job that the pass has reached.
    pub fn position(&self) -> (position: usize)
        ensures
            position == self@.position,
    {
        self.position
    }

    /// How many analyses the pass has started.
    pub fn run_count(&self) -> (started: usize)
        ensures
            started == self@.started,
    {
        self.started
    }

    /// Whether the pass is over.
    pub fn is_finished(&self) -> (over: bool)
        ensures
            over == (self@.stage is Done),
    {
        match &self.stage {
            Stage::Done(_) => true,
            _ => false,
        }
    }
}

impl JobQueue {
    /// A queue without jobs.
    pub fn new() -> (queue: JobQueue)
        ensures
            queue@ == Seq::<Entry>::empty(),
    {
        let queue = JobQueue { jobs: Vec::new() };
        assert(queue@ =~= Seq::<Entry>::empty());
        queue
    }

    /// Adds a job at the end of the queue, with the analysis that is to be
    /// done for it.
    pub fn add_job(&mut self, job_impl: JobInstance, job_metadata: Job)
        ensures
            final(self)@ == old(self)@.push(entry(job_impl.kind(), job_metadata@)),
    {
        self.jobs.push((job_impl, job_metadata));
        assert(self@ =~= old(self)@.push(entry(job_impl.kind(), job_metadata@)));
    }

    /// How many jobs the queue holds.
    pub fn len(&self) -> (count: usize)
        ensures
            count == self@.len(),
    {
        self.jobs.len()
    }

    /// Whether the queue holds no job.
    pub fn is_empty(&self) -> (empty: bool)
        ensures
            empty == (self@.len() == 0),
    {
        self.jobs.len() == 0
    }

    /// The job at place `index`.
    pub fn job(&self, index: usize) -> (job: &Job)
        requires
            index < self@.len(),
        ensures
            job@ == self@[index as int].job,
    {
        &self.jobs[index].1
    }

    /// The analysis that is to be done for the job at place `index`.
    pub fn job_impl(&self, index: usize) -> (job_impl: JobInstance)
        requires
            index < self@.len(),
        ensures
            job_impl.kind() == self@[index as int].kind,
    {
        self.jobs[index].0
    }

    /// The jobs of the queue as they are now, in their order. What happens
    /// to the queue afterwards does not show in them.
    pub fn iter(&self) -> (jobs: JobQueueIterator)
        ensures
            jobs@ == jobs_of(self@),
    {
        let mut jobs: Vec<Job> = Vec::new();
        let mut i: usize = 0;
        while i < self.jobs.len()
            invariant
                i <= self.jobs.len(),
                jobs.len() == i,
                forall|j: int| 0 <= j < i ==> (#[trigger] jobs@[j])@ == self.jobs@[j].1@,
            decreases self.jobs.len() - i,
        {
            jobs.push(self.jobs[i].1.duplicate());
            i += 1;
        }
        let handed = JobQueueIterator { jobs, next: 0 };
        assert(handed@ =~= jobs_of(self@));
        handed
    }

    /// A listing of the queue for a reader.
    pub fn describe(&self) -> (text: String)
        ensures
            text@ == listing(self@),
    {
        let mut text = "JobQueue contains ".to_owned();
        text.append(decimal_text(self.jobs.len()).as_str());
        text.append(" jobs:\n");
        let ghost head = text@;
        let mut i: usize = 0;
        assert(self@.take(0) =~= Seq::<Entry>::empty());
        assert(text@ =~= head + listing_items(self@.take(0)));
        while i < self.jobs.len()
            invariant
                i <= self.jobs.len(),
                self@.len() == self.jobs.len(),
                head == listing_head(self@.len()),
                text@ == head + listing_items(self@.take(i as int)),
            decreases self.jobs.len() - i,
        {
            let ghost earlier = listing_items(self@.take(i as int));
            let item = describe_job(i + 1, &self.jobs[i].0, &self.jobs[i].1);
            text.append(item.as_str());
            proof {
                let longer = self@.take(i + 1);
                assert(longer.drop_last() =~= self@.take(i as int));
                assert(longer.last() == self@[i as int]);
                assert(text@ =~= head + (earlier + item@));
            }
            i += 1;
        }
        assert(self@.take(i as int) =~= self@);
        text
    }

    /// Moves the job at place `at` one step forward.
    fn advance(&mut self, at: usize)
        requires
            at < old(self)@.len(),
        ensures
            final(self)@ == advance_at(old(self)@, at as int),
            final(self).jobs.len() == old(self).jobs.len(),
    {
        if let Some(following) = self.jobs[at].1.status.next() {
            self.jobs[at].1.status = following;
        }
        assert(self@ =~= advance_at(old(self)@, at as int));
    }

    /// Turns to the job at `position`, if there is one.
    fn begin(&mut self, position: usize, started: usize) -> (next: (
        QueueRun,
        Result<Option<Command>, Error>,
    ))
        requires
            started <= position <= old(self)@.len(),
        ensures
            moment(final(self)@, next.0@) == begin(
                old(self)@,
                position as int,
                started as int,
            ),
            step_matches(next.1, told(moment(final(self)@, next.0@))),
            coherent(moment(final(self)@, next.0@)),
    {
        if position < self.jobs.len() {
            self.advance(position);
            let command = self.jobs[position].0.command(&self.jobs[position].1);
            (QueueRun { position, started: started + 1, stage: Stage::Analysis }, Ok(Some(command)))
        } else {
            (QueueRun { position, started, stage: Stage::Done(Ok(())) }, Ok(None))
        }
    }

    /// Starts a pass over the queue: the first job moves one step forward,
    /// and the process of its analysis is handed out to be run. On an empty
    /// queue the pass is over at once, and nothing is to be run.
    pub fn start(&mut self) -> (next: (QueueRun, Result<Option<Command>, Error>))
        ensures
            moment(final(self)@, next.0@) == opened(old(self)@),
            step_matches(next.1, told(opened(old(self)@))),
            coherent(moment(final(self)@, next.0@)),
            on_course(old(self)@, moment(final(self)@, next.0@)),
    {
        proof {
            lemma_opened_on_course(self@);
        }
        self.begin(0, 0)
    }

    /// Takes back how the process that was handed out last has ended, and
    /// hands out the next: a copy of the job's results, or the analysis of
    /// the next job. `Ok(None)` says that the pass is over and went well;
    /// an error says that it is over and why.
    ///
    /// The job is moved one step forward once its analysis and its copies
    /// are done. After a failure it is left as it is, and no later job is
    /// touched.
    pub fn resume(&mut self, run: &mut QueueRun, output: &ProcessOutput) -> (next: Result<
        Option<Command>,
        Error,
    >)
        requires
            coherent(moment(old(self)@, old(run)@)),
        ensures
            moment(final(self)@, final(run)@) == after(
                moment(old(self)@, old(run)@),
                output@,
            ),
            step_matches(next, told(moment(final(self)@, final(run)@))),
            coherent(moment(final(self)@, final(run)@)),
    {
        let position = run.position;
        let started = run.started;
        let mut stage = Stage::Analysis;
        std::mem::swap(&mut run.stage, &mut stage);
        match stage {
            Stage::Done(Ok(())) => {
                run.stage = Stage::Done(Ok(()));
                Ok(None)
            },
            Stage::Done(Err(error)) => {
                let told = error.duplicate();
                run.stage = Stage::Done(Err(error));
                Err(told)
            },
            Stage::Analysis => match output.artifact() {
                Err(error) => {
                    let told = error.duplicate();
                    run.stage = Stage::Done(Err(error));
                    Err(told)
                },
                Ok(artifact) => {
                    let uploads = self.jobs[position].0.handle_result(
                        self.jobs[position].1.job_id.as_str(),
                        artifact.as_str(),
                    );
                    if uploads.len() == 0 {
                        self.finish(run, position, started)
                    } else {
                        let command = duplicate_command(&uploads[0]);
                        run.stage = Stage::Upload { part: 0, uploads };
                        Ok(Some(command))
                    }
                },
            },
            Stage::Upload { part, uploads } => {
                assert(uploads.deep_view().len() == uploads.len());
                let which = if part == 0 {
                    UploadPart::Report
                } else {
                    UploadPart::Data
                };
                match output.uploaded(which) {
                    Err(error) => {
                        let told = error.duplicate();
                        run.stage = Stage::Done(Err(error));
                        Err(told)
                    },
                    Ok(()) => {
                        if part + 1 < uploads.len() {
                            let command = duplicate_command(&uploads[part + 1]);
                            run.stage = Stage::Upload { part: part + 1, uploads };
                            Ok(Some(command))
                        } else {
                            self.finish(run, position, started)
                        }
                    },
                }
            },
        }
    }

    /// Runs a pass on outputs that are known beforehand: starts it, and
    /// hands it `outputs` one by one for as long as it is not over. The
    /// result is the pass as it then stands and what it tells: the process
    /// whose output is still wanting, or how the pass ended.
    pub fn run(&mut self, outputs: &Vec<ProcessOutput>) -> (ended: (
        QueueRun,
        Result<Option<Command>, Error>,
    ))
        ensures
            moment(final(self)@, ended.0@) == fed(opened(old(self)@), outputs_of(outputs@)),
            step_matches(ended.1, told(moment(final(self)@, ended.0@))),
            coherent(moment(final(self)@, ended.0@)),
            on_course(old(self)@, moment(final(self)@, ended.0@)),
    {
        let ghost initial = self@;
        let ghost all = outputs_of(outputs@);
        let (mut run, mut next) = self.start();
        let mut i: usize = 0;
        assert(all.take(0) =~= Seq::<ProcessOutputView>::empty());
        while i < outputs.len() && !run.is_finished()
            invariant
                i <= outputs.len(),
                all == outputs_of(outputs@),
                moment(self@, run@) == fed(opened(initial), all.take(i as int)),
                step_matches(next, told(moment(self@, run@))),
                coherent(moment(self@, run@)),
            decreases outputs.len() - i,
        {
            proof {
                let longer = all.take(i + 1);
                assert(longer.drop_last() =~= all.take(i as int));
                assert(longer.last() == outputs@[i as int]@);
            }
            next = self.resume(&mut run, &outputs[i]);
            i += 1;
        }
        proof {
            let seen = all.take(i as int);
            let rest = all.skip(i as int);
            assert(seen + rest =~= all);
            lemma_fed_in_two(opened(initial), seen, rest);
            if i < outputs.len() {
                lemma_over_stays_over(moment(self@, run@), rest);
            } else {
                assert(rest =~= Seq::<ProcessOutputView>::empty());
            }
            lemma_pass_on_course(initial, all);
        }
        (run, next)
    }

    /// The job at `position` is done: it moves one more step forward, and
    /// the pass turns to the next job.
    fn finish(&mut self, run: &mut QueueRun, position: usize, started: usize) -> (next: Result<
        Option<Command>,
        Error,
    >)
        requires
            position < old(self)@.len(),
            started <= position + 1,
        ensures
            moment(final(self)@, final(run)@) == begin(
                advance_at(old(self)@, position as int),
                position + 1,
                started as int,
            ),
            step_matches(next, told(moment(final(self)@, final(run)@))),
            coherent(moment(final(self)@, final(run)@)),
    {
        assert(self@.len() == self.jobs@.len());
        self.advance(position);
        let (following, next) = self.begin(position + 1, started);
        *run = following;
        next
    }
}

/// Adds a line to `text`: a label, and what goes by it.
fn push_line(text: &mut String, label: &str, value: &str)
    ensures
        final(text)@ == old(text)@ + listing_line(label@, value@),
{
    text.append(label);
    text.append(value);
    text.append("\n");
    assert(text@ =~= old(text)@ + listing_line(label@, value@));
}

/// The lines of a listing that show `job`, the `number`th of the queue.
fn describe_job(number: usize, job_impl: &JobInstance, job: &Job) -> (text: String)
    ensures
        text@ == listing_item(number as nat, entry(job_impl.kind(), job@)),
{
    let mut numeral = decimal_text(number);
    numeral.append(":");
    let mut text = String::new();
    push_line(&mut text, "  Job ", numeral.as_str());
    assert(text@ =~= listing_line("  Job "@, decimal(number as nat) + ":"@));
    push_line(&mut text, "    Type: ", job_impl.display_name());
    push_line(&mut text, "    ID: ", job.job_id.as_str());
    push_line(&mut text, "    Status: ", job.status.as_str());
    push_line(&mut text, "    Request ID: ", job.request_id.as_str());
    push_line(&mut text, "    s3 Path: ", job.s3_path.as_str());
    text
}

/// A copy of `command`.
fn duplicate_command(command: &Command) -> (copy: Command)
    ensures
        copy@ == command@,
{
    let mut args: Vec<String> = Vec::new();
    let mut i: usize = 0;
    while i < command.args.len()
        invariant
            i <= command.args.len(),
            args.len() == i,
            forall|j: int| 0 <= j < i ==> (#[trigger] args@[j])@ == command.args@[j]@,
        decreases command.args.len() - i,
    {
        args.push(command.args[i].clone());
        i += 1;
    }
    let copy = Command { program: command.program.clone(), args };
    assert(copy@.args =~= command@.args);
    copy
}

} // verus!
