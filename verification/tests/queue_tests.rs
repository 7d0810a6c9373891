use visiproc::analysis::{create_job_instance, AnalysisJob, Command, ProcessOutput};
use visiproc::error::{Error, UploadPart};
use visiproc::job::Job;
use visiproc::job_queue::{JobQueue, QueueRun};
use visiproc::job_type::JobType;
use visiproc::status::Status;

fn job(number: usize, status: Status) -> Job {
    Job {
        job_id: format!("job-{}", number),
        request_id: format!("q{}", number),
        current_response_id: String::new(),
        status,
        last_updated: 0,
        s3_path: format!("s3://metadata/r{}/", number),
    }
}

fn queue_of(kinds: &[JobType]) -> JobQueue {
    let mut queue = JobQueue::new();
    for (place, kind) in kinds.iter().enumerate() {
        queue.add_job(create_job_instance(*kind), job(place + 1, Status::Queued));
    }
    queue
}

fn well(line: &str) -> ProcessOutput {
    ProcessOutput { success: true, stdout: line.as_bytes().to_vec(), stderr: Vec::new() }
}

fn badly(complaint: &str) -> ProcessOutput {
    ProcessOutput { success: false, stdout: Vec::new(), stderr: complaint.as_bytes().to_vec() }
}

fn statuses(queue: &JobQueue) -> Vec<Status> {
    (0..queue.len()).map(|place| queue.job(place).status).collect()
}

/// Runs a pass in which the analysis of the job at `failing` fails and
/// everything else goes well; gives the run and how the pass ended.
fn pass_failing_at(queue: &mut JobQueue, failing: Option<usize>) -> (QueueRun, Result<(), Error>) {
    let (mut run, mut next) = queue.start();
    loop {
        match next {
            Ok(None) => return (run, Ok(())),
            Err(error) => return (run, Err(error)),
            Ok(Some(command)) => {
                let output = if command.program == "python" {
                    if Some(run.position()) == failing {
                        badly("boom")
                    } else {
                        well("/tmp/out-eda.html\n")
                    }
                } else {
                    well("")
                };
                next = queue.resume(&mut run, &output);
            },
        }
    }
}

#[test]
fn a_new_queue_is_empty() {
    let queue = JobQueue::new();
    assert_eq!(queue.len(), 0);
    assert!(queue.is_empty());
    assert!(queue.iter().next().is_none());
}

#[test]
fn jobs_are_kept_in_the_order_added() {
    let mut queue = JobQueue::new();
    queue.add_job(create_job_instance(JobType::Corr), job(1, Status::Queued));
    queue.add_job(create_job_instance(JobType::Eda), job(2, Status::Pending));
    queue.add_job(create_job_instance(JobType::Corr), job(1, Status::Queued));
    assert_eq!(queue.len(), 3);
    assert!(!queue.is_empty());
    assert_eq!(queue.job(0).job_id, "job-1");
    assert_eq!(queue.job(1).job_id, "job-2");
    assert_eq!(queue.job(2).job_id, "job-1");
    assert_eq!(queue.job(1).status, Status::Pending);
    assert_eq!(queue.job_impl(0).job_type(), JobType::Corr);
    assert_eq!(queue.job_impl(1).job_type(), JobType::Eda);
}

#[test]
fn an_empty_queue_runs_nothing() {
    let mut queue = JobQueue::new();
    let (run, next) = queue.start();
    assert!(matches!(next, Ok(None)));
    assert_eq!(run.run_count(), 0);
    assert!(run.is_finished());
    assert_eq!(queue.len(), 0);
}

#[test]
fn a_pass_that_goes_well_completes_every_job() {
    let mut queue = queue_of(&[JobType::Corr, JobType::SimulatedJob, JobType::Corr]);
    let (run, ended) = pass_failing_at(&mut queue, None);
    assert!(ended.is_ok());
    assert_eq!(run.run_count(), 3);
    assert_eq!(run.position(), 3);
    assert!(run.is_finished());
    assert_eq!(statuses(&queue), vec![Status::Completed; 3]);
}

#[test]
fn the_first_failure_ends_the_pass() {
    for failing in 0..4 {
        let mut queue =
            queue_of(&[JobType::Corr, JobType::SimulatedJob, JobType::SimulatedError, JobType::Corr]);
        let (run, ended) = pass_failing_at(&mut queue, Some(failing));
        match ended {
            Err(Error::Execution { stderr }) => assert_eq!(stderr, "boom"),
            other => panic!("{:?}", other),
        }
        assert_eq!(run.run_count(), failing + 1);
        assert_eq!(run.position(), failing);
        assert!(run.is_finished());
        let mut expected = vec![Status::Completed; failing];
        expected.push(Status::Processing);
        expected.resize(4, Status::Queued);
        assert_eq!(statuses(&queue), expected);
    }
}

#[test]
fn a_job_is_in_processing_while_its_analysis_runs() {
    let mut queue = queue_of(&[JobType::Corr, JobType::Corr]);
    let (mut run, next) = queue.start();
    let command = next.expect("a pass").expect("a command");
    assert_eq!(command.program, "python");
    assert_eq!(
        command.args,
        vec!["python_jobs/correlation_analysis.py", "s3://metadata/r1/", "q1"]
    );
    assert_eq!(statuses(&queue), vec![Status::Processing, Status::Queued]);
    assert_eq!(run.run_count(), 1);
    assert!(!run.is_finished());
    let command = queue.resume(&mut run, &well("/tmp/a\n")).expect("a pass").expect("a command");
    assert_eq!(
        command.args,
        vec!["python_jobs/correlation_analysis.py", "s3://metadata/r2/", "q2"]
    );
    assert_eq!(statuses(&queue), vec![Status::Completed, Status::Processing]);
    assert_eq!(run.run_count(), 2);
    assert_eq!(run.position(), 1);
    assert!(matches!(queue.resume(&mut run, &well("/tmp/b\n")), Ok(None)));
    assert_eq!(statuses(&queue), vec![Status::Completed, Status::Completed]);
    assert_eq!(run.run_count(), 2);
}

fn args(command: Option<Command>) -> Vec<String> {
    command.expect("a command").args
}

#[test]
fn an_exploratory_analysis_is_followed_by_its_two_copies() {
    let mut queue = queue_of(&[JobType::Eda, JobType::Corr]);
    let (mut run, next) = queue.start();
    assert_eq!(
        args(next.expect("a pass")),
        vec!["python_jobs/eda_analysis.py", "s3://metadata/r1/", "q1"]
    );
    let next = queue.resume(&mut run, &well(" ./outputs/q1/q1-eda.html \n"));
    assert_eq!(
        args(next.expect("a pass")),
        vec!["s3", "cp", "./outputs/q1/q1-eda.html", "s3://metadata/job-1/job-1-eda.html"]
    );
    assert_eq!(statuses(&queue), vec![Status::Processing, Status::Queued]);
    let next = queue.resume(&mut run, &well(""));
    assert_eq!(
        args(next.expect("a pass")),
        vec!["s3", "cp", "./outputs/q1/q1-data.parquet", "s3://metadata/job-1/job-1-data.parquet"]
    );
    assert_eq!(statuses(&queue), vec![Status::Processing, Status::Queued]);
    assert_eq!(run.run_count(), 1);
    let next = queue.resume(&mut run, &well(""));
    assert_eq!(
        args(next.expect("a pass")),
        vec!["python_jobs/correlation_analysis.py", "s3://metadata/r2/", "q2"]
    );
    assert_eq!(statuses(&queue), vec![Status::Completed, Status::Processing]);
    assert_eq!(run.run_count(), 2);
    assert!(matches!(queue.resume(&mut run, &well("x")), Ok(None)));
    assert_eq!(statuses(&queue), vec![Status::Completed, Status::Completed]);
}

#[test]
fn a_failed_copy_ends_the_pass_and_leaves_the_job_in_processing() {
    for (failing, part) in [(0, UploadPart::Report), (1, UploadPart::Data)] {
        let mut queue = queue_of(&[JobType::Eda, JobType::Corr]);
        let (mut run, _) = queue.start();
        let mut next = queue.resume(&mut run, &well("r-eda.html"));
        for _ in 0..failing {
            assert!(matches!(next, Ok(Some(_))));
            next = queue.resume(&mut run, &well(""));
        }
        assert!(matches!(next, Ok(Some(_))));
        match queue.resume(&mut run, &badly("no such bucket")) {
            Err(Error::Upload { part: failed, stderr }) => {
                assert_eq!(failed, part);
                assert_eq!(stderr, "no such bucket");
            },
            other => panic!("{:?}", other),
        }
        assert_eq!(statuses(&queue), vec![Status::Processing, Status::Queued]);
        assert_eq!(run.run_count(), 1);
        assert!(run.is_finished());
    }
}

#[test]
fn output_that_is_no_text_ends_the_pass() {
    let mut queue = queue_of(&[JobType::Corr, JobType::Corr]);
    let (mut run, _) = queue.start();
    let output = ProcessOutput { success: true, stdout: vec![0xff], stderr: Vec::new() };
    assert!(matches!(queue.resume(&mut run, &output), Err(Error::Output)));
    assert_eq!(statuses(&queue), vec![Status::Processing, Status::Queued]);
    assert!(run.is_finished());
}

#[test]
fn a_pass_that_is_over_stays_over() {
    let mut queue = queue_of(&[JobType::Corr, JobType::Corr]);
    let (mut run, ended) = pass_failing_at(&mut queue, Some(0));
    assert!(ended.is_err());
    match queue.resume(&mut run, &well("/tmp/late")) {
        Err(Error::Execution { stderr }) => assert_eq!(stderr, "boom"),
        other => panic!("{:?}", other),
    }
    assert_eq!(statuses(&queue), vec![Status::Processing, Status::Queued]);
    assert_eq!(run.run_count(), 1);
    let mut queue = queue_of(&[JobType::Corr]);
    let (mut run, ended) = pass_failing_at(&mut queue, None);
    assert!(ended.is_ok());
    assert!(matches!(queue.resume(&mut run, &badly("late")), Ok(None)));
    assert_eq!(statuses(&queue), vec![Status::Completed]);
    assert_eq!(run.run_count(), 1);
}

#[test]
fn jobs_move_from_whatever_status_they_have() {
    let mut queue = JobQueue::new();
    queue.add_job(create_job_instance(JobType::Corr), job(1, Status::Pending));
    queue.add_job(create_job_instance(JobType::Corr), job(2, Status::Processing));
    queue.add_job(create_job_instance(JobType::Corr), job(3, Status::Completed));
    queue.add_job(create_job_instance(JobType::Corr), job(4, Status::Failed));
    let (run, ended) = pass_failing_at(&mut queue, None);
    assert!(ended.is_ok());
    assert_eq!(run.run_count(), 4);
    assert_eq!(
        statuses(&queue),
        vec![Status::Processing, Status::Completed, Status::Completed, Status::Failed]
    );
}

#[test]
fn a_second_pass_runs_every_job_again() {
    let mut queue = queue_of(&[JobType::Corr, JobType::SimulatedJob]);
    let (_, ended) = pass_failing_at(&mut queue, None);
    assert!(ended.is_ok());
    let (run, ended) = pass_failing_at(&mut queue, None);
    assert!(ended.is_ok());
    assert_eq!(run.run_count(), 2);
    assert_eq!(statuses(&queue), vec![Status::Completed, Status::Completed]);
}

#[test]
fn iter_hands_out_the_jobs_as_they_are() {
    let mut queue = queue_of(&[JobType::Corr, JobType::Eda]);
    let mut jobs = queue.iter();
    let _ = pass_failing_at(&mut queue, None);
    let first = jobs.next().expect("a job");
    assert_eq!(first.job_id, "job-1");
    assert_eq!(first.status, Status::Queued);
    let second = jobs.next().expect("a job");
    assert_eq!(second.job_id, "job-2");
    assert_eq!(second.request_id, "q2");
    assert!(jobs.next().is_none());
    assert!(jobs.next().is_none());
    let mut again = queue.iter();
    assert_eq!(again.next().expect("a job").status, Status::Completed);
    assert_eq!(again.next().expect("a job").status, Status::Completed);
    assert!(again.next().is_none());
}

#[test]
fn the_listing_shows_every_job() {
    assert_eq!(JobQueue::new().describe(), "JobQueue contains 0 jobs:\n");
    let mut queue = queue_of(&[JobType::Eda, JobType::Corr]);
    let _ = queue.start();
    assert_eq!(
        queue.describe(),
        "JobQueue contains 2 jobs:\n\
         \x20 Job 1:\n\
         \x20   Type: EdaJob\n\
         \x20   ID: job-1\n\
         \x20   Status: PROCESSING\n\
         \x20   Request ID: q1\n\
         \x20   s3 Path: s3://metadata/r1/\n\
         \x20 Job 2:\n\
         \x20   Type: Correlation Job\n\
         \x20   ID: job-2\n\
         \x20   Status: QUEUED\n\
         \x20   Request ID: q2\n\
         \x20   s3 Path: s3://metadata/r2/\n"
    );
}

#[test]
fn the_listing_numbers_jobs_past_nine() {
    let queue = queue_of(&[JobType::Corr; 12]);
    let listing = queue.describe();
    assert!(listing.starts_with("JobQueue contains 12 jobs:\n  Job 1:\n"));
    assert!(listing.contains("\n  Job 10:\n    Type: Correlation Job\n    ID: job-10\n"));
    assert!(listing.contains("\n  Job 12:\n"));
    assert!(!listing.contains("Job 13:"));
    assert_eq!(listing.lines().count(), 1 + 12 * 6);
}

#[test]
fn run_on_an_empty_queue_starts_nothing() {
    let mut queue = JobQueue::new();
    let (run, ended) = queue.run(&vec![well("/tmp/a"), badly("boom")]);
    assert!(matches!(ended, Ok(None)));
    assert_eq!(run.run_count(), 0);
    assert!(run.is_finished());
    let (run, ended) = queue.run(&Vec::new());
    assert!(matches!(ended, Ok(None)));
    assert_eq!(run.run_count(), 0);
}

#[test]
fn run_stops_at_the_first_failure() {
    for failing in 0..4 {
        let mut queue =
            queue_of(&[JobType::Corr, JobType::SimulatedJob, JobType::SimulatedError, JobType::Corr]);
        let mut outputs: Vec<ProcessOutput> = (0..failing).map(|_| well("/tmp/a\n")).collect();
        outputs.push(badly("boom"));
        outputs.push(well("/tmp/never"));
        outputs.push(well("/tmp/never"));
        let (run, ended) = queue.run(&outputs);
        match ended {
            Err(Error::Execution { stderr }) => assert_eq!(stderr, "boom"),
            other => panic!("{:?}", other),
        }
        assert_eq!(run.run_count(), failing + 1);
        let mut expected = vec![Status::Completed; failing];
        expected.push(Status::Processing);
        expected.resize(4, Status::Queued);
        assert_eq!(statuses(&queue), expected);
    }
}

#[test]
fn run_goes_as_far_as_the_outputs_reach() {
    let mut queue = queue_of(&[JobType::Corr, JobType::Eda, JobType::Corr]);
    let (run, told) = queue.run(&vec![well("/tmp/a"), well("/tmp/b-eda.html"), well("")]);
    assert_eq!(
        args(told.expect("a pass")),
        vec!["s3", "cp", "/tmp/b-data.parquet", "s3://metadata/job-2/job-2-data.parquet"]
    );
    assert!(!run.is_finished());
    assert_eq!(run.position(), 1);
    assert_eq!(run.run_count(), 2);
    assert_eq!(statuses(&queue), vec![Status::Completed, Status::Processing, Status::Queued]);
    let mut queue = queue_of(&[JobType::Corr, JobType::Corr]);
    let (run, told) = queue.run(&vec![well("/tmp/a"), well("/tmp/b")]);
    assert!(matches!(told, Ok(None)));
    assert_eq!(run.run_count(), 2);
    assert_eq!(statuses(&queue), vec![Status::Completed, Status::Completed]);
}
