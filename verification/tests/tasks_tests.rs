use visiproc::analysis::{create_job_instance, AnalysisJob, ProcessOutput};
use visiproc::error::{ConversionError, Error, Field, Problem, TransitionError};
use visiproc::fresh::generate_request_id;
use visiproc::job::Job;
use visiproc::job_queue::JobQueue;
use visiproc::job_request::{convert_item_to_job_request, JobRequest};
use visiproc::job_type::JobType;
use visiproc::record::{Attribute, Record};
use visiproc::status::Status;
use visiproc::tasks::{
    completed_request_ids, move_request_on, queue_jobs_from_request, queue_new_request,
    update_request_status,
};

fn texts(values: &[&str]) -> Attribute {
    Attribute::text_list(&values.iter().map(|value| value.to_string()).collect())
}

fn request_for(analysis_types: &[&str]) -> JobRequest {
    JobRequest {
        id: "r1".to_string(),
        request_id: "q1".to_string(),
        author: "test author".to_string(),
        name: "test job".to_string(),
        description: "test desc".to_string(),
        analysis_types: analysis_types.iter().map(|name| name.to_string()).collect(),
        timestamp: 0,
        status: Status::Pending,
        sources: vec!["simulated".to_string()],
        range_start: 0,
        range_end: 1,
        granularity: 0,
    }
}

fn stored_request(status: &str, analysis_types: &[&str]) -> Record {
    let mut item = Record::new();
    item.insert("id", Attribute::text("r1"));
    item.insert("requestID", Attribute::text("q1"));
    item.insert("jobName", Attribute::text("test job"));
    item.insert("author", Attribute::text("test author"));
    item.insert("jobDescription", Attribute::text("test desc"));
    item.insert("analysisTypes", texts(analysis_types));
    item.insert("creationDate", Attribute::number("1700000000"));
    item.insert("jobStatus", Attribute::text(status));
    item.insert("sources", texts(&["s3"]));
    item.insert("dateRangeStart", Attribute::number("0"));
    item.insert("dateRangeEnd", Attribute::number("100"));
    item.insert("granularity", Attribute::number("60"));
    item
}

fn text_of(record: &Record, name: &str) -> String {
    record.get(name).and_then(|value| value.as_s()).cloned().expect("a text attribute")
}

#[test]
fn a_request_queues_one_job_for_each_analysis_in_order() {
    let mut queue = JobQueue::new();
    let request = request_for(&["Correlation", "Exploratory Data Analysis"]);
    assert!(queue_jobs_from_request(&request, &mut queue).is_ok());
    assert_eq!(queue.len(), 2);
    assert_eq!(queue.job_impl(0).job_type(), JobType::Corr);
    assert_eq!(queue.job_impl(1).job_type(), JobType::Eda);
    for place in 0..2 {
        let job = queue.job(place);
        assert_eq!(job.status, Status::Queued);
        assert_eq!(job.request_id, "q1");
        assert_eq!(job.current_response_id, "");
        assert_eq!(job.s3_path, "s3://metadata/r1/");
        assert_eq!(job.job_id.chars().count(), 36);
    }
    assert_ne!(queue.job(0).job_id, queue.job(1).job_id);
}

#[test]
fn an_unknown_analysis_queues_nothing() {
    let mut queue = JobQueue::new();
    assert!(queue_jobs_from_request(&request_for(&["Unknown Kind"]), &mut queue).is_ok());
    assert_eq!(queue.len(), 0);
    assert!(queue_jobs_from_request(&request_for(&[]), &mut queue).is_ok());
    assert_eq!(queue.len(), 0);
    assert!(queue_jobs_from_request(&request_for(&["NONE"]), &mut queue).is_ok());
    assert_eq!(queue.len(), 0);
}

#[test]
fn queued_jobs_come_after_those_already_there() {
    let mut queue = JobQueue::new();
    let earlier = Job {
        job_id: "old".to_string(),
        request_id: "q0".to_string(),
        current_response_id: String::new(),
        status: Status::Completed,
        last_updated: 1,
        s3_path: "s3://metadata/r0/".to_string(),
    };
    queue.add_job(create_job_instance(JobType::SimulatedError), earlier);
    let request = request_for(&["Simulated Job", "nothing", "Simulated Job"]);
    assert!(queue_jobs_from_request(&request, &mut queue).is_ok());
    assert_eq!(queue.len(), 3);
    assert_eq!(queue.job(0).job_id, "old");
    assert_eq!(queue.job(0).status, Status::Completed);
    assert_eq!(queue.job_impl(0).job_type(), JobType::SimulatedError);
    assert_eq!(queue.job_impl(1).job_type(), JobType::SimulatedJob);
    assert_eq!(queue.job_impl(2).job_type(), JobType::SimulatedJob);
    assert_eq!(queue.job(2).status, Status::Queued);
}

#[test]
fn a_stored_request_moves_on_to_the_following_status() {
    let item = stored_request("QUEUED", &["Correlation"]);
    let request = convert_item_to_job_request(&item).expect("a request");
    assert_eq!(request.status, Status::Queued);
    assert_eq!(request.timestamp, 1_700_000_000);
    let update = update_request_status(&item, &request.status, "mockRequests").expect("an update");
    assert_eq!(update.table, "mockRequests");
    assert_eq!(update.status, Status::Processing);
    assert_eq!(update.request_id.as_s(), Some(&"q1".to_string()));
    assert_eq!(update.creation_date.as_n(), Some(&"1700000000".to_string()));
    assert_eq!(text_of(&update.updated_item, "jobStatus"), "PROCESSING");
    assert_eq!(text_of(&update.updated_item, "id"), "r1");
    assert_eq!(update.updated_item.len(), 12);
    assert_eq!(text_of(&item, "jobStatus"), "QUEUED");
}

#[test]
fn every_step_of_the_lifecycle_is_stored_by_its_text() {
    let item = stored_request("PENDING", &[]);
    for (current, text) in [
        (Status::Pending, "QUEUED"),
        (Status::Queued, "PROCESSING"),
        (Status::Processing, "COMPLETE"),
    ] {
        let update = update_request_status(&item, &current, "t").expect("an update");
        assert_eq!(text_of(&update.updated_item, "jobStatus"), text);
        assert_eq!(update.table, "t");
    }
}

#[test]
fn nothing_follows_a_terminal_status() {
    let item = stored_request("COMPLETE", &[]);
    for current in [Status::Completed, Status::Failed] {
        assert_eq!(
            update_request_status(&item, &current, "mockRequests").expect_err("no update"),
            TransitionError
        );
        assert_eq!(move_request_on(&item, &current).expect_err("no update"), TransitionError);
    }
    assert_eq!(TransitionError.message(), "No next status available");
}

#[test]
fn a_new_request_is_queued_and_moved_on() {
    let mut queue = JobQueue::new();
    let item = stored_request("PENDING", &["Correlation", "Exploratory Data Analysis"]);
    let taken = queue_new_request(&item, &mut queue).expect("a request");
    assert_eq!(queue.len(), 2);
    assert_eq!(queue.job_impl(0).job_type(), JobType::Corr);
    assert_eq!(queue.job_impl(1).job_type(), JobType::Eda);
    assert_eq!(queue.job(0).status, Status::Queued);
    assert_eq!(queue.job(1).status, Status::Queued);
    assert_eq!(taken.update.table, "mockRequests");
    assert_eq!(taken.update.status, Status::Queued);
    assert_eq!(text_of(&taken.update.updated_item, "jobStatus"), "QUEUED");
    let request = taken.request.expect("a request");
    assert_eq!(request.status, Status::Queued);
    assert_eq!(request.request_id, "q1");
    assert_eq!(request.analysis_types, vec!["Correlation", "Exploratory Data Analysis"]);
    assert_eq!(request.timestamp, 1_700_000_000);
    assert_eq!(request.granularity, 60);
}

#[test]
fn a_queued_record_moves_on_to_processing() {
    let mut queue = JobQueue::new();
    let item = stored_request("QUEUED", &["Correlation"]);
    let taken = queue_new_request(&item, &mut queue).expect("a request");
    assert_eq!(taken.update.status, Status::Processing);
    assert_eq!(taken.update.request_id.as_s(), Some(&"q1".to_string()));
    assert_eq!(taken.update.creation_date.as_n(), Some(&"1700000000".to_string()));
    assert_eq!(text_of(&taken.update.updated_item, "jobStatus"), "PROCESSING");
    let request = taken.request.expect("a request");
    assert_eq!(request.status, Status::Processing);
    assert_eq!(request.timestamp, 1_700_000_000);
    assert_eq!(queue.len(), 1);
}

#[test]
fn a_record_that_is_no_request_leaves_the_queue_alone() {
    let mut queue = JobQueue::new();
    let mut item = stored_request("PENDING", &["Correlation"]);
    item.insert("granularity", Attribute::number("often"));
    match queue_new_request(&item, &mut queue) {
        Err(Error::Conversion(error)) => assert_eq!(
            error,
            ConversionError { field: Field::Granularity, problem: Problem::Malformed }
        ),
        other => panic!("{:?}", other),
    }
    assert_eq!(queue.len(), 0);
}

#[test]
fn a_request_that_cannot_move_on_still_has_its_jobs_queued() {
    let mut queue = JobQueue::new();
    let item = stored_request("COMPLETE", &["Correlation"]);
    assert!(matches!(queue_new_request(&item, &mut queue), Err(Error::Transition)));
    assert_eq!(queue.len(), 1);
    assert_eq!(queue.job(0).status, Status::Queued);
}

#[test]
fn a_completed_request_is_stored_as_complete() {
    let item = stored_request("PROCESSING", &["Correlation"]);
    let moved = move_request_on(&item, &Status::Processing).expect("an update");
    assert_eq!(moved.update.status, Status::Completed);
    assert_eq!(moved.update.table, "mockRequests");
    assert_eq!(text_of(&moved.update.updated_item, "jobStatus"), "COMPLETE");
    let request = moved.request.expect("a request");
    assert_eq!(request.status, Status::Completed);
    assert_eq!(request.id, "r1");
}

#[test]
fn a_record_that_does_not_read_is_still_to_be_updated() {
    let mut item = stored_request("PROCESSING", &["Correlation"]);
    item.insert("author", Attribute::Other);
    let moved = move_request_on(&item, &Status::Processing).expect("an update");
    assert_eq!(moved.update.status, Status::Completed);
    assert_eq!(text_of(&moved.update.updated_item, "jobStatus"), "COMPLETE");
    assert_eq!(
        moved.request.expect_err("no request"),
        ConversionError { field: Field::Author, problem: Problem::Invalid }
    );
}

#[test]
fn only_completed_jobs_are_swept() {
    let mut queue = JobQueue::new();
    for (number, status) in [
        (1, Status::Completed),
        (2, Status::Processing),
        (3, Status::Completed),
        (4, Status::Failed),
        (1, Status::Completed),
        (5, Status::Queued),
    ] {
        let job = Job {
            job_id: format!("job-{}", number),
            request_id: format!("q{}", number),
            current_response_id: String::new(),
            status,
            last_updated: 0,
            s3_path: String::new(),
        };
        queue.add_job(create_job_instance(JobType::Corr), job);
    }
    assert_eq!(completed_request_ids(&queue), vec!["q1", "q3", "q1"]);
    assert_eq!(completed_request_ids(&JobQueue::new()), Vec::<String>::new());
}

#[test]
fn queue_test_simulated_job_run() {
    let mut job_queue = JobQueue::new();

    // empty queue
    println!("{}", job_queue.describe());

    let job_request = JobRequest {
        analysis_types: vec!["Simulated Job".to_string()],
        id: generate_request_id(),
        request_id: generate_request_id(),
        author: "test author".to_string(),
        name: "test job".to_string(),
        description: "test desc".to_string(),
        timestamp: 0,
        status: Status::Pending,
        sources: vec!["simulated".to_string()],
        range_start: 0,
        range_end: 1,
        granularity: 0,
    };

    queue_jobs_from_request(&job_request, &mut job_queue).expect("queued");
    println!("{}", job_queue.describe());

    let job_request_2 = JobRequest {
        analysis_types: vec!["Exploratory Data Analysis".to_string()],
        id: "test-jobID-781".to_string(),
        request_id: "test-jobID-781".to_string(),
        author: "test author_2".to_string(),
        name: "test job_2".to_string(),
        description: "test desc_2".to_string(),
        timestamp: 0,
        status: Status::Pending,
        sources: vec!["simulated".to_string()],
        range_start: 0,
        range_end: 1,
        granularity: 0,
    };

    // two jobs
    queue_jobs_from_request(&job_request_2, &mut job_queue).expect("queued");
    println!("{}", job_queue.describe());
    assert_eq!(job_queue.len(), 2);
    assert_eq!(job_queue.job(0).request_id, job_request.request_id);
    assert_eq!(job_queue.job(1).s3_path, "s3://metadata/test-jobID-781/");

    // run jobs: every process ends well
    let went_well = |line: &str| ProcessOutput {
        success: true,
        stdout: line.as_bytes().to_vec(),
        stderr: Vec::new(),
    };
    let outputs = vec![
        went_well("/tmp/simulated.txt\n"),
        went_well("./outputs/test-jobID-781/test-jobID-781-eda.html\n"),
        went_well(""),
        went_well(""),
    ];
    let (run, ended) = job_queue.run(&outputs);
    println!("{}", job_queue.describe());
    assert!(matches!(ended, Ok(None)));
    assert_eq!(run.run_count(), 2);
    assert_eq!(job_queue.job(0).status, Status::Completed);
    assert_eq!(job_queue.job(1).status, Status::Completed);
}
