use visiproc::job_request::JobRequest;
use visiproc::job_type::{
    deserialize_job_type, deserialize_job_types, serialize_job_type, serialize_job_types, JobType,
    ParseJobTypeError,
};
use visiproc::status::Status;

const ALL: [JobType; 5] = [
    JobType::Eda,
    JobType::Corr,
    JobType::SimulatedJob,
    JobType::SimulatedError,
    JobType::Nothing,
];

fn request_for(analysis_types: &[&str]) -> JobRequest {
    JobRequest {
        id: "r1".to_string(),
        request_id: "q1".to_string(),
        author: "test author".to_string(),
        name: "test job".to_string(),
        description: "test desc".to_string(),
        analysis_types: analysis_types.iter().map(|name| name.to_string()).collect(),
        timestamp: 0,
        status: Status::Pending,
        sources: vec!["simulated".to_string()],
        range_start: 0,
        range_end: 1,
        granularity: 0,
    }
}

#[test]
fn job_type_names() {
    assert_eq!(JobType::Eda.to_text(), "Exploratory Data Analysis");
    assert_eq!(JobType::Corr.to_text(), "Correlation");
    assert_eq!(JobType::SimulatedJob.to_text(), "Simulated Job");
    assert_eq!(JobType::SimulatedError.to_text(), "Simulated Error");
    assert_eq!(JobType::Nothing.to_text(), "NONE");
    assert_eq!(JobType::Corr.as_str(), "Correlation");
}

#[test]
fn job_type_name_round_trip() {
    for kind in ALL {
        assert_eq!(JobType::from_str(&kind.to_text()), Ok(kind));
    }
}

#[test]
fn job_type_from_str_refuses_other_names() {
    for text in ["", "correlation", "rolling-mean", "Correlation ", "EDA", "None", "Unknown Kind"] {
        assert_eq!(JobType::from_str(text), Err(ParseJobTypeError));
    }
    assert_eq!(ParseJobTypeError.message(), "invalid job_type");
}

#[test]
fn from_request_keeps_the_order_of_the_request() {
    let request = request_for(&["Correlation", "Exploratory Data Analysis"]);
    assert_eq!(JobType::from_request(&request), vec![JobType::Corr, JobType::Eda]);
    let request = request_for(&["Simulated Error", "Simulated Job", "Simulated Error"]);
    assert_eq!(
        JobType::from_request(&request),
        vec![JobType::SimulatedError, JobType::SimulatedJob, JobType::SimulatedError]
    );
}

#[test]
fn from_request_passes_over_unknown_names() {
    assert_eq!(JobType::from_request(&request_for(&["Unknown Kind"])), Vec::<JobType>::new());
    assert_eq!(JobType::from_request(&request_for(&[])), Vec::<JobType>::new());
    let request = request_for(&["x", "Correlation", "", "Simulated Job", "correlation"]);
    assert_eq!(JobType::from_request(&request), vec![JobType::Corr, JobType::SimulatedJob]);
}

#[test]
fn from_request_passes_over_the_name_of_no_analysis() {
    let request = request_for(&["NONE", "Correlation", "NONE"]);
    assert_eq!(JobType::from_request(&request), vec![JobType::Corr]);
}

#[test]
fn job_types_are_written_and_read_as_lists() {
    let texts = serialize_job_types(&[JobType::Eda, JobType::Nothing]);
    assert_eq!(texts, vec!["Exploratory Data Analysis", "NONE"]);
    assert_eq!(deserialize_job_types(&texts), Ok(vec![JobType::Eda, JobType::Nothing]));
    assert_eq!(serialize_job_type(&JobType::SimulatedJob), "Simulated Job");
    assert_eq!(deserialize_job_type("Simulated Job"), Ok(JobType::SimulatedJob));
    let texts = vec!["Correlation".to_string(), "Eda".to_string()];
    assert_eq!(deserialize_job_types(&texts), Err(ParseJobTypeError));
}
