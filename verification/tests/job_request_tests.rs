use visiproc::error::{ConversionError, Field, Problem};
use visiproc::job_request::{
    convert_item_to_job_request, read_i32, read_i64, read_status, read_text, read_texts,
};
use visiproc::record::{Attribute, Record};
use visiproc::status::Status;

fn texts(values: &[&str]) -> Attribute {
    Attribute::text_list(&values.iter().map(|value| value.to_string()).collect())
}

fn stored_request() -> Record {
    let mut item = Record::new();
    item.insert("id", Attribute::text("r1"));
    item.insert("requestID", Attribute::text("q1"));
    item.insert("jobName", Attribute::text("test job"));
    item.insert("author", Attribute::text("test author"));
    item.insert("jobDescription", Attribute::text("test desc"));
    item.insert("analysisTypes", texts(&["Correlation"]));
    item.insert("creationDate", Attribute::number("1700000000"));
    item.insert("jobStatus", Attribute::text("QUEUED"));
    item.insert("sources", texts(&["s3"]));
    item.insert("dateRangeStart", Attribute::number("0"));
    item.insert("dateRangeEnd", Attribute::number("100"));
    item.insert("granularity", Attribute::number("60"));
    item
}

fn without(name: &str) -> Record {
    let full = stored_request();
    let mut item = Record::new();
    for field in FIELDS {
        if field != name {
            item.insert(field, full.get(field).expect("a stored attribute").duplicate());
        }
    }
    item
}

fn with(name: &str, value: Attribute) -> Record {
    let mut item = stored_request();
    item.insert(name, value);
    item
}

fn fault(field: Field, problem: Problem) -> ConversionError {
    ConversionError { field, problem }
}

const FIELDS: [&str; 12] = [
    "id",
    "requestID",
    "jobName",
    "author",
    "jobDescription",
    "analysisTypes",
    "creationDate",
    "jobStatus",
    "sources",
    "dateRangeStart",
    "dateRangeEnd",
    "granularity",
];

const ORDER: [Field; 12] = [
    Field::Id,
    Field::RequestId,
    Field::JobName,
    Field::Author,
    Field::JobDescription,
    Field::AnalysisTypes,
    Field::CreationDate,
    Field::JobStatus,
    Field::Sources,
    Field::DateRangeStart,
    Field::DateRangeEnd,
    Field::Granularity,
];

#[test]
fn a_stored_record_reads_as_a_request() {
    let request = convert_item_to_job_request(&stored_request()).expect("a request");
    assert_eq!(request.id, "r1");
    assert_eq!(request.request_id, "q1");
    assert_eq!(request.name, "test job");
    assert_eq!(request.author, "test author");
    assert_eq!(request.description, "test desc");
    assert_eq!(request.analysis_types, vec!["Correlation"]);
    assert_eq!(request.timestamp, 1_700_000_000);
    assert_eq!(request.status, Status::Queued);
    assert_eq!(request.sources, vec!["s3"]);
    assert_eq!(request.range_start, 0);
    assert_eq!(request.range_end, 100);
    assert_eq!(request.granularity, 60);
}

#[test]
fn attribute_names_are_the_stored_ones() {
    for (field, name) in ORDER.iter().zip(FIELDS) {
        assert_eq!(field.attribute_name(), name);
    }
}

#[test]
fn each_missing_attribute_is_named() {
    for (field, name) in ORDER.iter().zip(FIELDS) {
        let error = convert_item_to_job_request(&without(name)).expect_err("no request");
        assert_eq!(error, fault(*field, Problem::Missing));
    }
}

fn error_of(item: &Record) -> ConversionError {
    convert_item_to_job_request(item).expect_err("no request")
}

#[test]
fn the_first_fault_in_reading_order_is_reported() {
    let mut item = without("author");
    item.insert("id", Attribute::number("1"));
    item.insert("granularity", Attribute::number("x"));
    assert_eq!(error_of(&item), fault(Field::Id, Problem::Invalid));
    let mut item = without("sources");
    item.insert("jobStatus", Attribute::text("DONE"));
    assert_eq!(error_of(&item), fault(Field::JobStatus, Problem::Malformed));
    let mut item = without("dateRangeEnd");
    item.insert("jobName", Attribute::Other);
    assert_eq!(error_of(&item), fault(Field::JobName, Problem::Invalid));
    assert_eq!(error_of(&Record::new()), fault(Field::Id, Problem::Missing));
}

#[test]
fn an_attribute_of_the_wrong_kind_is_invalid() {
    for (field, name) in ORDER.iter().zip(FIELDS) {
        assert_eq!(error_of(&with(name, Attribute::Other)), fault(*field, Problem::Invalid));
    }
    assert_eq!(
        error_of(&with("creationDate", Attribute::text("1700000000"))),
        fault(Field::CreationDate, Problem::Invalid)
    );
    assert_eq!(
        error_of(&with("jobStatus", Attribute::number("1"))),
        fault(Field::JobStatus, Problem::Invalid)
    );
    assert_eq!(
        error_of(&with("sources", Attribute::text("s3"))),
        fault(Field::Sources, Problem::Invalid)
    );
}

#[test]
fn a_list_with_an_item_that_is_no_text_is_invalid() {
    let mixed = Attribute::L(vec![Attribute::text("Correlation"), Attribute::number("1")]);
    assert_eq!(
        error_of(&with("analysisTypes", mixed)),
        fault(Field::AnalysisTypes, Problem::Invalid)
    );
    let nested = Attribute::L(vec![Attribute::L(vec![])]);
    assert_eq!(error_of(&with("sources", nested)), fault(Field::Sources, Problem::Invalid));
}

#[test]
fn empty_lists_are_read_as_empty() {
    let mut item = stored_request();
    item.insert("analysisTypes", Attribute::L(vec![]));
    item.insert("sources", Attribute::L(vec![]));
    let request = convert_item_to_job_request(&item).expect("a request");
    assert!(request.analysis_types.is_empty());
    assert!(request.sources.is_empty());
}

#[test]
fn numbers_that_do_not_read_are_malformed() {
    for text in ["", "abc", "1.5", " 7", "9223372036854775808"] {
        assert_eq!(
            error_of(&with("creationDate", Attribute::number(text))),
            fault(Field::CreationDate, Problem::Malformed)
        );
        assert_eq!(
            error_of(&with("dateRangeStart", Attribute::number(text))),
            fault(Field::DateRangeStart, Problem::Malformed)
        );
        assert_eq!(
            error_of(&with("dateRangeEnd", Attribute::number(text))),
            fault(Field::DateRangeEnd, Problem::Malformed)
        );
    }
    for text in ["", "sixty", "2147483648", "-2147483649"] {
        assert_eq!(
            error_of(&with("granularity", Attribute::number(text))),
            fault(Field::Granularity, Problem::Malformed)
        );
    }
}

#[test]
fn numbers_are_read_with_their_sign() {
    let mut item = stored_request();
    item.insert("creationDate", Attribute::number("-1"));
    item.insert("dateRangeStart", Attribute::number("+5"));
    item.insert("dateRangeEnd", Attribute::number("9223372036854775807"));
    item.insert("granularity", Attribute::number("-2147483648"));
    let request = convert_item_to_job_request(&item).expect("a request");
    assert_eq!(request.timestamp, -1);
    assert_eq!(request.range_start, 5);
    assert_eq!(request.range_end, i64::MAX);
    assert_eq!(request.granularity, i32::MIN);
}

#[test]
fn every_status_is_read_from_a_record() {
    for (text, status) in [
        ("PENDING", Status::Pending),
        ("QUEUED", Status::Queued),
        ("PROCESSING", Status::Processing),
        ("COMPLETE", Status::Completed),
        ("FAILED", Status::Failed),
    ] {
        let request = convert_item_to_job_request(&with("jobStatus", Attribute::text(text)))
            .expect("a request");
        assert_eq!(request.status, status);
    }
}

#[test]
fn single_attributes_are_read_by_kind() {
    let item = stored_request();
    assert_eq!(read_text(&item, Field::Id), Ok("r1".to_string()));
    assert_eq!(read_text(&item, Field::JobId), Err(fault(Field::JobId, Problem::Missing)));
    assert_eq!(read_i64(&item, Field::CreationDate), Ok(1_700_000_000));
    assert_eq!(read_i64(&item, Field::Id), Err(fault(Field::Id, Problem::Invalid)));
    assert_eq!(read_i32(&item, Field::Granularity), Ok(60));
    assert_eq!(read_status(&item, Field::JobStatus), Ok(Status::Queued));
    assert_eq!(read_status(&item, Field::Id), Err(fault(Field::Id, Problem::Malformed)));
    assert_eq!(read_texts(&item, Field::Sources), Ok(vec!["s3".to_string()]));
    assert_eq!(
        read_texts(&item, Field::Id),
        Err(fault(Field::Id, Problem::Invalid))
    );
}
