use visiproc::aws::{copy_source, ctas_query, query_progress, QueryProgress};
use visiproc::retention::{
    is_expired, is_update_queue, queue_age, should_delete, MAX_QUEUE_AGE, MAX_QUEUE_HOURS,
};

#[test]
fn the_table_query_is_written_out_in_full() {
    assert_eq!(
        ctas_query(
            "mockdata",
            "test_table_ctas_7",
            "s3://metadata/test-jobID-7/",
            "SELECT * FROM mockdata.dataset1 LIMIT 2"
        ),
        "CREATE TABLE \"mockdata\".\"test_table_ctas_7\"\n           WITH (format = 'JSON',  \
         external_location = 's3://metadata/test-jobID-7/')\n           AS SELECT * FROM \
         mockdata.dataset1 LIMIT 2"
    );
    assert_eq!(
        ctas_query("", "", "", ""),
        "CREATE TABLE \"\".\"\"\n           WITH (format = 'JSON',  external_location = '')\n           AS "
    );
}

#[test]
fn the_state_of_a_query_tells_how_far_it_has_come() {
    assert_eq!(query_progress("SUCCEEDED"), QueryProgress::Succeeded);
    assert_eq!(query_progress("FAILED"), QueryProgress::Stopped);
    assert_eq!(query_progress("CANCELLED"), QueryProgress::Stopped);
    for state in ["", "QUEUED", "RUNNING", "succeeded", "FAILED ", "CANCELED"] {
        assert_eq!(query_progress(state), QueryProgress::Pending);
    }
}

#[test]
fn a_copy_names_its_source_by_bucket_and_key() {
    assert_eq!(copy_source("metadata", "a/b.html"), "metadata/a/b.html");
    assert_eq!(copy_source("", ""), "/");
}

#[test]
fn queues_of_updates_are_known_by_their_address() {
    assert!(is_update_queue("http://localhost:4566/000000000000/requestUpdatesQueue-1"));
    assert!(is_update_queue("requestUpdates"));
    assert!(is_update_queue("xrequestUpdatesrequestUpdates"));
    assert!(!is_update_queue("http://localhost:4566/000000000000/requestupdates"));
    assert!(!is_update_queue("requestUpdate"));
    assert!(!is_update_queue("request-Updates"));
    assert!(!is_update_queue(""));
}

#[test]
fn the_age_of_a_queue_is_counted_from_its_creation() {
    assert_eq!(queue_age(1_700_007_200, "1700000000"), Some(7_200));
    assert_eq!(queue_age(10, "20"), Some(-10));
    assert_eq!(queue_age(0, "0"), Some(0));
    assert_eq!(queue_age(10, ""), None);
    assert_eq!(queue_age(10, "yesterday"), None);
    assert_eq!(queue_age(10, "1.5"), None);
    assert_eq!(queue_age(i64::MAX, "-1"), None);
    assert_eq!(queue_age(-2, "9223372036854775807"), None);
    assert_eq!(queue_age(-1, "9223372036854775807"), Some(i64::MIN));
    assert_eq!(queue_age(i64::MAX, "0"), Some(i64::MAX));
}

#[test]
fn only_old_queues_of_updates_are_deleted() {
    assert_eq!(MAX_QUEUE_HOURS, 2);
    assert_eq!(MAX_QUEUE_AGE, MAX_QUEUE_HOURS * 60 * 60);
    assert!(is_expired(7_201, MAX_QUEUE_AGE));
    assert!(!is_expired(7_200, MAX_QUEUE_AGE));
    assert!(!is_expired(-1, MAX_QUEUE_AGE));
    assert!(should_delete("q/requestUpdatesQueue-1", 7_201, MAX_QUEUE_AGE));
    assert!(!should_delete("q/requestUpdatesQueue-1", 7_200, MAX_QUEUE_AGE));
    assert!(!should_delete("q/otherQueue", 1_000_000, MAX_QUEUE_AGE));
    assert!(should_delete("q/requestUpdatesQueue-1", 31, 30));
    assert!(!should_delete("q/requestUpdatesQueue-1", 30, 30));
}
