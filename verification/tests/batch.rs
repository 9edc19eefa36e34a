use iresearch_spider_rs::batch::{aggregate_outcomes, ids_of_range, BatchState};
use iresearch_spider_rs::outcome::Outcome;
use iresearch_spider_rs::report::ResearchReport;

fn record(id: usize, title: &str) -> ResearchReport {
    ResearchReport {
        id,
        title: title.to_string(),
        report_time: "2022-08-01".to_string(),
        introduction: "intro".to_string(),
        pages_count: 12,
        industry: "tech".to_string(),
        cover: "topic".to_string(),
        download_url: format!(
            "https://www.iresearch.cn/include/ajax/user_ajax.ashx?work=idown&rid={}",
            id
        ),
    }
}

#[test]
fn empty_batch_yields_empty_output_and_zero_counters() {
    let (records, success_count, failure_count) = aggregate_outcomes(Vec::new());
    assert!(records.is_empty());
    assert_eq!(success_count, 0);
    assert_eq!(failure_count, 0);
}

#[test]
fn all_empty_results_count_as_successes_with_no_records() {
    let outcomes = vec![Outcome::EmptyResult, Outcome::EmptyResult, Outcome::EmptyResult];
    let (records, success_count, failure_count) = aggregate_outcomes(outcomes);
    assert!(records.is_empty());
    assert_eq!(success_count, 3);
    assert_eq!(failure_count, 0);
}

#[test]
fn counters_partition_the_batch() {
    let outcomes = vec![
        Outcome::Success(record(4, "a")),
        Outcome::TransportFailure("connection refused".to_string()),
        Outcome::EmptyResult,
        Outcome::DecodeFailure("expected value at line 1".to_string()),
        Outcome::Success(record(2, "b")),
    ];
    let total = outcomes.len();
    let (records, success_count, failure_count) = aggregate_outcomes(outcomes);
    assert_eq!(success_count + failure_count, total);
    assert_eq!(success_count, 3);
    assert_eq!(failure_count, 2);
    assert_eq!(records.len(), 2);
}

#[test]
fn mixed_batch_is_sorted_with_counts() {
    // identifiers {10, 7, 9}: 7 fails transport, 10 and 9 succeed
    let outcomes = vec![
        Outcome::Success(record(10, "ten")),
        Outcome::TransportFailure("timed out".to_string()),
        Outcome::Success(record(9, "nine")),
    ];
    let (records, success_count, failure_count) = aggregate_outcomes(outcomes);
    assert_eq!(success_count, 2);
    assert_eq!(failure_count, 1);
    assert_eq!(records.len(), 2);
    assert_eq!(records[0], record(9, "nine"));
    assert_eq!(records[1], record(10, "ten"));
}

#[test]
fn output_is_sorted_ascending_without_duplicates() {
    let outcomes = vec![
        Outcome::Success(record(5, "five")),
        Outcome::Success(record(3, "first three")),
        Outcome::Success(record(3, "last three")),
        Outcome::Success(record(1, "one")),
    ];
    let (records, success_count, failure_count) = aggregate_outcomes(outcomes);
    assert_eq!(success_count, 4);
    assert_eq!(failure_count, 0);
    let ids: Vec<usize> = records.iter().map(|r| r.id).collect();
    assert_eq!(ids, vec![1, 3, 5]);
    // last-absorbed-wins for the duplicated identifier
    assert_eq!(records[1].title, "last three");
}

#[test]
fn timeout_failure_is_recorded_and_batch_completes() {
    let outcomes = vec![
        Outcome::Success(record(1, "one")),
        Outcome::TransportFailure("operation timed out after 3s".to_string()),
        Outcome::Success(record(2, "two")),
    ];
    let (records, success_count, failure_count) = aggregate_outcomes(outcomes);
    assert_eq!(success_count, 2);
    assert_eq!(failure_count, 1);
    assert_eq!(records.len(), 2);
}

#[test]
fn progress_is_monotonic_and_reaches_one_hundred() {
    let mut state = BatchState::new(4);
    assert_eq!(state.progress_percent(), 0);
    state.record_outcome(Outcome::Success(record(8, "r")));
    assert_eq!(state.progress_percent(), 25);
    state.record_outcome(Outcome::TransportFailure("no route to host".to_string()));
    assert_eq!(state.progress_percent(), 50);
    state.record_outcome(Outcome::EmptyResult);
    assert_eq!(state.progress_percent(), 75);
    state.record_outcome(Outcome::DecodeFailure("invalid type".to_string()));
    assert_eq!(state.progress_percent(), 100);
    assert_eq!(state.success_count, 2);
    assert_eq!(state.failure_count, 2);
    let records = state.finalize();
    assert_eq!(records.len(), 1);
    assert_eq!(records[0].id, 8);
}

#[test]
fn completion_order_does_not_change_the_merged_output() {
    let forward = vec![
        Outcome::Success(record(5, "five")),
        Outcome::EmptyResult,
        Outcome::Success(record(1, "one")),
        Outcome::Success(record(3, "three")),
    ];
    let backward = vec![
        Outcome::Success(record(3, "three")),
        Outcome::Success(record(1, "one")),
        Outcome::EmptyResult,
        Outcome::Success(record(5, "five")),
    ];
    let (records_fwd, s_fwd, f_fwd) = aggregate_outcomes(forward);
    let (records_bwd, s_bwd, f_bwd) = aggregate_outcomes(backward);
    assert_eq!(records_fwd, records_bwd);
    assert_eq!((s_fwd, f_fwd), (s_bwd, f_bwd));
}

#[test]
fn ids_of_range_is_the_ascending_half_open_range() {
    let ids = ids_of_range(3, 7);
    assert_eq!(ids, vec![3, 4, 5, 6]);
    assert!(ids_of_range(5, 5).is_empty());
    assert!(ids_of_range(9, 2).is_empty());
}
