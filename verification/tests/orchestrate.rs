use iresearch_spider_rs::batch::ids_of_range;
use iresearch_spider_rs::orchestrate::BatchRun;
use iresearch_spider_rs::outcome::Outcome;
use iresearch_spider_rs::report::ResearchReport;

fn record(id: usize) -> ResearchReport {
    ResearchReport {
        id,
        title: format!("report {id}"),
        report_time: "2022/8/1".to_string(),
        introduction: "intro".to_string(),
        pages_count: 9,
        industry: "tech".to_string(),
        cover: "cloud".to_string(),
        download_url: format!(
            "https://www.iresearch.cn/include/ajax/user_ajax.ashx?work=idown&rid={id}"
        ),
    }
}

#[test]
fn bound_of_one_runs_the_batch_one_fetch_at_a_time() {
    let mut run = BatchRun::new(ids_of_range(0, 3), 1);
    let mut fetched = Vec::new();
    while !run.is_complete() {
        let first = run.next_launch().expect("a slot and an identifier are available");
        // the bound of one refuses a second launch while one is in flight
        assert_eq!(run.next_launch(), None);
        fetched.push(first);
        run.complete(Outcome::Success(record(first)));
    }
    fetched.sort();
    assert_eq!(fetched, vec![0, 1, 2]);
    assert_eq!(run.state.success_count, 3);
    assert_eq!(run.state.failure_count, 0);
    let merged = run.finish();
    let ids: Vec<usize> = merged.iter().map(|r| r.id).collect();
    assert_eq!(ids, vec![0, 1, 2]);
}

#[test]
fn bound_of_two_launches_at_most_two_before_a_completion() {
    let mut run = BatchRun::new(ids_of_range(10, 15), 2);
    let first = run.next_launch().expect("first slot");
    let second = run.next_launch().expect("second slot");
    assert_ne!(first, second);
    assert_eq!(run.next_launch(), None);
    run.complete(Outcome::EmptyResult);
    let third = run.next_launch().expect("freed slot");
    assert_eq!(run.next_launch(), None);
    run.complete(Outcome::TransportFailure("timed out".to_string()));
    run.complete(Outcome::Success(record(third)));
    let fourth = run.next_launch().expect("fourth");
    let fifth = run.next_launch().expect("fifth");
    run.complete(Outcome::Success(record(fourth)));
    run.complete(Outcome::DecodeFailure("truncated body".to_string()));
    assert!(run.is_complete());
    assert_eq!(run.state.success_count, 3);
    assert_eq!(run.state.failure_count, 2);
    let _ = fifth;
}

#[test]
fn empty_identifier_list_is_complete_immediately() {
    let mut run = BatchRun::new(Vec::new(), 8);
    assert!(run.is_complete());
    assert_eq!(run.next_launch(), None);
    assert_eq!(run.state.success_count, 0);
    assert_eq!(run.state.failure_count, 0);
    assert!(run.finish().is_empty());
}
