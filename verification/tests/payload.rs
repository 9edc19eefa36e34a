use iresearch_spider_rs::outcome::Outcome;
use iresearch_spider_rs::payload::{
    outcome_of_payload, record_of_item, ResponsePayload, ResponsePayloadItem,
};

fn item(id: usize) -> ResponsePayloadItem {
    ResponsePayloadItem {
        id,
        title: "2022年数据库云管平台白皮书".to_string(),
        tuijian_text: "an introduction".to_string(),
        uptime: "2022/8/1".to_string(),
        keywords: serde_json::Value::Null,
        report_list: String::new(),
        graph_list: String::new(),
        pages_count: 34,
        t_id: 5,
        industry: "database".to_string(),
        topic: "cloud".to_string(),
        is_free: 0,
        content: String::new(),
    }
}

fn payload(list: Vec<ResponsePayloadItem>) -> ResponsePayload {
    ResponsePayload {
        status: "true".to_string(),
        msg: serde_json::Value::Null,
        item: serde_json::Value::Null,
        list,
    }
}

#[test]
fn empty_list_is_a_valid_empty_result() {
    let outcome = outcome_of_payload(&payload(Vec::new()));
    assert!(matches!(outcome, Outcome::EmptyResult));
}

#[test]
fn first_entry_becomes_the_record() {
    let outcome = outcome_of_payload(&payload(vec![item(3922), item(9999)]));
    match outcome {
        Outcome::Success(report) => {
            assert_eq!(report.id, 3922);
            assert_eq!(report.title, "2022年数据库云管平台白皮书");
            assert_eq!(report.report_time, "2022/8/1");
            assert_eq!(report.introduction, "an introduction");
            assert_eq!(report.pages_count, 34);
            assert_eq!(report.industry, "database");
            assert_eq!(report.cover, "cloud");
            assert_eq!(
                report.download_url,
                "https://www.iresearch.cn/include/ajax/user_ajax.ashx?work=idown&rid=3922"
            );
        }
        _ => panic!("a non-empty payload must yield a record"),
    }
}

#[test]
fn record_is_tagged_with_the_payload_identifier() {
    // the payload may report a different identifier than the one requested;
    // the record and its download locator follow the payload
    let report = record_of_item(&item(3939));
    assert_eq!(report.id, 3939);
    assert!(report.download_url.ends_with("rid=3939"));
}
