use iresearch_spider_rs::export::{csv_header, csv_record_fields};
use iresearch_spider_rs::report::ResearchReport;

#[test]
fn header_has_the_fixed_columns_in_order() {
    let header = csv_header();
    assert_eq!(
        header,
        vec![
            "id",
            "title",
            "report_time",
            "introduction",
            "pages_count",
            "industry",
            "cover",
            "download_url",
        ]
    );
}

#[test]
fn record_fields_follow_the_columns() {
    let report = ResearchReport {
        id: 3922,
        title: "a title".to_string(),
        report_time: "2022/8/1".to_string(),
        introduction: "text".to_string(),
        pages_count: -3,
        industry: "tech".to_string(),
        cover: "cloud".to_string(),
        download_url: "https://www.iresearch.cn/include/ajax/user_ajax.ashx?work=idown&rid=3922"
            .to_string(),
    };
    let fields = csv_record_fields(&report);
    assert_eq!(
        fields,
        vec![
            "3922",
            "a title",
            "2022/8/1",
            "text",
            "-3",
            "tech",
            "cloud",
            "https://www.iresearch.cn/include/ajax/user_ajax.ashx?work=idown&rid=3922",
        ]
    );
}
