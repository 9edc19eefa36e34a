//! The tabular shape of the final record sequence: the fixed column header
//! and the textual fields of one record, ready for a downstream writer.

use vstd::prelude::*;
use vstd::string::StringExecFns;
use crate::decimal::{dec_digits, i64_to_decimal, signed_dec_digits, usize_to_decimal};
use crate::report::ResearchReport;

verus! {

/// The fixed column header of the export.
pub open spec fn header_fields() -> Seq<Seq<char>> {
    seq![
        "id"@,
        "title"@,
        "report_time"@,
        "introduction"@,
        "pages_count"@,
        "industry"@,
        "cover"@,
        "download_url"@,
    ]
}

/// The textual fields of one record, in column order.
pub open spec fn record_fields(r: ResearchReport) -> Seq<Seq<char>> {
    seq![
        dec_digits(r.id as nat),
        r.title@,
        r.report_time@,
        r.introduction@,
        signed_dec_digits(r.pages_count as int),
        r.industry@,
        r.cover@,
        r.download_url@,
    ]
}

/// The column header row.
pub fn csv_header() -> (row: Vec<String>)
    ensures
        row@.map_values(|s: String| s@) =~= header_fields(),
{
    let mut row: Vec<String> = Vec::new();
    row.push(String::from_str("id"));
    row.push(String::from_str("title"));
    row.push(String::from_str("report_time"));
    row.push(String::from_str("introduction"));
    row.push(String::from_str("pages_count"));
    row.push(String::from_str("industry"));
    row.push(String::from_str("cover"));
    row.push(String::from_str("download_url"));
    proof {
        assert(row@.map_values(|s: String| s@) =~= header_fields());
    }
    row
}

/// The field row of one record, in column order, with both integers rendered
/// in decimal.
pub fn csv_record_fields(r: &ResearchReport) -> (row: Vec<String>)
    ensures
        row@.map_values(|s: String| s@) =~= record_fields(*r),
{
    let mut row: Vec<String> = Vec::new();
    row.push(usize_to_decimal(r.id));
    row.push(r.title.clone());
    row.push(r.report_time.clone());
    row.push(r.introduction.clone());
    row.push(i64_to_decimal(r.pages_count));
    row.push(r.industry.clone());
    row.push(r.cover.clone());
    row.push(r.download_url.clone());
    proof {
        assert(row@.map_values(|s: String| s@) =~= record_fields(*r));
    }
    row
}

} // verus!
