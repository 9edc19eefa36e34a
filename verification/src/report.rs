//! The normalized unit of work: one flat research-report record.

use vstd::prelude::*;

verus! {

/// One normalized record, immutable once constructed. The identifier and the
/// download locator come from the payload-reported identifier, which may
/// legitimately differ from the identifier that was requested.
#[derive(Debug, PartialEq)]
pub struct ResearchReport {
    pub id: usize,
    pub title: String,
    pub report_time: String,
    pub introduction: String,
    pub pages_count: i64,
    pub industry: String,
    pub cover: String,
    pub download_url: String,
}

} // verus!
