//! The decoded remote payload, and its normalization into a terminal outcome.
//!
//! Decoding bytes into these structures is the caller's concern; the library
//! receives the decoded payload and classifies it: zero entries is
//! `EmptyResult`, otherwise the first entry is normalized into a
//! `ResearchReport` tagged with the payload-reported identifier.

use vstd::prelude::*;
use crate::locator::{download_url, download_url_chars};
use crate::outcome::Outcome;
use crate::report::ResearchReport;

verus! {

/// `serde_json::Value` carries the payload fields that the pipeline never
/// reads (a message, an item, keywords). The library holds such values
/// opaquely and passes them through untouched.
#[verifier::external_type_specification]
#[verifier::external_body]
pub struct ExValue(serde_json::Value);

/// One entry of the remote payload's result list.
pub struct ResponsePayloadItem {
    pub id: usize,
    pub title: String,
    pub tuijian_text: String,
    pub uptime: String,
    pub keywords: serde_json::Value,
    pub report_list: String,
    pub graph_list: String,
    pub pages_count: i64,
    pub t_id: i64,
    pub industry: String,
    pub topic: String,
    pub is_free: i64,
    pub content: String,
}

/// The decoded remote payload: a status indicator, a message, an item, and a
/// list of entries.
pub struct ResponsePayload {
    pub status: String,
    pub msg: serde_json::Value,
    pub item: serde_json::Value,
    pub list: Vec<ResponsePayloadItem>,
}

/// The record is the normalization of the payload entry: every retained field
/// is copied over, and the identifier and download locator both come from the
/// entry's own identifier, not from the identifier that was requested.
pub open spec fn record_matches_item(r: ResearchReport, item: ResponsePayloadItem) -> bool {
    &&& r.id == item.id
    &&& r.title@ == item.title@
    &&& r.report_time@ == item.uptime@
    &&& r.introduction@ == item.tuijian_text@
    &&& r.pages_count == item.pages_count
    &&& r.industry@ == item.industry@
    &&& r.cover@ == item.topic@
    &&& r.download_url@ == download_url_chars(item.id as nat)
}

/// Normalizes one payload entry into a flat record.
pub fn record_of_item(item: &ResponsePayloadItem) -> (r: ResearchReport)
    ensures
        record_matches_item(r, *item),
{
    ResearchReport {
        id: item.id,
        title: item.title.clone(),
        report_time: item.uptime.clone(),
        introduction: item.tuijian_text.clone(),
        pages_count: item.pages_count,
        industry: item.industry.clone(),
        cover: item.topic.clone(),
        download_url: download_url(item.id),
    }
}

/// Classifies a decoded payload: zero entries is the valid `EmptyResult`
/// terminal state, otherwise the first entry becomes the record.
pub fn outcome_of_payload(payload: &ResponsePayload) -> (r: Outcome)
    ensures
        payload.list@.len() == 0 ==> r is EmptyResult,
        payload.list@.len() > 0 ==> (r matches Outcome::Success(rec)
            && record_matches_item(rec, payload.list@[0])),
{
    if payload.list.len() == 0 {
        Outcome::EmptyResult
    } else {
        Outcome::Success(record_of_item(&payload.list[0]))
    }
}

} // verus!
