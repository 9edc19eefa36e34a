//! Core of a bounded-concurrency fetch-and-aggregate pipeline for numbered
//! research-report records.
//!
//! The library holds the verified logic: deriving request and download
//! locators from an identifier, classifying a decoded payload into a terminal
//! outcome, counting successes and failures with a monotonic progress
//! percentage, bounding the number of in-flight fetches, and merging the
//! collected records into one ascending sequence. The network round trips,
//! the JSON decoding and the CSV export live outside the library and hand it
//! plain values.

pub mod batch;
pub mod decimal;
pub mod export;
pub mod limiter;
pub mod locator;
pub mod orchestrate;
pub mod outcome;
pub mod payload;
pub mod report;
