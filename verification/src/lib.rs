//! Verified core of a job-board crawler: query construction, URL encoding,
//! pagination parsing, rate limiting, retry policy, result collection and the
//! crawl state machine.
use vstd::prelude::*;

pub mod encode;
pub mod query_builder;
pub mod pagination;
pub mod records;
pub mod collector;
pub mod limiter;
pub mod fetch;
pub mod crawl;
pub mod extract;

verus! {

/// The job boards this library knows how to query.
#[derive(Clone, Copy, PartialEq, Eq, Structural, Debug)]
pub enum Scrapers {
    Indeed,
}

} // verus!
