//! A benchmark-harness library for a conference paper-review workload.
//!
//! The library covers the parts of the harness that compute: normalizing
//! loosely-typed source records into papers, authors and reviews; deriving a
//! referee population and partitioning reviews into fixed-size assignment
//! groups; planning tenant provisioning; the cold/warm read-measurement state
//! machine with its latency histograms; and percentile and memory reporting.
//! Fetching the source records, driving the target platform and writing the
//! tabular output are left to the embedding application.
#![verifier::loop_isolation(false)]

use vstd::prelude::*;

pub mod hist;
pub mod rng;
pub mod runner;
pub mod source;
pub mod stats;
pub mod tenant;
pub mod text;
pub mod urls;
pub mod workload;

verus! {

/// Every failure aborts the run: network or malformed-payload trouble from the
/// data source, a required field missing or malformed, or a failure reported
/// by the target platform.
#[derive(Debug)]
pub enum HarnessError {
    SourceFetch(String),
    Parse(String),
    Platform(String),
}

impl HarnessError {
    pub open spec fn is_parse(&self) -> bool {
        matches!(self, HarnessError::Parse(_))
    }

    pub open spec fn is_source_fetch(&self) -> bool {
        matches!(self, HarnessError::SourceFetch(_))
    }

    pub open spec fn is_platform(&self) -> bool {
        matches!(self, HarnessError::Platform(_))
    }
}

} // verus!
