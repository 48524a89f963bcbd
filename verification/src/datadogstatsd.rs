//! The metrics the service reports.

use vstd::prelude::*;

verus! {

/// The metrics the service reports.
#[derive(Debug, Clone, Copy, PartialEq, Eq, Structural)]
pub enum CustomMetrics {
    Cache,
    RequestTime,
    FetchTime,
    FetchCounter,
}

/// The name a metric is reported under.
pub open spec fn metric_name_spec(m: CustomMetrics) -> Seq<char> {
    match m {
        CustomMetrics::Cache => "hogan.cache"@,
        CustomMetrics::RequestTime => "hogan.requests"@,
        CustomMetrics::FetchTime => "hogan.fetch"@,
        CustomMetrics::FetchCounter => "hogan.fetchcounter"@,
    }
}

impl CustomMetrics {
    /// The name the metric is reported under.
    pub fn metric_name(self) -> (r: &'static str)
        ensures
            r@ == metric_name_spec(self),
    {
        match self {
            CustomMetrics::Cache => "hogan.cache",
            CustomMetrics::RequestTime => "hogan.requests",
            CustomMetrics::FetchTime => "hogan.fetch",
            CustomMetrics::FetchCounter => "hogan.fetchcounter",
        }
    }
}

} // verus!
