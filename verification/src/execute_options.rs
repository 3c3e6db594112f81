//! Per-request execution overrides.
use vstd::prelude::*;
use std::time::Duration;

verus! {

/// Optional settings for a single HTTP call (they do not replace the
/// client's own timeout setting).
#[derive(Clone, Debug, PartialEq, Eq)]
pub struct ExecuteOptions {
    /// Overrides the HTTP client timeout for this call only (retries
    /// included).
    pub timeout: Option<Duration>,
}

impl ExecuteOptions {
    /// No overrides (defaults only).
    pub fn new() -> (o: ExecuteOptions)
        ensures
            o.timeout is None,
    {
        ExecuteOptions { timeout: None }
    }
}

impl Default for ExecuteOptions {
    fn default() -> (o: ExecuteOptions)
        ensures
            o.timeout is None,
    {
        ExecuteOptions { timeout: None }
    }
}

} // verus!
