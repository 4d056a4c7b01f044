//! The configuration of one run.

use vstd::prelude::*;

verus! {

/// What a run was asked to do. It is made once and never changed.
#[derive(Debug, Clone)]
pub struct Settings {
    pub method: String,
    pub url: String,
    pub data: Option<String>,
    pub headers: Vec<(String, String)>,
    pub concurrency: usize,
    pub rate: Option<u64>,
    pub total: Option<u64>,
    pub duration: Option<u64>,
}

impl Settings {
    /// A run needs at least one worker, and a rate, where there is one,
    /// above zero.
    pub open spec fn well_formed(&self) -> bool {
        &&& self.concurrency >= 1
        &&& self.rate != Some(0u64)
    }

    /// Whether the settings are well formed.
    pub fn is_well_formed(&self) -> (b: bool)
        ensures
            b == self.well_formed(),
    {
        let rate_ok = match self.rate {
            Some(rate) => rate != 0,
            None => true,
        };
        self.concurrency >= 1 && rate_ok
    }
}

} // verus!
