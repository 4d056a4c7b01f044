//! The outcome of one request.

use crate::text::{aligned_string, decimal, right_aligned};
use vstd::prelude::*;

verus! {

/// Nanoseconds in one millisecond.
pub const NANOS_PER_MILLI: u64 = 1_000_000;

/// Nanoseconds in one second.
pub const NANOS_PER_SECOND: u64 = 1_000_000_000;

/// What one request came to: when it started and stopped, how long it took,
/// and either the status that the server answered with or the error that kept
/// an answer from arriving. All times are in nanoseconds.
#[derive(Debug)]
pub struct RequestMetric {
    pub start_time: u64,
    pub stop_time: u64,
    pub elapsed_time: u64,
    pub status_code: Option<String>,
    pub error_message: Option<String>,
}

/// The label under which a request without a status is counted.
pub open spec fn failure_label() -> Seq<char> {
    "000"@
}

impl RequestMetric {
    /// A metric is well formed when it did not stop before it started, its
    /// elapsed time is the span between the two, and it holds exactly one of
    /// a status and an error.
    pub open spec fn well_formed(&self) -> bool {
        &&& self.start_time <= self.stop_time
        &&& self.elapsed_time == self.stop_time - self.start_time
        &&& self.status_code.is_some() != self.error_message.is_some()
    }

    /// The label that the statistics group this metric under: its status, or
    /// the failure label where it has none.
    pub open spec fn label(&self) -> Seq<char> {
        match self.status_code {
            Some(code) => code@,
            None => failure_label(),
        }
    }

    /// The elapsed time in whole milliseconds.
    pub open spec fn millis(&self) -> u64 {
        self.elapsed_time / NANOS_PER_MILLI
    }

    /// Records a finished request. `outcome` is `Ok` with the status that
    /// came back, or `Err` with the transport error.
    pub fn record(start_time: u64, stop_time: u64, outcome: Result<String, String>) -> (metric:
        RequestMetric)
        requires
            start_time <= stop_time,
        ensures
            metric.well_formed(),
            metric.start_time == start_time,
            metric.stop_time == stop_time,
            metric.elapsed_time == stop_time - start_time,
            metric.status_code.is_some() == outcome.is_ok(),
            metric.error_message.is_some() == outcome.is_err(),
            outcome matches Ok(code) ==> metric.status_code == Some(code),
            outcome matches Err(error) ==> metric.error_message == Some(error),
    {
        let elapsed_time: u64 = stop_time - start_time;
        match outcome {
            Ok(code) => RequestMetric {
                start_time,
                stop_time,
                elapsed_time,
                status_code: Some(code),
                error_message: None,
            },
            Err(error) => RequestMetric {
                start_time,
                stop_time,
                elapsed_time,
                status_code: None,
                error_message: Some(error),
            },
        }
    }

    /// The label of this metric, as a string of its own.
    pub fn status_label(&self) -> (label: String)
        ensures
            label@ == self.label(),
    {
        match &self.status_code {
            Some(code) => code.clone(),
            None => "000".to_owned(),
        }
    }

    /// The metric as a line of text: the label in square brackets, the
    /// elapsed milliseconds to the right of three columns, and the error,
    /// if there is one, after a tab.
    pub open spec fn text(&self) -> Seq<char> {
        "["@ + self.label() + "] "@ + right_aligned(decimal(self.millis() as nat), 3) + "ms\t"@
            + match self.error_message {
            Some(error) => error@,
            None => Seq::empty(),
        }
    }

    /// The metric as a line of text.
    pub fn to_text(&self) -> (line: String)
        ensures
            line@ == self.text(),
    {
        let mut line = "[".to_owned();
        line.append(self.status_label().as_str());
        line.append("] ");
        line.append(aligned_string(self.elapsed_millis()).as_str());
        line.append("ms\t");
        match &self.error_message {
            Some(error) => {
                line.append(error.as_str());
            },
            None => {
                assert(line@ + Seq::<char>::empty() =~= line@);
            },
        }
        line
    }

    /// The elapsed time in whole milliseconds.
    pub fn elapsed_millis(&self) -> (millis: u64)
        ensures
            millis == self.millis(),
            millis == self.elapsed_time as int / 1_000_000,
    {
        self.elapsed_time / NANOS_PER_MILLI
    }
}

} // verus!
