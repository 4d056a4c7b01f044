//! The engine of an HTTP load generator and the statistics of its results.
//!
//! A run sends one request after another from a number of workers and shows
//! the operator how the server answers. This library holds what such a run
//! decides and computes; sending, timing and drawing are left to the program
//! around it.
//!
//! - [`settings`]: the configuration of a run.
//! - [`metric`]: the outcome of one request.
//! - [`worker`]: a worker's share of the run's limits, its messages, and
//!   when it goes on, waits or ends.
//! - [`run`]: what holds of the messages of a whole run: how many there
//!   are, which is the last, and by how much a worker can overrun.
//! - [`stats`]: the statistics of a window of messages, built on
//!   [`tally`], [`estimate`] and [`histogram`].
//! - [`summary`]: the state of the run as the dashboard shows it.
//! - [`ui`]: what the dashboard decides from frame to frame.
//! - [`text`]: numbers as the lines of text show them.
//! - [`wide`]: the 256-bit arithmetic that keeps the statistics exact.
//!
//! All times are whole nanoseconds unless a name says otherwise.

pub mod estimate;
pub mod histogram;
pub mod metric;
pub mod run;
pub mod settings;
pub mod stats;
pub mod summary;
pub mod tally;
pub mod text;
pub mod ui;
pub mod wide;
pub mod worker;
