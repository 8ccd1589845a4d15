//! Per-commit insertion and deletion counts over the most recent part of a
//! repository's history, written as comma-separated rows.
//!
//! The work is split into a history walk, the pairing of each commit with its
//! predecessor, the reduction of each pair's tree diff to counters, and the
//! rendering of the counters as delimited text.

pub mod history;
pub mod pairing;
pub mod stats;

pub use history::{diff_stats, diff_stats_at, StatError};
pub use pairing::{pair_commits, CommitPair};
pub use stats::{decimal_bytes, render_stats, DiffStat};
