//! Verified parsing and supervision logic for an Android `logcat` ingestion
//! pipeline: a line parser for the `epoch,uid` output format, and the state
//! machine that drives a supervised reader over a log-producing subprocess.

pub mod logcat_line;
pub mod scan;
pub mod supervisor;
