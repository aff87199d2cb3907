//! Merging and aggregating comma-separated tables for a small group of
//! cooperating processes ("ranks").
//!
//! The crate holds the rules of the pipeline and proves them with Verus:
//!
//! * [`decimal`]: the decimal notation of signed integers, read and written.
//! * [`table`]: a table with an optional header row and a body of rows.
//! * [`codec`]: tables from CSV text and CSV text from rows, through the
//!   `csv` crate.
//! * [`schema`]: the column count of an input and the agreement of counts.
//! * [`job`]: jobs and the names of their outputs.
//! * [`aggregate`]: the column-sum aggregator.
//! * [`merge`]: the row-set merger and its header policy.
//! * [`coordinator`]: ranks, job planning, output names and the states a
//!   run goes through.
//!
//! Files, the process group and the clock are left to the caller: the
//! library takes text as bytes and hands text back.

pub mod aggregate;
pub mod codec;
pub mod coordinator;
pub mod decimal;
pub mod error;
pub mod job;
pub mod merge;
pub mod schema;
pub mod table;
