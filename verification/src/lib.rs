//! An in-memory event tracker: immutable event records, a keyed store with
//! point lookup and filtered scans, and the error kinds its callers report.

pub mod api;
pub mod error;
pub mod model;
pub mod storage;
pub mod table;
