//! Bookkeeping and decisions of the SQL-file routes of the dbx web server:
//! upload paths, the claim of pending uploads, the registry of running
//! executions, stored terminal progress and the progress stream's replay.
pub mod registry;
pub mod error;
pub mod text;
pub mod paths;
pub mod progress;
pub mod execution;
pub mod uploads;
pub mod requests;
