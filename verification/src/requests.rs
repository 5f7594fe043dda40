//! Request bodies of the SQL-file routes and the login rate limit record.
use vstd::prelude::*;

verus! {

/// Body of the cancel route: the execution to cancel.
#[derive(Debug)]
pub struct CancelSqlFileRequest {
    pub execution_id: String,
}

/// Body of the release route: the upload that will not be executed.
#[derive(Debug)]
pub struct ReleaseUploadRequest {
    pub file_path: String,
}

/// Body of the batch-claim route: the uploads of the batch.
#[derive(Debug)]
pub struct ClaimUploadsRequest {
    pub file_paths: Vec<String>,
}

/// The failed logins counted so far and, when logins are locked, the time
/// (nanoseconds on the server's monotonic clock) until which they are.
#[derive(Debug, Clone, Copy)]
pub struct LoginRateLimit {
    pub fail_count: u32,
    pub locked_until: Option<u64>,
}

} // verus!
