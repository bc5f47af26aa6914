//! Deletion planning: the result record a deletion produces, its error
//! taxonomy, and the pure halves of the executor — what a dry run reports,
//! and how a removal outcome maps to a result. The recursive removal itself
//! is filesystem work performed outside this crate; it hands its outcome
//! back as a plain value.

use vstd::prelude::*;

verus! {

/// What one deletion reported: success, the bytes it freed (as previously
/// computed by the size engine — measuring after removal is meaningless),
/// and an error message when it failed. Failures are per-item and never
/// fatal.
#[derive(Debug)]
pub struct DeleteResult {
    pub success: bool,
    pub size_freed: u64,
    pub error: Option<String>,
}

impl Clone for DeleteResult {
    fn clone(&self) -> (res: Self)
        ensures
            res == *self,
    {
        DeleteResult {
            success: self.success,
            size_freed: self.size_freed,
            error: match &self.error {
                Some(e) => Some(e.clone()),
                None => None,
            },
        }
    }
}

/// Why a deletion failed.
#[derive(Debug)]
pub enum DeleteError {
    PermissionDenied(String),
    NotFound(String),
    Io(String),
}

impl DeleteError {
    /// The user-visible message for this error.
    pub fn message(&self) -> (r: String)
        ensures
            match self {
                DeleteError::PermissionDenied(p) => r@ == "Permission denied: "@ + p@,
                DeleteError::NotFound(p) => r@ == "Path not found: "@ + p@,
                DeleteError::Io(p) => r@ == "IO error: "@ + p@,
            },
    {
        match self {
            DeleteError::PermissionDenied(p) => String::from_str("Permission denied: ").concat(
                p.as_str(),
            ),
            DeleteError::NotFound(p) => String::from_str("Path not found: ").concat(p.as_str()),
            DeleteError::Io(p) => String::from_str("IO error: ").concat(p.as_str()),
        }
    }
}

/// What a dry run reports: success, zero bytes freed, no error — and, by
/// never asking for a removal, the path is left untouched on disk.
pub fn dry_run_result() -> (r: DeleteResult)
    ensures
        r.success,
        r.size_freed == 0,
        r.error is None,
{
    DeleteResult { success: true, size_freed: 0, error: None }
}

/// Maps the outcome of a real recursive removal to the result record: a
/// completed removal is a success, a failed one carries its message; the
/// freed size is reported as zero, since the caller accounts the
/// previously computed size itself.
pub fn deletion_outcome(removal: Result<(), String>) -> (r: DeleteResult)
    ensures
        removal matches Ok(()) ==> r.success && r.error is None,
        removal matches Err(e) ==> !r.success && r.error == Some(e),
        r.size_freed == 0,
{
    match removal {
        Ok(()) => DeleteResult { success: true, size_freed: 0, error: None },
        Err(e) => DeleteResult { success: false, size_freed: 0, error: Some(e) },
    }
}

/// Whether a deletion request should really remove the path: only when dry
/// run is off.
pub fn should_remove(dry_run: bool) -> (r: bool)
    ensures
        r == !dry_run,
{
    !dry_run
}

} // verus!
