//! Result of a file lock query.
use vstd::prelude::*;

use crate::model::process::ProcessSummary;

verus! {

/// The processes that Restart Manager reports as using a file.
#[derive(Clone, Debug, Default)]
pub struct FileLockResult {
    /// The absolute or relative path given by the user, a drop or a caller.
    pub path: String,
    /// The processes identified as holding the file.
    pub processes: Vec<ProcessSummary>,
}

} // verus!
