//! Domain model of process queries and the process tree.
use vstd::prelude::*;

verus! {

/// Lightweight process information for lists, file locks and port rows.
#[derive(Clone, Debug, Default, PartialEq, Eq)]
pub struct ProcessSummary {
    /// Windows process identifier.
    pub pid: u32,
    /// Display name read from the process snapshot or Restart Manager.
    pub name: String,
    /// Full path of the executable; absent without access or after exit.
    pub exe_path: Option<String>,
}

/// Full process information for the detail page.
#[derive(Clone, Debug, Default, PartialEq, Eq)]
pub struct ProcessInfo {
    pub pid: u32,
    /// Parent PID from the snapshot; absent for roots or when unknown.
    pub parent_pid: Option<u32>,
    pub name: String,
    pub exe_path: Option<String>,
    pub command_line: Option<String>,
    pub started_at: Option<String>,
    /// The chain from the earliest ancestor down to this process.
    pub parent_chain: Vec<ProcessSummary>,
    /// Direct children in the same snapshot, not expanded further.
    pub children: Vec<ProcessSummary>,
}

/// One node of the process tree.
#[derive(Clone, Debug, Default, PartialEq, Eq)]
pub struct ProcessTreeNode {
    pub pid: u32,
    /// Parent PID when the parent is visible in the snapshot.
    pub parent_pid: Option<u32>,
    pub name: String,
    /// PIDs of the visible direct children, ascending.
    pub children: Vec<u32>,
}

/// One consistent snapshot of all process relations.
#[derive(Clone, Debug, Default, PartialEq, Eq)]
pub struct ProcessTreeSnapshot {
    /// All nodes, ordered by lower-cased name and then PID.
    pub nodes: Vec<ProcessTreeNode>,
    /// PIDs of the nodes without a visible parent, in the same order.
    pub roots: Vec<u32>,
}

/// Command line of a process, loaded on demand.
#[derive(Clone, Debug, Default, PartialEq, Eq)]
pub struct ProcessCommandLine {
    pub pid: u32,
    pub command_line: Option<String>,
}

/// A copy of an optional string.
fn clone_optional(value: &Option<String>) -> (r: Option<String>)
    ensures
        r == *value,
{
    match value {
        Some(text) => Some(text.clone()),
        None => None,
    }
}

impl ProcessInfo {
    /// The lightweight summary of this process.
    pub fn summary(&self) -> (s: ProcessSummary)
        ensures
            s == (ProcessSummary { pid: self.pid, name: self.name, exe_path: self.exe_path }),
    {
        ProcessSummary {
            pid: self.pid,
            name: self.name.clone(),
            exe_path: clone_optional(&self.exe_path),
        }
    }
}

} // verus!
