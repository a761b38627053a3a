use vstd::prelude::*;

use crate::config::ConfigError;
use crate::diff::{diff, new_postings};
use crate::job::{postings_view, Job};
use crate::snapshot::{encode_snapshot, snapshot_bytes, stored_snapshot, StorageError};

verus! {

/// What one run does once the page has been fetched and read: send a digest
/// of `notify`, then store `save` as the new snapshot.
#[derive(Debug)]
pub struct RunPlan {
    /// The postings that were not listed in the previous snapshot.
    pub notify: Vec<Job>,
    /// The stored form of the new snapshot: everything listed now.
    pub save: Vec<u8>,
}

/// What can go wrong in a run.
#[derive(Debug)]
pub enum RunError {
    /// Mail settings are missing or malformed; found before any network use.
    Configuration(ConfigError),
    /// The page could not be fetched; the snapshot is kept as it was.
    Fetch(String),
    /// The snapshot could not be read or written.
    Storage(StorageError),
    /// The digest could not be delivered.
    Delivery(String),
}

impl RunError {
    /// Whether the run stops here. A failed delivery is reported and the run
    /// goes on to save the snapshot, so that the next run does not report
    /// the same postings again; every other error stops the run.
    pub fn aborts_run(&self) -> (r: bool)
        ensures
            r == !(self is Delivery),
    {
        match self {
            RunError::Delivery(_) => false,
            _ => true,
        }
    }
}

/// Decides a run from the previous snapshot and the outcome of the fetch.
/// A failed fetch stops the run and keeps the old snapshot; a successful one,
/// even one that lists nothing, replaces it.
pub fn plan_run(previous: &[Job], fetched: Result<Vec<Job>, String>) -> (r: Result<
    RunPlan,
    RunError,
>)
    ensures
        match fetched {
            Err(m) => r matches Err(RunError::Fetch(e)) && e@ == m@,
            Ok(current) => r matches Ok(plan) && postings_view(plan.notify@) == new_postings(
                postings_view(current@),
                postings_view(previous@),
            ) && plan.save@ == snapshot_bytes(postings_view(current@)) && stored_snapshot(
                Some(plan.save@),
            ) == Some(postings_view(current@)),
        },
{
    match fetched {
        Err(m) => Err(RunError::Fetch(m)),
        Ok(current) => {
            let notify = diff(current.as_slice(), previous);
            let save = encode_snapshot(current.as_slice());
            Ok(RunPlan { notify, save })
        },
    }
}

} // verus!
