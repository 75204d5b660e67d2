//! The orchestrator: runs the sync engine over registered repositories
//! and reconciles each record's status with its outcome.  One
//! repository's failure never stops the sweep.

use vstd::prelude::*;
use crate::git_manager::GitManager;
use crate::models::{RepoRecord, RepoStatus};
use crate::sync::{SyncError, SyncOutcome};

verus! {

/// How a sync outcome updates a record: success sets `Synced` and
/// refreshes `last_synced`; failure sets `Error` and keeps the old
/// timestamp; nothing else of the record changes.
pub open spec fn spec_apply_outcome(
    rec: RepoRecord,
    res: Result<SyncOutcome, SyncError>,
    now: i64,
) -> RepoRecord {
    RepoRecord {
        status: if res is Ok {
            RepoStatus::Synced
        } else {
            RepoStatus::Error
        },
        last_synced: if res is Ok {
            Some(now)
        } else {
            rec.last_synced
        },
        ..rec
    }
}

/// Builds the record as it stands after a sync attempt with the given
/// outcome, exactly as `spec_apply_outcome` says.
pub fn apply_sync_outcome(rec: &RepoRecord, res: &Result<SyncOutcome, SyncError>, now: i64) -> (r:
    RepoRecord)
    ensures
        r == spec_apply_outcome(*rec, *res, now),
{
    let mut updated = rec.clone();
    match res {
        Ok(_) => {
            updated.status = RepoStatus::Synced;
            updated.last_synced = Some(now);
        },
        Err(_) => {
            updated.status = RepoStatus::Error;
        },
    }
    updated
}

/// A sync attempt never moves a record back to `Pending`, whatever its
/// outcome and whatever the record held before: the status invariant of
/// the registry.
pub proof fn lemma_status_never_pending(
    rec: RepoRecord,
    res: Result<SyncOutcome, SyncError>,
    now: i64,
)
    ensures
        spec_apply_outcome(rec, res, now).status != RepoStatus::Pending,
        spec_apply_outcome(rec, res, now).url == rec.url,
        spec_apply_outcome(rec, res, now).local_path == rec.local_path,
        spec_apply_outcome(rec, res, now).name == rec.name,
        spec_apply_outcome(rec, res, now).created_at == rec.created_at,
        spec_apply_outcome(rec, res, now).id == rec.id,
{
}

/// The sweep: one sync attempt per registered repository, each outcome
/// reconciled into its record.  Every record gets exactly one result; a
/// failing repository is marked `Error` and the sweep goes on.
pub fn sync_all_repositories(git: &GitManager, repos: &Vec<RepoRecord>, now: i64) -> (r: (
    Vec<RepoRecord>,
    Vec<Result<SyncOutcome, SyncError>>,
))
    ensures
        r.0@.len() == repos@.len(),
        r.1@.len() == repos@.len(),
        forall|i: int|
            0 <= i < repos@.len() ==> r.0@[i] == spec_apply_outcome(repos@[i], r.1@[i], now),
{
    let n: usize = repos.len();
    let mut updated: Vec<RepoRecord> = Vec::new();
    let mut results: Vec<Result<SyncOutcome, SyncError>> = Vec::new();
    let mut i: usize = 0;
    while i < n
        invariant
            0 <= i <= n == repos@.len(),
            updated@.len() == i,
            results@.len() == i,
            forall|j: int|
                0 <= j < i ==> updated@[j] == spec_apply_outcome(repos@[j], results@[j], now),
        decreases n - i,
    {
        let res = git.sync_repository(&repos[i]);
        updated.push(apply_sync_outcome(&repos[i], &res, now));
        results.push(res);
        i = i + 1;
    }
    (updated, results)
}

/// Orchestrator resilience: in a sweep where exactly one repository
/// failed, only that record is marked `Error`; every other record is
/// `Synced` with its timestamp refreshed, and no record's identity
/// fields change.
pub proof fn lemma_sweep_isolates_failure(
    before: Seq<RepoRecord>,
    results: Seq<Result<SyncOutcome, SyncError>>,
    after: Seq<RepoRecord>,
    now: i64,
    k: int,
)
    requires
        before.len() == results.len(),
        after.len() == before.len(),
        forall|i: int|
            0 <= i < before.len() ==> after[i] == spec_apply_outcome(before[i], results[i], now),
        0 <= k < results.len(),
        results[k] is Err,
        forall|i: int| 0 <= i < results.len() && i != k ==> results[i] is Ok,
    ensures
        after[k].status == RepoStatus::Error,
        forall|i: int|
            0 <= i < after.len() && i != k ==> (#[trigger] after[i]).status == RepoStatus::Synced
                && after[i].last_synced == Some(now),
        forall|i: int|
            0 <= i < after.len() ==> (#[trigger] after[i]).url == before[i].url && after[
                i
            ].local_path == before[i].local_path && after[i].name == before[i].name && after[
                i
            ].created_at == before[i].created_at,
{
}

} // verus!
