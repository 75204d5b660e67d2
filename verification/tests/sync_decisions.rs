use gitcloner::models::{RepoRecord, RepoStatus};
use gitcloner::orchestrator::apply_sync_outcome;
use gitcloner::sync::{decide_sync, SyncError, SyncObservation, SyncOutcome};

fn obs(dirty: bool, on_branch: bool, remote: bool, ahead: usize, behind: usize) -> SyncObservation {
    SyncObservation {
        dirty,
        on_branch,
        remote_ref_found: remote,
        ahead,
        behind,
    }
}

fn record(url: &str, path: &str, status: RepoStatus) -> RepoRecord {
    RepoRecord {
        id: 7,
        url: url.to_string(),
        name: "example.com/acme/widgets".to_string(),
        local_path: path.to_string(),
        last_synced: None,
        created_at: 1000,
        status,
    }
}

#[test]
fn dirty_worktree_always_skips() {
    assert_eq!(decide_sync(obs(true, true, true, 0, 5)), SyncOutcome::LocalChangesSkipped);
    assert_eq!(decide_sync(obs(true, false, false, 3, 0)), SyncOutcome::LocalChangesSkipped);
}

#[test]
fn detached_head_is_up_to_date() {
    assert_eq!(decide_sync(obs(false, false, true, 0, 5)), SyncOutcome::UpToDate);
}

#[test]
fn missing_remote_ref_is_up_to_date() {
    assert_eq!(decide_sync(obs(false, true, false, 0, 5)), SyncOutcome::UpToDate);
}

#[test]
fn strictly_behind_fast_forwards_by_behind_count() {
    assert_eq!(decide_sync(obs(false, true, true, 0, 3)), SyncOutcome::FastForwarded(3));
}

#[test]
fn diverged_is_skipped() {
    assert_eq!(decide_sync(obs(false, true, true, 2, 3)), SyncOutcome::DivergedSkipped);
}

#[test]
fn equal_tips_are_up_to_date() {
    assert_eq!(decide_sync(obs(false, true, true, 0, 0)), SyncOutcome::UpToDate);
}

#[test]
fn strictly_ahead_is_up_to_date() {
    assert_eq!(decide_sync(obs(false, true, true, 4, 0)), SyncOutcome::UpToDate);
}

#[test]
fn success_marks_synced_and_stamps_time() {
    let rec = record("https://example.com/acme/widgets.git", "repos/x", RepoStatus::Pending);
    let updated = apply_sync_outcome(&rec, &Ok(SyncOutcome::UpToDate), 4242);
    assert_eq!(updated.status, RepoStatus::Synced);
    assert_eq!(updated.last_synced, Some(4242));
    assert_eq!(updated.url, rec.url);
    assert_eq!(updated.local_path, rec.local_path);
    assert_eq!(updated.name, rec.name);
    assert_eq!(updated.created_at, rec.created_at);
    assert_eq!(updated.id, rec.id);
}

#[test]
fn skip_outcomes_count_as_success() {
    let rec = record("https://example.com/acme/widgets.git", "repos/x", RepoStatus::Synced);
    let updated = apply_sync_outcome(&rec, &Ok(SyncOutcome::DivergedSkipped), 5000);
    assert_eq!(updated.status, RepoStatus::Synced);
    assert_eq!(updated.last_synced, Some(5000));
}

#[test]
fn failure_marks_error_and_keeps_timestamp() {
    let mut rec = record("https://example.com/acme/widgets.git", "repos/x", RepoStatus::Synced);
    rec.last_synced = Some(900);
    let updated = apply_sync_outcome(&rec, &Err(SyncError::FetchFailed), 5000);
    assert_eq!(updated.status, RepoStatus::Error);
    assert_eq!(updated.last_synced, Some(900));
}

#[test]
fn status_never_returns_to_pending() {
    let rec = record("https://example.com/acme/widgets.git", "repos/x", RepoStatus::Pending);
    let ok = apply_sync_outcome(&rec, &Ok(SyncOutcome::UpToDate), 1);
    let err = apply_sync_outcome(&rec, &Err(SyncError::PathMissing), 1);
    assert_ne!(ok.status, RepoStatus::Pending);
    assert_ne!(err.status, RepoStatus::Pending);
}
