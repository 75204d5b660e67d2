use gitcloner::git_manager::{CloneError, GitManager};
use gitcloner::models::{RepoRecord, RepoStatus};
use gitcloner::orchestrator::sync_all_repositories;
use gitcloner::repo_name::UrlError;
use gitcloner::sync::{SyncError, SyncOutcome};
use std::time::{SystemTime, UNIX_EPOCH};

fn unique(base: &str) -> String {
    let nanos = SystemTime::now()
        .duration_since(UNIX_EPOCH)
        .unwrap()
        .as_nanos();
    format!("/tmp/gitcloner_it/{}_{}", base, nanos)
}

fn record(path: &str) -> RepoRecord {
    RepoRecord {
        id: 1,
        url: "git@example.com:acme/widgets.git".to_string(),
        name: "example.com/acme/widgets".to_string(),
        local_path: path.to_string(),
        last_synced: None,
        created_at: 0,
        status: RepoStatus::Pending,
    }
}

/// Makes a commit whose single file `f` holds `content`, moving `HEAD`.
fn commit(repo: &git2::Repository, content: &str) -> git2::Oid {
    let blob = repo.blob(content.as_bytes()).unwrap();
    let mut builder = repo.treebuilder(None).unwrap();
    builder.insert("f", blob, 0o100644).unwrap();
    let tree_id = builder.write().unwrap();
    let tree = repo.find_tree(tree_id).unwrap();
    let sig = git2::Signature::now("tester", "tester@example.com").unwrap();
    let parent = repo.head().ok().and_then(|h| h.peel_to_commit().ok());
    let parents: Vec<&git2::Commit> = parent.iter().collect();
    repo.commit(Some("HEAD"), &sig, &sig, content, &tree, &parents)
        .unwrap()
}

fn force_checkout(repo: &git2::Repository) {
    repo.checkout_head(Some(git2::build::CheckoutBuilder::default().force()))
        .unwrap();
}

fn tip(repo: &git2::Repository) -> git2::Oid {
    repo.revparse_single("HEAD").unwrap().id()
}

#[test]
fn up_to_date_clone_syncs_idempotently() {
    let src = unique("src_utd");
    let dst = unique("dst_utd");
    let srepo = git2::Repository::init(&src).unwrap();
    commit(&srepo, "one");
    let drepo = git2::Repository::clone(&src, &dst).unwrap();
    let before = tip(&drepo);
    let gm = GitManager::new("/tmp/gitcloner_it".to_string());
    assert_eq!(gm.sync_repository(&record(&dst)), Ok(SyncOutcome::UpToDate));
    assert_eq!(gm.sync_repository(&record(&dst)), Ok(SyncOutcome::UpToDate));
    assert_eq!(tip(&drepo), before);
}

#[test]
fn strictly_behind_clone_fast_forwards_to_remote_tip() {
    let src = unique("src_ff");
    let dst = unique("dst_ff");
    let srepo = git2::Repository::init(&src).unwrap();
    commit(&srepo, "one");
    let drepo = git2::Repository::clone(&src, &dst).unwrap();
    let remote_tip = commit(&srepo, "two");
    let gm = GitManager::new("/tmp/gitcloner_it".to_string());
    assert_eq!(
        gm.sync_repository(&record(&dst)),
        Ok(SyncOutcome::FastForwarded(1))
    );
    assert_eq!(tip(&drepo), remote_tip);
    assert_eq!(gm.sync_repository(&record(&dst)), Ok(SyncOutcome::UpToDate));
}

#[test]
fn two_commits_behind_reports_both() {
    let src = unique("src_ff2");
    let dst = unique("dst_ff2");
    let srepo = git2::Repository::init(&src).unwrap();
    commit(&srepo, "one");
    let drepo = git2::Repository::clone(&src, &dst).unwrap();
    commit(&srepo, "two");
    let remote_tip = commit(&srepo, "three");
    let gm = GitManager::new("/tmp/gitcloner_it".to_string());
    assert_eq!(
        gm.sync_repository(&record(&dst)),
        Ok(SyncOutcome::FastForwarded(2))
    );
    assert_eq!(tip(&drepo), remote_tip);
}

#[test]
fn uncommitted_changes_are_never_merged_over() {
    let src = unique("src_dirty");
    let dst = unique("dst_dirty");
    let srepo = git2::Repository::init(&src).unwrap();
    commit(&srepo, "one");
    let drepo = git2::Repository::clone(&src, &dst).unwrap();
    let before = tip(&drepo);
    // Stage a new file straight into the index, leaving the clone dirty.
    let mut index = drepo.index().unwrap();
    let entry = git2::IndexEntry {
        ctime: git2::IndexTime::new(0, 0),
        mtime: git2::IndexTime::new(0, 0),
        dev: 0,
        ino: 0,
        mode: 0o100644,
        uid: 0,
        gid: 0,
        file_size: 0,
        id: git2::Oid::zero(),
        flags: 0,
        flags_extended: 0,
        path: b"pending-work".to_vec(),
    };
    index.add_frombuffer(&entry, b"uncommitted").unwrap();
    index.write().unwrap();
    commit(&srepo, "two");
    let gm = GitManager::new("/tmp/gitcloner_it".to_string());
    assert_eq!(
        gm.sync_repository(&record(&dst)),
        Ok(SyncOutcome::LocalChangesSkipped)
    );
    assert_eq!(tip(&drepo), before);
}

#[test]
fn diverged_histories_are_left_untouched() {
    let src = unique("src_div");
    let dst = unique("dst_div");
    let srepo = git2::Repository::init(&src).unwrap();
    commit(&srepo, "one");
    let drepo = git2::Repository::clone(&src, &dst).unwrap();
    let local_tip = commit(&drepo, "local work");
    force_checkout(&drepo);
    commit(&srepo, "remote work");
    let gm = GitManager::new("/tmp/gitcloner_it".to_string());
    assert_eq!(
        gm.sync_repository(&record(&dst)),
        Ok(SyncOutcome::DivergedSkipped)
    );
    assert_eq!(tip(&drepo), local_tip);
}

#[test]
fn missing_path_is_reported() {
    let gm = GitManager::new("/tmp/gitcloner_it".to_string());
    let rec = record(&unique("never_created"));
    assert_eq!(gm.sync_repository(&rec), Err(SyncError::PathMissing));
}

#[test]
fn directory_that_is_not_a_clone_is_reported() {
    // `.git/objects` of a fresh repository exists on disk but is not
    // itself a repository.
    let lone = unique("notrepo");
    git2::Repository::init(&lone).unwrap();
    let inner = format!("{}/.git/objects", lone);
    let gm = GitManager::new("/tmp/gitcloner_it".to_string());
    assert_eq!(gm.sync_repository(&record(&inner)), Err(SyncError::OpenFailed));
}

#[test]
fn unreachable_origin_fails_the_fetch() {
    let src = unique("src_badorigin");
    let dst = unique("dst_badorigin");
    let srepo = git2::Repository::init(&src).unwrap();
    commit(&srepo, "one");
    let drepo = git2::Repository::clone(&src, &dst).unwrap();
    drepo
        .remote_set_url("origin", "https://host.invalid/acme/widgets.git")
        .unwrap();
    let gm = GitManager::new("/tmp/gitcloner_it".to_string());
    assert_eq!(gm.sync_repository(&record(&dst)), Err(SyncError::FetchFailed));
}

#[test]
fn repository_without_origin_is_reported() {
    let lone = unique("lone");
    let repo = git2::Repository::init(&lone).unwrap();
    commit(&repo, "one");
    let gm = GitManager::new("/tmp/gitcloner_it".to_string());
    assert_eq!(gm.sync_repository(&record(&lone)), Err(SyncError::NoOrigin));
}

#[test]
fn sweep_isolates_the_failing_repository() {
    let src = unique("src_sweep");
    let dst = unique("dst_sweep");
    let srepo = git2::Repository::init(&src).unwrap();
    commit(&srepo, "one");
    git2::Repository::clone(&src, &dst).unwrap();
    let gm = GitManager::new("/tmp/gitcloner_it".to_string());
    let good = record(&dst);
    let bad = record(&unique("gone"));
    let repos = vec![good, bad];
    let (updated, results) = sync_all_repositories(&gm, &repos, 777);
    assert_eq!(results.len(), 2);
    assert_eq!(updated.len(), 2);
    assert_eq!(results[0], Ok(SyncOutcome::UpToDate));
    assert_eq!(results[1], Err(SyncError::PathMissing));
    assert_eq!(updated[0].status, RepoStatus::Synced);
    assert_eq!(updated[0].last_synced, Some(777));
    assert_eq!(updated[1].status, RepoStatus::Error);
    assert_eq!(updated[1].last_synced, None);
    assert_eq!(updated[1].local_path, repos[1].local_path);
}

#[test]
fn clone_refuses_existing_target_directory() {
    let base = unique("clone_base");
    git2::Repository::init(format!("{}/example.com/acme/widgets", base)).unwrap();
    let gm = GitManager::new(base);
    let r = gm.clone_repository("https://example.com/acme/widgets.git");
    assert_eq!(r, Err(CloneError::AlreadyExists));
}

#[test]
fn clone_rejects_malformed_url_before_any_io() {
    let gm = GitManager::new(unique("clone_b2"));
    let r = gm.clone_repository("just-a-name");
    assert_eq!(r, Err(CloneError::InvalidUrl(UrlError::UnsupportedShape)));
}

#[test]
fn clone_reports_unreachable_remote() {
    let gm = GitManager::new(unique("clone_b3"));
    let r = gm.clone_repository("https://host.invalid/acme/widgets.git");
    assert_eq!(r, Err(CloneError::CloneFailed));
}

#[test]
fn clone_of_local_source_lands_under_joined_path() {
    // A local directory named like `target/s@h:r_N` parses as an
    // SSH-style URL with host `h` and repo `r_N`, while git still treats
    // it as a local path (a `/` stands before the first `:`) — so the
    // clone really runs, exercising clone, path join and the
    // canonicalizer together.
    let gm_base = unique("clone_base4");
    let src = unique("s@h:r");
    let srepo = git2::Repository::init(&src).unwrap();
    commit(&srepo, "one");
    let gm = GitManager::new(gm_base.clone());
    let r = gm.clone_repository(&src);
    let repo_segment = src.split(':').nth(1).unwrap();
    let expected = format!("{}/h/{}", gm_base, repo_segment);
    match r {
        Ok(path) => {
            assert_eq!(path, expected);
            let cloned = git2::Repository::open(&path).unwrap();
            assert_eq!(tip(&cloned), tip(&srepo));
        }
        Err(e) => panic!("clone failed: {:?}", e),
    }
}
