//! The sync engine: owns all interaction with git2 and decides the safe
//! next action for a repository.  Every git2 call stands behind a small
//! trusted wrapper; the decision between the calls is verified against
//! `sync::spec_decide`.

use vstd::prelude::*;

use crate::repo_name::{canonical_id, extract_repo_name, UrlError};
use crate::sync::{decide_sync, SyncError, SyncObservation, SyncOutcome};

verus! {

#[verifier::external_type_specification]
#[verifier::external_body]
pub struct ExGitRepository(git2::Repository);

#[verifier::external_type_specification]
#[verifier::external_body]
pub struct ExGitError(git2::Error);

#[verifier::external_type_specification]
#[verifier::external_body]
pub struct ExGitOid(git2::Oid);

#[verifier::external_type_specification]
#[verifier::external_body]
pub struct ExGitRemote<'a>(git2::Remote<'a>);

/// Relies on the derived `Clone` of the `Copy` type `git2::Oid`: a copy
/// of the commit id.
pub assume_specification[ <git2::Oid as Clone>::clone ](o: &git2::Oid) -> (r: git2::Oid)
    ensures
        r == *o,
;

/// Why a clone request failed.
#[derive(Debug, Clone, Copy, PartialEq, Eq, Structural)]
pub enum CloneError {
    /// The URL was rejected before any I/O was attempted.
    InvalidUrl(UrlError),
    /// The target directory already exists; it is never overwritten.
    AlreadyExists,
    /// The clone itself failed (network or filesystem).
    CloneFailed,
}

/// Relies on std::path::Path::exists: whether the path exists on disk at
/// this moment.  Nothing is assumed about the answer.
#[verifier::external_body]
fn path_exists(path: &String) -> bool {
    std::path::Path::new(path.as_str()).exists()
}

/// Relies on git2::Repository::open: opens an existing repository, `Err`
/// when the directory is not a valid clone.
#[verifier::external_body]
fn open_repo(path: &String) -> Result<git2::Repository, git2::Error> {
    git2::Repository::open(path.as_str())
}

/// Relies on git2::Repository::find_remote: the remote named `origin`,
/// `Err` with code `NotFound` when none is configured.
#[verifier::external_body]
fn find_origin<'r>(repo: &'r git2::Repository) -> Result<git2::Remote<'r>, git2::Error> {
    repo.find_remote("origin")
}

/// Relies on git2::Error::code: whether the error is `NotFound`.
#[verifier::external_body]
fn git_error_is_not_found(e: &git2::Error) -> bool {
    e.code() == git2::ErrorCode::NotFound
}

/// Relies on git2::Remote::fetch (with git2::FetchOptions::new): fetches
/// every branch of the remote into `refs/remotes/origin/*`, touching no
/// working-directory content.
#[verifier::external_body]
fn fetch_branches(remote: &mut git2::Remote<'_>) -> Result<(), git2::Error> {
    let mut options = git2::FetchOptions::new();
    remote.fetch(&["refs/heads/*:refs/remotes/origin/*"], Some(&mut options), None)
}

/// Relies on git2::Repository::statuses and git2::Statuses::is_empty:
/// whether the working directory and index hold no uncommitted change.
#[verifier::external_body]
fn worktree_clean(repo: &git2::Repository) -> Result<bool, git2::Error> {
    Ok(repo.statuses(None)?.is_empty())
}

/// Relies on git2::Repository::head and git2::Reference::shorthand: the
/// short name of the checked-out branch, `None` when the head has no
/// usable shorthand.
#[verifier::external_body]
fn head_branch(repo: &git2::Repository) -> Result<Option<String>, git2::Error> {
    let head = repo.head()?;
    Ok(head.shorthand().ok().map(|s| s.to_string()))
}

/// Relies on git2::Repository::head, git2::Reference::peel_to_commit and
/// git2::Commit::id: the commit the head points at.
#[verifier::external_body]
fn head_tip(repo: &git2::Repository) -> Result<git2::Oid, git2::Error> {
    Ok(repo.head()?.peel_to_commit()?.id())
}

/// Relies on git2::Repository::find_reference, peel_to_commit and
/// Commit::id: the tip of `refs/remotes/origin/<branch>`, `None` when no
/// such reference exists.
#[verifier::external_body]
fn remote_tracking_tip(repo: &git2::Repository, branch: &String) -> Result<
    Option<git2::Oid>,
    git2::Error,
> {
    match repo.find_reference(&format!("refs/remotes/origin/{}", branch)) {
        Ok(r) => Ok(Some(r.peel_to_commit()?.id())),
        Err(_) => Ok(None),
    }
}

/// Relies on git2::Repository::graph_ahead_behind: how many commits the
/// first id has over the second, and the second over the first.
#[verifier::external_body]
fn ahead_behind(repo: &git2::Repository, local: git2::Oid, upstream: git2::Oid) -> Result<
    (usize, usize),
    git2::Error,
> {
    repo.graph_ahead_behind(local, upstream)
}

/// Relies on git2::Repository::find_reference and
/// git2::Reference::set_target: moves `refs/heads/<branch>` to the given
/// commit.
#[verifier::external_body]
fn set_branch_target(repo: &git2::Repository, branch: &String, target: git2::Oid) -> Result<
    (),
    git2::Error,
> {
    let mut reference = repo.find_reference(&format!("refs/heads/{}", branch))?;
    reference.set_target(target, "Fast-forward merge")?;
    Ok(())
}

/// Relies on git2::Repository::checkout_head (with a forced
/// git2::build::CheckoutBuilder): makes the working directory match the
/// head.
#[verifier::external_body]
fn checkout_head_force(repo: &git2::Repository) -> Result<(), git2::Error> {
    repo.checkout_head(Some(git2::build::CheckoutBuilder::default().force()))
}

/// Relies on git2::build::RepoBuilder::clone: a full clone of the remote
/// into the given directory.
#[verifier::external_body]
fn git_clone(url: &str, dest: &String) -> Result<(), git2::Error> {
    let mut builder = git2::build::RepoBuilder::new();
    builder.clone(url, std::path::Path::new(dest.as_str()))?;
    Ok(())
}

/// The clone's directory: the canonical identifier under the engine's
/// root, with a separator added only when the root lacks one.
pub open spec fn joined_path(base: Seq<char>, name: Seq<char>) -> Seq<char> {
    if base.len() > 0 && base.last() == '/' {
        base + name
    } else {
        base + seq!['/'] + name
    }
}

/// The sync engine.  It owns the repository root directory: every clone
/// lives at `joined_path(root, identifier)`.
pub struct GitManager {
    base_path: String,
}

impl Clone for GitManager {
    fn clone(&self) -> (r: Self)
        ensures
            r.base() == self.base(),
    {
        GitManager { base_path: self.base_path.clone() }
    }
}

impl GitManager {
    /// The repository root directory.
    pub closed spec fn base(&self) -> Seq<char> {
        self.base_path@
    }

    /// A sync engine rooted at `base_path`.  The caller makes sure the
    /// directory exists.
    pub fn new(base_path: String) -> (r: Self)
        ensures
            r.base() == base_path@,
    {
        GitManager { base_path }
    }

    /// Clones a remote repository into the directory named by its
    /// canonical identifier.  A malformed URL is rejected — with the
    /// canonicalizer's exact error — before any I/O; an existing target
    /// directory is never overwritten; on success the returned path is
    /// exactly the identifier joined under the root.
    pub fn clone_repository(&self, url: &str) -> (r: Result<String, CloneError>)
        ensures
            match r {
                Ok(p) => canonical_id(url@) is Ok && p@ == joined_path(
                    self.base(),
                    canonical_id(url@)->Ok_0,
                ),
                Err(CloneError::InvalidUrl(e)) => canonical_id(url@) == Err::<
                    Seq<char>,
                    UrlError,
                >(e),
                Err(_) => canonical_id(url@) is Ok,
            },
    {
        let name = match extract_repo_name(url) {
            Ok(n) => n,
            Err(e) => {
                return Err(CloneError::InvalidUrl(e));
            },
        };
        let mut path = self.base_path.clone();
        let bl: usize = path.as_str().unicode_len();
        if !(bl > 0 && path.as_str().get_char(bl - 1) == '/') {
            path.append("/");
            proof {
                reveal_strlit("/");
                assert("/"@ =~= seq!['/']);
            }
        }
        path.append(name.as_str());
        proof {
            assert(path@ == joined_path(self.base(), name@));
        }
        if path_exists(&path) {
            return Err(CloneError::AlreadyExists);
        }
        match git_clone(url, &path) {
            Ok(_) => Ok(path),
            Err(_) => Err(CloneError::CloneFailed),
        }
    }

    /// One sync attempt for a registered repository, never discarding
    /// local history: fetch from `origin`, then fast-forward a clean
    /// branch that is strictly behind its remote-tracking counterpart,
    /// and otherwise leave all local state untouched.  The decision
    /// between the observed facts and the outcome is exactly
    /// `sync::spec_decide`; a fast-forward always reports at least one
    /// commit.
    pub fn sync_repository(&self, repo: &crate::models::RepoRecord) -> (r: Result<SyncOutcome, SyncError>)
        ensures
            r matches Ok(SyncOutcome::FastForwarded(n)) ==> n > 0,
    {
        if !path_exists(&repo.local_path) {
            return Err(SyncError::PathMissing);
        }
        let git_repo = match open_repo(&repo.local_path) {
            Ok(g) => g,
            Err(_) => {
                return Err(SyncError::OpenFailed);
            },
        };
        let mut origin = match find_origin(&git_repo) {
            Ok(o) => o,
            Err(e) => {
                return Err(
                    if git_error_is_not_found(&e) {
                        SyncError::NoOrigin
                    } else {
                        SyncError::FetchFailed
                    },
                );
            },
        };
        if fetch_branches(&mut origin).is_err() {
            return Err(SyncError::FetchFailed);
        }
        let clean = match worktree_clean(&git_repo) {
            Ok(b) => b,
            Err(_) => {
                return Err(SyncError::InspectFailed);
            },
        };
        if !clean {
            return Ok(SyncOutcome::LocalChangesSkipped);
        }
        let branch = match head_branch(&git_repo) {
            Ok(Some(b)) => b,
            Ok(None) => {
                return Ok(SyncOutcome::UpToDate);
            },
            Err(_) => {
                return Err(SyncError::InspectFailed);
            },
        };
        let local = match head_tip(&git_repo) {
            Ok(o) => o,
            Err(_) => {
                return Err(SyncError::InspectFailed);
            },
        };
        let remote = match remote_tracking_tip(&git_repo, &branch) {
            Ok(Some(o)) => o,
            Ok(None) => {
                return Ok(SyncOutcome::UpToDate);
            },
            Err(_) => {
                return Err(SyncError::InspectFailed);
            },
        };
        let counts = match ahead_behind(&git_repo, local, remote.clone()) {
            Ok(c) => c,
            Err(_) => {
                return Err(SyncError::InspectFailed);
            },
        };
        let obs = SyncObservation {
            dirty: false,
            on_branch: true,
            remote_ref_found: true,
            ahead: counts.0,
            behind: counts.1,
        };
        let outcome = decide_sync(obs);
        if let SyncOutcome::FastForwarded(n) = outcome {
            if set_branch_target(&git_repo, &branch, remote).is_err() {
                return Err(SyncError::FastForwardFailed);
            }
            if checkout_head_force(&git_repo).is_err() {
                return Err(SyncError::FastForwardFailed);
            }
            return Ok(SyncOutcome::FastForwarded(n));
        }
        Ok(outcome)
    }
}

} // verus!
